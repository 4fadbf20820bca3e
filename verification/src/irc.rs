//! IRCv3 tagged-message parser and serializer.
//!
//! A wire line is `@k=v;k=v :prefix COMMAND arg arg :trail`, every part
//! optional except the command.  Parsing is total: malformed input degrades
//! to empty fields and never fails.  Serializing a well-formed message is
//! the exact inverse of parsing, proved in [`lemma_parse_serialize`].

use vstd::prelude::*;

use crate::strutil::{
    find_c, find_char, join_c, lemma_find_c, lemma_find_c_is, lemma_join_no_char,
    lemma_split_join, split_c, str_eq,
};

verus! {

/// Mathematical model of a parsed message.
#[verifier::ext_equal]
pub ghost struct MessageV {
    pub tags: Seq<(Seq<char>, Seq<char>)>,
    pub prefix: Option<Seq<char>>,
    pub command: Seq<char>,
    pub args: Seq<Seq<char>>,
    pub trail: Seq<char>,
}

// ---------------------------------------------------------------------------
// Parsing, at the specification level.
// ---------------------------------------------------------------------------

/// Split `s` at the first occurrence of `c`: the part before it and the part
/// after it.  If `c` does not occur, the second part is empty.
pub open spec fn split_first(s: Seq<char>, c: char) -> (Seq<char>, Seq<char>) {
    let i = find_c(s, c);
    if i < s.len() {
        (s.take(i), s.skip(i + 1))
    } else {
        (s, Seq::empty())
    }
}

/// One tag entry: key before the first `=`, value after it; an entry with no
/// `=` is a key with an empty value.
pub open spec fn parse_tag(e: Seq<char>) -> (Seq<char>, Seq<char>) {
    split_first(e, '=')
}

/// Each entry of a split tag section, parsed into a key and a value.
pub open spec fn tags_of_entries(entries: Seq<Seq<char>>) -> Seq<(Seq<char>, Seq<char>)> {
    entries.map_values(|e: Seq<char>| parse_tag(e))
}

/// The tag section, split on `;`, each entry split into key and value.
pub open spec fn parse_tags(sec: Seq<char>) -> Seq<(Seq<char>, Seq<char>)> {
    if sec.len() == 0 {
        Seq::empty()
    } else {
        tags_of_entries(split_c(sec, ';'))
    }
}

/// Strip a leading `@`-marked tag section, returning the tags and the rest.
pub open spec fn take_tags(s: Seq<char>) -> (Seq<(Seq<char>, Seq<char>)>, Seq<char>) {
    if s.len() > 0 && s[0] == '@' {
        let body = s.drop_first();
        let i = find_c(body, ' ');
        let rest = if i < body.len() {
            body.skip(i + 1)
        } else {
            Seq::<char>::empty()
        };
        (parse_tags(body.take(i)), rest)
    } else {
        (Seq::empty(), s)
    }
}

/// Strip a leading `:`-marked prefix, returning it and the rest.
pub open spec fn take_prefix(s: Seq<char>) -> (Option<Seq<char>>, Seq<char>) {
    if s.len() > 0 && s[0] == ':' {
        let body = s.drop_first();
        let i = find_c(body, ' ');
        let rest = if i < body.len() {
            body.skip(i + 1)
        } else {
            Seq::<char>::empty()
        };
        (Some(body.take(i)), rest)
    } else {
        (None, s)
    }
}

/// Index of the first ` :` pair in `s`, or `s.len()` if there is none.
pub open spec fn find_trail_sep(s: Seq<char>) -> int
    decreases s.len(),
{
    if s.len() < 2 {
        s.len() as int
    } else if s[0] == ' ' && s[1] == ':' {
        0
    } else {
        1 + find_trail_sep(s.drop_first())
    }
}

/// `find_trail_sep` returns the position of the first ` :` pair.
pub proof fn lemma_find_trail_sep(s: Seq<char>)
    ensures
        0 <= find_trail_sep(s) <= s.len(),
        find_trail_sep(s) < s.len() ==> find_trail_sep(s) + 2 <= s.len()
            && s[find_trail_sep(s)] == ' ' && s[find_trail_sep(s) + 1] == ':',
        forall|j: int|
            0 <= j < find_trail_sep(s) && j + 1 < s.len() ==> !((#[trigger] s[j]) == ' ' && s[j + 1] == ':'),
    decreases s.len(),
{
    if s.len() >= 2 && !(s[0] == ' ' && s[1] == ':') {
        lemma_find_trail_sep(s.drop_first());
        let f = find_trail_sep(s);
        assert forall|j: int|
            0 <= j < f && j + 1 < s.len() implies !((#[trigger] s[j]) == ' ' && s[j + 1] == ':') by {
            if j > 0 {
                assert(!(s.drop_first()[j - 1] == ' ' && s.drop_first()[j] == ':'));
            }
        }
    }
}

/// A position that carries the first-` :`-pair properties is `find_trail_sep`.
pub proof fn lemma_find_trail_sep_is(s: Seq<char>, i: int)
    requires
        0 <= i <= s.len(),
        forall|j: int| 0 <= j < i && j + 1 < s.len() ==> !((#[trigger] s[j]) == ' ' && s[j + 1] == ':'),
        i < s.len() ==> i + 1 < s.len() && s[i] == ' ' && s[i + 1] == ':',
    ensures
        find_trail_sep(s) == i,
{
    lemma_find_trail_sep(s);
    let f = find_trail_sep(s);
    if f < i {
        assert(s[f] == ' ' && s[f + 1] == ':');
        assert(false);
    }
    if i < f {
        assert(!(s[i] == ' ' && s[i + 1] == ':'));
        assert(false);
    }
}

/// Split at the first ` :` pair into head and trail; with no such pair the
/// whole input is head and the trail is empty.
pub open spec fn take_trail(s: Seq<char>) -> (Seq<char>, Seq<char>) {
    let i = find_trail_sep(s);
    if i < s.len() {
        (s.take(i), s.skip(i + 2))
    } else {
        (s, Seq::empty())
    }
}

/// Split on spaces, dropping empty pieces.
pub open spec fn tokens(s: Seq<char>) -> Seq<Seq<char>>
    decreases s.len(),
    via tokens_dec
{
    let i = find_c(s, ' ');
    if i == s.len() {
        if s.len() > 0 {
            seq![s]
        } else {
            Seq::empty()
        }
    } else if i == 0 {
        tokens(s.skip(1))
    } else {
        seq![s.take(i)] + tokens(s.skip(i + 1))
    }
}

#[via_fn]
proof fn tokens_dec(s: Seq<char>) {
    lemma_find_c(s, ' ');
}

/// What parsing a raw line yields: the four stages of the grammar applied in
/// order — tags, prefix, trail, then head tokens.
pub open spec fn spec_parse(s: Seq<char>) -> MessageV {
    let (tags, r1) = take_tags(s);
    let (prefix, r2) = take_prefix(r1);
    let (head, trail) = take_trail(r2);
    let toks = tokens(head);
    MessageV {
        tags,
        prefix,
        command: if toks.len() > 0 {
            toks[0]
        } else {
            Seq::empty()
        },
        args: if toks.len() > 0 {
            toks.drop_first()
        } else {
            Seq::empty()
        },
        trail,
    }
}

// ---------------------------------------------------------------------------
// Serializing, at the specification level.
// ---------------------------------------------------------------------------

/// One serialized tag entry, `key=value`.
pub open spec fn tag_str(kv: (Seq<char>, Seq<char>)) -> Seq<char> {
    kv.0 + seq!['='] + kv.1
}

/// The serialized entries of a tag list.
pub open spec fn tag_strs(tags: Seq<(Seq<char>, Seq<char>)>) -> Seq<Seq<char>> {
    tags.map_values(|kv: (Seq<char>, Seq<char>)| tag_str(kv))
}

/// The serialized tag section including markers, empty when there are no tags.
pub open spec fn tags_part(tags: Seq<(Seq<char>, Seq<char>)>) -> Seq<char> {
    if tags.len() > 0 {
        seq!['@'] + join_c(tag_strs(tags), ';') + seq![' ']
    } else {
        Seq::empty()
    }
}

/// The serialized prefix including markers, empty when absent.
pub open spec fn prefix_part(prefix: Option<Seq<char>>) -> Seq<char> {
    match prefix {
        Some(p) => seq![':'] + p + seq![' '],
        None => Seq::empty(),
    }
}

/// The serialized middle arguments, each preceded by a single space.
pub open spec fn args_str(args: Seq<Seq<char>>) -> Seq<char>
    decreases args.len(),
{
    if args.len() == 0 {
        Seq::empty()
    } else {
        seq![' '] + args[0] + args_str(args.drop_first())
    }
}

/// The serialized trail including its ` :` marker, empty when the trail is.
pub open spec fn trail_part(trail: Seq<char>) -> Seq<char> {
    if trail.len() > 0 {
        seq![' ', ':'] + trail
    } else {
        Seq::empty()
    }
}

/// The wire form of a message.
pub open spec fn spec_serialize(m: MessageV) -> Seq<char> {
    tags_part(m.tags) + prefix_part(m.prefix) + m.command + args_str(m.args) + trail_part(m.trail)
}

// ---------------------------------------------------------------------------
// Well-formedness: the messages whose wire form parses back to themselves.
// ---------------------------------------------------------------------------

/// A head word: nonempty, no spaces, and no leading marker character.
pub open spec fn wf_word(w: Seq<char>) -> bool {
    w.len() > 0 && !w.contains(' ') && w[0] != ':' && w[0] != '@'
}

/// A tag key or value is free of the separators; a key is also nonempty and
/// free of `=`.
pub open spec fn wf_tag(kv: (Seq<char>, Seq<char>)) -> bool {
    &&& kv.0.len() > 0
    &&& !kv.0.contains(';')
    &&& !kv.0.contains(' ')
    &&& !kv.0.contains('=')
    &&& !kv.1.contains(';')
    &&& !kv.1.contains(' ')
}

/// A message whose wire form is unambiguous: parsing it recovers the message.
pub open spec fn wf_msg(m: MessageV) -> bool {
    &&& forall|i: int| 0 <= i < m.tags.len() ==> wf_tag(#[trigger] m.tags[i])
    &&& match m.prefix {
        Some(p) => p.len() > 0 && !p.contains(' '),
        None => true,
    }
    &&& wf_word(m.command)
    &&& forall|i: int|
        0 <= i < m.args.len() ==> (#[trigger] m.args[i]).len() > 0 && !m.args[i].contains(' ')
            && m.args[i][0] != ':'
}

// ---------------------------------------------------------------------------
// The round trip.
// ---------------------------------------------------------------------------

/// A serialized tag entry is nonempty, free of both separators, and parses
/// back to the pair it came from.
proof fn lemma_tag_str(kv: (Seq<char>, Seq<char>))
    requires
        wf_tag(kv),
    ensures
        tag_str(kv).len() > 0,
        !tag_str(kv).contains(';'),
        !tag_str(kv).contains(' '),
        parse_tag(tag_str(kv)) == kv,
{
    let t = tag_str(kv);
    assert forall|k: int| 0 <= k < t.len() implies t[k] != ';' && t[k] != ' ' by {
        if k < kv.0.len() {
            assert(kv.0[k] == t[k]);
            assert(!kv.0.contains(';') && !kv.0.contains(' '));
        } else if k > kv.0.len() {
            assert(kv.1[k - kv.0.len() - 1] == t[k]);
            assert(!kv.1.contains(';') && !kv.1.contains(' '));
        }
    }
    assert forall|k: int| 0 <= k < kv.0.len() implies t[k] != '=' by {
        assert(kv.0[k] == t[k]);
        assert(!kv.0.contains('='));
    }
    assert(t[kv.0.len() as int] == '=');
    lemma_find_c_is(t, '=', kv.0.len() as int);
    assert(t.take(kv.0.len() as int) =~= kv.0);
    assert(t.skip(kv.0.len() as int + 1) =~= kv.1);
}

/// Stripping the tag section off a serialized message recovers its tags.
proof fn lemma_rt_tags(m: MessageV)
    requires
        wf_msg(m),
    ensures
        take_tags(spec_serialize(m)).0 == m.tags,
        take_tags(spec_serialize(m)).1 == prefix_part(m.prefix) + m.command + args_str(m.args)
            + trail_part(m.trail),
    decreases m.tags.len(),
{
    let s = spec_serialize(m);
    let rest = prefix_part(m.prefix) + m.command + args_str(m.args) + trail_part(m.trail);
    if m.tags.len() == 0 {
        assert(s =~= rest);
        assert(s.len() >= m.command.len());
        match m.prefix {
            Some(p) => {
                assert(s[0] == ':');
            },
            None => {
                assert(s[0] == m.command[0]);
            },
        }
        assert(s[0] != '@');
        assert(take_tags(s).1 =~= rest);
    } else {
        let mapped = tag_strs(m.tags);
        let j = join_c(mapped, ';');
        assert forall|i: int| 0 <= i < mapped.len() implies !(#[trigger] mapped[i]).contains(';')
            && !mapped[i].contains(' ') && mapped[i].len() > 0 by {
            lemma_tag_str(m.tags[i]);
        }
        lemma_join_no_char(mapped, ';', ' ');
        if mapped.len() == 1 {
            assert(j == mapped[0]);
        } else {
            assert(j == mapped[0] + seq![';'] + join_c(mapped.drop_first(), ';'));
        }
        assert(j.len() > 0);
        assert(s =~= seq!['@'] + j + seq![' '] + rest);
        assert(s[0] == '@');
        let body = s.drop_first();
        assert(body =~= j + seq![' '] + rest);
        assert forall|k: int| 0 <= k < j.len() implies body[k] != ' ' by {
            assert(body[k] == j[k]);
        }
        assert(body[j.len() as int] == ' ');
        lemma_find_c_is(body, ' ', j.len() as int);
        let i = find_c(body, ' ');
        assert(i < body.len());
        assert(body.take(i) =~= j);
        assert(body.skip(i + 1) =~= rest);
        lemma_split_join(mapped, ';');
        let parsed = parse_tags(j);
        assert(parsed == tags_of_entries(split_c(j, ';')));
        assert(parsed =~= m.tags) by {
            assert forall|k: int| 0 <= k < m.tags.len() implies parsed[k] == m.tags[k] by {
                assert(split_c(j, ';')[k] == mapped[k]);
                lemma_tag_str(m.tags[k]);
            }
        }
    }
}

/// Stripping the prefix off the rest recovers it.
proof fn lemma_rt_prefix(m: MessageV)
    requires
        wf_msg(m),
    ensures
        take_prefix(prefix_part(m.prefix) + m.command + args_str(m.args) + trail_part(m.trail)).0
            == m.prefix,
        take_prefix(prefix_part(m.prefix) + m.command + args_str(m.args) + trail_part(m.trail)).1
            == m.command + args_str(m.args) + trail_part(m.trail),
{
    let rest = m.command + args_str(m.args) + trail_part(m.trail);
    let s = prefix_part(m.prefix) + m.command + args_str(m.args) + trail_part(m.trail);
    match m.prefix {
        None => {
            assert(s =~= rest);
            assert(s[0] == m.command[0]);
            assert(s[0] != ':');
            assert(take_prefix(s).1 =~= rest);
        },
        Some(p) => {
            assert(s =~= seq![':'] + p + seq![' '] + rest);
            assert(s[0] == ':');
            let body = s.drop_first();
            assert(body =~= p + seq![' '] + rest);
            assert forall|k: int| 0 <= k < p.len() implies body[k] != ' ' by {
                assert(body[k] == p[k]);
            }
            assert(body[p.len() as int] == ' ');
            lemma_find_c_is(body, ' ', p.len() as int);
            let i = find_c(body, ' ');
            assert(i < body.len());
            assert(body.take(i) =~= p);
            assert(body.skip(i + 1) =~= rest);
        },
    }
}

/// No ` :` pair occurs in `s`.
pub open spec fn no_trail_sep(s: Seq<char>) -> bool {
    forall|j: int| 0 <= j && j + 1 < s.len() ==> !((#[trigger] s[j]) == ' ' && s[j + 1] == ':')
}

/// Appending a space and a word that does not start with `:` to a head free
/// of ` :` pairs keeps it free of them.
proof fn lemma_no_sep_append(h: Seq<char>, b: Seq<char>)
    requires
        no_trail_sep(h),
        b.len() > 0,
        !b.contains(' '),
        b[0] != ':',
    ensures
        no_trail_sep(h + seq![' '] + b),
{
    let s = h + seq![' '] + b;
    assert forall|j: int| 0 <= j && j + 1 < s.len() implies !((#[trigger] s[j]) == ' ' && s[j + 1] == ':') by {
        if j + 1 < h.len() {
            assert(s[j] == h[j] && s[j + 1] == h[j + 1]);
        } else if j + 1 == h.len() {
            assert(s[j + 1] == ' ');
        } else if j == h.len() {
            assert(s[j + 1] == b[0]);
        } else {
            assert(s[j] == b[j - h.len() - 1]);
        }
    }
}

/// The serialized head — a word followed by arguments — has no ` :` pair.
proof fn lemma_head_no_sep(w: Seq<char>, args: Seq<Seq<char>>)
    requires
        no_trail_sep(w),
        forall|i: int|
            0 <= i < args.len() ==> (#[trigger] args[i]).len() > 0 && !args[i].contains(' ')
                && args[i][0] != ':',
    ensures
        no_trail_sep(w + args_str(args)),
    decreases args.len(),
{
    if args.len() == 0 {
        assert(w + args_str(args) =~= w);
    } else {
        let a = args[0];
        let w2 = w + seq![' '] + a;
        lemma_no_sep_append(w, a);
        lemma_head_no_sep(w2, args.drop_first());
        assert(w + args_str(args) =~= w2 + args_str(args.drop_first()));
    }
}

/// Splitting the trail off the serialized head and trail recovers both.
proof fn lemma_rt_trail(m: MessageV)
    requires
        wf_msg(m),
    ensures
        take_trail(m.command + args_str(m.args) + trail_part(m.trail)).0 == m.command + args_str(
            m.args,
        ),
        take_trail(m.command + args_str(m.args) + trail_part(m.trail)).1 == m.trail,
{
    let head = m.command + args_str(m.args);
    let s = head + trail_part(m.trail);
    assert(no_trail_sep(m.command)) by {
        assert forall|j: int|
            0 <= j && j + 1 < m.command.len() implies !((#[trigger] m.command[j]) == ' '
            && m.command[j + 1] == ':') by {
            assert(m.command[j] != ' ');
        }
    }
    lemma_head_no_sep(m.command, m.args);
    if m.trail.len() == 0 {
        assert(s =~= head);
        lemma_find_trail_sep_is(s, s.len() as int);
        assert(take_trail(s).0 =~= head);
    } else {
        assert(s =~= head + seq![' ', ':'] + m.trail);
        assert(s[head.len() as int] == ' ' && s[head.len() as int + 1] == ':');
        assert forall|j: int|
            0 <= j < head.len() && j + 1 < s.len() implies !((#[trigger] s[j]) == ' ' && s[j + 1] == ':') by {
            if j + 1 < head.len() {
                assert(s[j] == head[j] && s[j + 1] == head[j + 1]);
            } else {
                assert(j + 1 == head.len());
                assert(s[j + 1] == ' ');
            }
        }
        lemma_find_trail_sep_is(s, head.len() as int);
        assert(s.take(head.len() as int) =~= head);
        assert(s.skip(head.len() as int + 2) =~= m.trail);
    }
}

/// Tokenizing a word followed by a space and more text yields the word, then
/// the tokens of the rest.
proof fn lemma_tokens_word(w: Seq<char>, rest: Seq<char>)
    requires
        w.len() > 0,
        !w.contains(' '),
    ensures
        tokens(w + seq![' '] + rest) == seq![w] + tokens(rest),
{
    let s = w + seq![' '] + rest;
    assert forall|k: int| 0 <= k < w.len() implies s[k] != ' ' by {
        assert(s[k] == w[k]);
    }
    assert(s[w.len() as int] == ' ');
    lemma_find_c_is(s, ' ', w.len() as int);
    assert(s.take(w.len() as int) =~= w);
    assert(s.skip(w.len() as int + 1) =~= rest);
}

/// Tokenizing the serialized head recovers the command and the arguments.
proof fn lemma_rt_tokens(w: Seq<char>, args: Seq<Seq<char>>)
    requires
        w.len() > 0,
        !w.contains(' '),
        forall|i: int|
            0 <= i < args.len() ==> (#[trigger] args[i]).len() > 0 && !args[i].contains(' '),
    ensures
        tokens(w + args_str(args)) == seq![w] + args,
    decreases args.len(),
{
    if args.len() == 0 {
        assert(w + args_str(args) =~= w);
        lemma_find_c_is(w, ' ', w.len() as int);
        assert(tokens(w) =~= seq![w]);
        assert(seq![w] + args =~= seq![w]);
    } else {
        let a = args[0];
        let rest = a + args_str(args.drop_first());
        assert(w + args_str(args) =~= w + seq![' '] + rest);
        lemma_tokens_word(w, rest);
        lemma_rt_tokens(a, args.drop_first());
        assert(rest =~= a + args_str(args.drop_first()));
        assert(tokens(w + args_str(args)) =~= seq![w] + (seq![a] + args.drop_first()));
        assert(seq![w] + (seq![a] + args.drop_first()) =~= seq![w] + args);
    }
}

/// Round trip: parsing the wire form of any well-formed message recovers the
/// message exactly.
pub proof fn lemma_parse_serialize(m: MessageV)
    requires
        wf_msg(m),
    ensures
        spec_parse(spec_serialize(m)) == m,
{
    let s = spec_serialize(m);
    lemma_rt_tags(m);
    let r1 = take_tags(s).1;
    lemma_rt_prefix(m);
    let r2 = take_prefix(r1).1;
    lemma_rt_trail(m);
    let head = take_trail(r2).0;
    assert(head == m.command + args_str(m.args));
    lemma_rt_tokens(m.command, m.args);
    let toks = tokens(head);
    assert(toks == seq![m.command] + m.args);
    assert(toks.len() > 0);
    assert(toks[0] == m.command);
    assert(toks.drop_first() =~= m.args);
    assert(spec_parse(s) =~~= m);
}

/// A well-formed wire line: the serialization of some well-formed message.
pub open spec fn wf_line(s: Seq<char>) -> bool {
    exists|m: MessageV| wf_msg(m) && s == spec_serialize(m)
}

/// Round trip, stated on lines: serializing the parse of a well-formed wire
/// line reproduces the line.
pub proof fn lemma_round_trip(s: Seq<char>)
    requires
        wf_line(s),
    ensures
        spec_serialize(spec_parse(s)) == s,
{
    let m = choose|m: MessageV| wf_msg(m) && s == spec_serialize(m);
    lemma_parse_serialize(m);
}

// ---------------------------------------------------------------------------
// Tag lookup.
// ---------------------------------------------------------------------------

/// The value of the first tag whose key is `key`, if any.
pub open spec fn lookup_tag(tags: Seq<(Seq<char>, Seq<char>)>, key: Seq<char>) -> Option<Seq<char>>
    decreases tags.len(),
{
    if tags.len() == 0 {
        None
    } else if tags[0].0 == key {
        Some(tags[0].1)
    } else {
        lookup_tag(tags.drop_first(), key)
    }
}

/// Tag lookup law, present key: on a tag list with pairwise-distinct keys,
/// looking up the key of any entry yields exactly that entry's value.
pub proof fn lemma_tag_lookup_present(tags: Seq<(Seq<char>, Seq<char>)>, i: int)
    requires
        0 <= i < tags.len(),
        forall|j: int, k: int|
            0 <= j < k < tags.len() ==> (#[trigger] tags[j]).0 != (#[trigger] tags[k]).0,
    ensures
        lookup_tag(tags, tags[i].0) == Some(tags[i].1),
    decreases tags.len(),
{
    if i > 0 {
        assert(tags[0].0 != tags[i].0);
        assert(tags.drop_first()[i - 1] == tags[i]);
        lemma_tag_lookup_present(tags.drop_first(), i - 1);
    }
}

/// Tag lookup law, absent key: looking up a key that no entry has yields
/// nothing.
pub proof fn lemma_tag_lookup_absent(tags: Seq<(Seq<char>, Seq<char>)>, key: Seq<char>)
    requires
        forall|i: int| 0 <= i < tags.len() ==> (#[trigger] tags[i]).0 != key,
    ensures
        lookup_tag(tags, key) is None,
    decreases tags.len(),
{
    if tags.len() > 0 {
        lemma_tag_lookup_absent(tags.drop_first(), key);
    }
}

// ---------------------------------------------------------------------------
// The executable message.
// ---------------------------------------------------------------------------

/// View of one stored tag pair.
pub open spec fn kv_view(kv: (String, String)) -> (Seq<char>, Seq<char>) {
    (kv.0@, kv.1@)
}

/// View of the stored tag list.
pub open spec fn kvs_view(kvs: Seq<(String, String)>) -> Seq<(Seq<char>, Seq<char>)> {
    kvs.map_values(|kv: (String, String)| kv_view(kv))
}

/// View of a stored argument list.
pub open spec fn strs_view(xs: Seq<String>) -> Seq<Seq<char>> {
    xs.map_values(|x: String| x@)
}

/// A parsed protocol line: tags, optional prefix, command, middle arguments
/// and trailing text.
pub struct Message {
    pub tags: Vec<(String, String)>,
    pub prefix: Option<String>,
    pub command: String,
    pub args: Vec<String>,
    pub trail: String,
}

impl View for Message {
    type V = MessageV;

    open spec fn view(&self) -> MessageV {
        MessageV {
            tags: kvs_view(self.tags@),
            prefix: match self.prefix {
                Some(p) => Some(p@),
                None => None,
            },
            command: self.command@,
            args: strs_view(self.args@),
            trail: self.trail@,
        }
    }
}

/// Parse one tag entry and push it.
fn push_tag(entry: &str, out: &mut Vec<(String, String)>)
    ensures
        kvs_view(final(out)@) == kvs_view(old(out)@).push(parse_tag(entry@)),
{
    let len = entry.unicode_len();
    let i = find_char(entry, '=');
    if i < len {
        let k = String::from_str(entry.substring_char(0, i));
        let v = String::from_str(entry.substring_char(i + 1, len));
        out.push((k, v));
    } else {
        out.push((String::from_str(entry), String::new()));
    }
    proof {
        assert(kvs_view(out@) =~= kvs_view(old(out)@).push(parse_tag(entry@)));
    }
}

/// Split a nonempty tag section on `;` and push each parsed entry.
fn split_tags(sec: &str, out: &mut Vec<(String, String)>)
    ensures
        kvs_view(final(out)@) == kvs_view(old(out)@) + tags_of_entries(split_c(sec@, ';')),
    decreases sec@.len(),
{
    let len = sec.unicode_len();
    let i = find_char(sec, ';');
    if i == len {
        push_tag(sec, out);
        proof {
            assert(split_c(sec@, ';') =~= seq![sec@]);
            assert(kvs_view(out@) =~= kvs_view(old(out)@) + tags_of_entries(seq![sec@]));
        }
    } else {
        let entry = sec.substring_char(0, i);
        push_tag(entry, out);
        let rest = sec.substring_char(i + 1, len);
        split_tags(rest, out);
        proof {
            assert(split_c(sec@, ';') =~= seq![sec@.take(i as int)] + split_c(
                sec@.skip(i as int + 1),
                ';',
            ));
            assert(kvs_view(out@) =~= kvs_view(old(out)@) + tags_of_entries(split_c(sec@, ';')));
        }
    }
}

/// Split on spaces and push each nonempty word.
fn split_words(s: &str, out: &mut Vec<String>)
    ensures
        strs_view(final(out)@) == strs_view(old(out)@) + tokens(s@),
    decreases s@.len(),
{
    let len = s.unicode_len();
    let i = find_char(s, ' ');
    if i == len {
        if len > 0 {
            out.push(String::from_str(s));
        }
        proof {
            assert(strs_view(out@) =~= strs_view(old(out)@) + tokens(s@));
        }
    } else if i == 0 {
        let rest = s.substring_char(1, len);
        proof {
            assert(rest@ =~= s@.skip(1));
        }
        split_words(rest, out);
    } else {
        out.push(String::from_str(s.substring_char(0, i)));
        let rest = s.substring_char(i + 1, len);
        split_words(rest, out);
        proof {
            assert(strs_view(out@) =~= strs_view(old(out)@) + tokens(s@));
        }
    }
}

/// Scan for the first ` :` pair.
fn find_trail_exec(s: &str) -> (r: usize)
    ensures
        r as int == find_trail_sep(s@),
        r <= s@.len(),
{
    let len = s.unicode_len();
    if len < 2 {
        return len;
    }
    let mut i: usize = 0;
    while i + 1 < len
        invariant
            len == s@.len(),
            i + 1 <= len,
            forall|j: int| 0 <= j < i ==> !((#[trigger] s@[j]) == ' ' && s@[j + 1] == ':'),
        decreases len - i,
    {
        if s.get_char(i) == ' ' && s.get_char(i + 1) == ':' {
            proof {
                lemma_find_trail_sep_is(s@, i as int);
            }
            return i;
        }
        i += 1;
    }
    proof {
        lemma_find_trail_sep_is(s@, len as int);
    }
    len
}

/// Parse a raw wire line.  Total: malformed input yields empty fields, never
/// an error.
pub fn parse(raw: &str) -> (m: Message)
    ensures
        m@ == spec_parse(raw@),
{
    proof {
        reveal_strlit("");
    }
    let len = raw.unicode_len();

    // Tags.
    let mut tags: Vec<(String, String)> = Vec::new();
    let mut rest1: &str = raw;
    if len > 0 && raw.get_char(0) == '@' {
        let body = raw.substring_char(1, len);
        proof {
            assert(body@ =~= raw@.drop_first());
        }
        let blen = body.unicode_len();
        let i = find_char(body, ' ');
        let sec = body.substring_char(0, i);
        if i > 0 {
            split_tags(sec, &mut tags);
        }
        rest1 = if i < blen {
            body.substring_char(i + 1, blen)
        } else {
            ""
        };
        proof {
            assert(sec@.len() == 0 ==> kvs_view(tags@) =~= parse_tags(sec@));
            assert(kvs_view(tags@) =~= take_tags(raw@).0);
            assert(rest1@ =~= take_tags(raw@).1);
        }
    } else {
        proof {
            assert(kvs_view(tags@) =~= take_tags(raw@).0);
        }
    }

    // Prefix.
    let mut prefix: Option<String> = None;
    let mut rest2: &str = rest1;
    let r1len = rest1.unicode_len();
    if r1len > 0 && rest1.get_char(0) == ':' {
        let body = rest1.substring_char(1, r1len);
        proof {
            assert(body@ =~= rest1@.drop_first());
        }
        let blen = body.unicode_len();
        let i = find_char(body, ' ');
        prefix = Some(String::from_str(body.substring_char(0, i)));
        rest2 = if i < blen {
            body.substring_char(i + 1, blen)
        } else {
            ""
        };
        proof {
            assert(rest2@ =~= take_prefix(rest1@).1);
        }
    }

    // Trail.
    let r2len = rest2.unicode_len();
    let ts = find_trail_exec(rest2);
    let head: &str;
    let trail: String;
    if ts < r2len {
        proof {
            lemma_find_trail_sep(rest2@);
        }
        head = rest2.substring_char(0, ts);
        trail = String::from_str(rest2.substring_char(ts + 2, r2len));
    } else {
        head = rest2;
        trail = String::new();
    }
    proof {
        assert(head@ =~= take_trail(rest2@).0);
        assert(trail@ =~= take_trail(rest2@).1);
    }

    // Command and arguments.
    let mut words: Vec<String> = Vec::new();
    split_words(head, &mut words);
    let command: String;
    let args: Vec<String>;
    if words.len() > 0 {
        let mut w = words;
        command = w.remove(0);
        args = w;
        proof {
            assert(strs_view(args@) =~= tokens(head@).drop_first());
        }
    } else {
        command = String::new();
        args = Vec::new();
        proof {
            assert(strs_view(args@) =~= Seq::<Seq<char>>::empty());
        }
    }

    let m = Message { tags, prefix, command, args, trail };
    proof {
        assert(m@ =~~= spec_parse(raw@));
    }
    m
}

/// `join_c` grows by a separator and the new piece — or just the piece, when
/// it is the first.
proof fn lemma_join_push(xs: Seq<Seq<char>>, x: Seq<char>, c: char)
    ensures
        join_c(xs.push(x), c) == if xs.len() == 0 {
            x
        } else {
            join_c(xs, c) + seq![c] + x
        },
    decreases xs.len(),
{
    if xs.len() == 0 {
        assert(xs.push(x) =~= seq![x]);
    } else if xs.len() == 1 {
        assert(xs.push(x).drop_first() =~= seq![x]);
        assert(join_c(seq![x], c) == x);
        assert(xs.push(x)[0] == xs[0]);
        assert(join_c(xs.push(x), c) == xs[0] + seq![c] + x);
    } else {
        lemma_join_push(xs.drop_first(), x, c);
        assert(xs.push(x).drop_first() =~= xs.drop_first().push(x));
        assert(join_c(xs.push(x), c) =~= join_c(xs, c) + seq![c] + x);
    }
}

/// `args_str` distributes over concatenation.
proof fn lemma_args_str_add(a: Seq<Seq<char>>, b: Seq<Seq<char>>)
    ensures
        args_str(a + b) == args_str(a) + args_str(b),
    decreases a.len(),
{
    if a.len() == 0 {
        assert(a + b =~= b);
        assert(args_str(a) + args_str(b) =~= args_str(b));
    } else {
        lemma_args_str_add(a.drop_first(), b);
        assert((a + b).drop_first() =~= a.drop_first() + b);
        assert(args_str(a + b) =~= args_str(a) + args_str(b));
    }
}

impl Message {
    /// The value of the first tag with the given key, if any.
    pub fn get_tag(&self, key: &str) -> (r: Option<String>)
        ensures
            match r {
                Some(v) => lookup_tag(self@.tags, key@) == Some(v@),
                None => lookup_tag(self@.tags, key@) is None,
            },
    {
        let mut i: usize = 0;
        proof {
            assert(self@.tags.skip(0) =~= self@.tags);
        }
        while i < self.tags.len()
            invariant
                i <= self.tags.len(),
                lookup_tag(self@.tags, key@) == lookup_tag(self@.tags.skip(i as int), key@),
            decreases self.tags.len() - i,
        {
            let kv = &self.tags[i];
            proof {
                assert(self@.tags.skip(i as int)[0] == kv_view(self.tags@[i as int]));
            }
            if str_eq(kv.0.as_str(), key) {
                return Some(kv.1.clone());
            }
            proof {
                assert(self@.tags.skip(i as int).drop_first() =~= self@.tags.skip(i as int + 1));
            }
            i += 1;
        }
        proof {
            assert(self@.tags.skip(i as int).len() == 0);
        }
        None
    }

    /// The numeric value of a tag, defaulting to 0 when the tag is absent or
    /// not a number.
    pub fn get_tag_num(&self, key: &str) -> (r: usize)
        ensures
            r as nat == match lookup_tag(self@.tags, key@) {
                Some(v) => crate::strutil::spec_parse_num(v),
                None => 0,
            },
    {
        match self.get_tag(key) {
            Some(v) => crate::strutil::parse_num(v.as_str()),
            None => 0,
        }
    }

    /// The sending entity: the prefix up to the first `!` or `@`, whichever
    /// comes first, or empty with no prefix.
    pub fn author(&self) -> (r: &str)
        ensures
            r@ == author_of(self@),
    {
        match &self.prefix {
            Some(p) => {
                let s = p.as_str();
                let i = find_char(s, '!');
                let j = find_char(s, '@');
                let k = if i <= j {
                    i
                } else {
                    j
                };
                s.substring_char(0, k)
            },
            None => {
                proof {
                    reveal_strlit("");
                }
                ""
            },
        }
    }

    /// The deduplication signature: author, first argument (the target) and
    /// trailing text, space-separated.
    pub fn get_signature(&self) -> (r: String)
        ensures
            r@ == spec_signature(self@),
    {
        proof {
            reveal_strlit(" ");
        }
        let mut out = String::from_str(self.author());
        out.append(" ");
        if self.args.len() > 0 {
            out.append(self.args[0].as_str());
        }
        out.append(" ");
        out.append(self.trail.as_str());
        proof {
            assert(out@ =~= spec_signature(self@));
        }
        out
    }

    /// The wire form of this message.
    pub fn serialize(&self) -> (r: String)
        ensures
            r@ == spec_serialize(self@),
    {
        proof {
            reveal_strlit("@");
            reveal_strlit(";");
            reveal_strlit("=");
            reveal_strlit(" ");
            reveal_strlit(":");
            reveal_strlit(" :");
        }
        let ghost tview = self@.tags;
        let ghost aview = self@.args;
        let mut out = String::new();
        if self.tags.len() > 0 {
            out.append("@");
            let mut i: usize = 0;
            proof {
                assert(tag_strs(tview.take(0)) =~= Seq::<Seq<char>>::empty());
                assert(out@ =~= seq!['@'] + join_c(tag_strs(tview.take(0)), ';'));
            }
            while i < self.tags.len()
                invariant
                    tview == self@.tags,
                    tview.len() == self.tags.len(),
                    i <= self.tags.len(),
                    out@ == seq!['@'] + join_c(tag_strs(tview.take(i as int)), ';'),
                decreases self.tags.len() - i,
            {
                let kv = &self.tags[i];
                if i > 0 {
                    out.append(";");
                }
                out.append(kv.0.as_str());
                out.append("=");
                out.append(kv.1.as_str());
                proof {
                    reveal_strlit(";");
                    reveal_strlit("=");
                    assert(tview[i as int] == kv_view(self.tags@[i as int]));
                    assert(kv.0@ == tview[i as int].0);
                    assert(kv.1@ == tview[i as int].1);
                    let xs = tag_strs(tview.take(i as int));
                    let x = tag_str(tview[i as int]);
                    assert(xs.len() == i as int);
                    lemma_join_push(xs, x, ';');
                    assert(tag_strs(tview.take(i as int + 1)) =~= xs.push(x));
                    if i == 0 {
                        assert(join_c(xs.push(x), ';') == x);
                        assert(out@ =~= seq!['@'] + x);
                    } else {
                        assert(join_c(xs.push(x), ';') == join_c(xs, ';') + seq![';'] + x);
                        assert(out@ =~= seq!['@'] + join_c(xs, ';') + seq![';'] + x);
                    }
                    assert(out@ =~= seq!['@'] + join_c(tag_strs(tview.take(i as int + 1)), ';'));
                }
                i += 1;
            }
            out.append(" ");
            proof {
                assert(tview.take(tview.len() as int) =~= tview);
                assert(out@ =~= tags_part(tview));
            }
        } else {
            proof {
                assert(out@ =~= tags_part(tview));
            }
        }
        match &self.prefix {
            Some(p) => {
                out.append(":");
                out.append(p.as_str());
                out.append(" ");
            },
            None => {},
        }
        proof {
            assert(out@ =~= tags_part(tview) + prefix_part(self@.prefix));
        }
        out.append(self.command.as_str());
        let ghost base = tags_part(tview) + prefix_part(self@.prefix) + self@.command;
        proof {
            assert(out@ =~= base);
        }
        let mut i: usize = 0;
        proof {
            assert(aview.take(0) =~= Seq::<Seq<char>>::empty());
            assert(args_str(Seq::<Seq<char>>::empty()) =~= Seq::<char>::empty());
            assert(out@ =~= base + args_str(aview.take(0)));
        }
        while i < self.args.len()
            invariant
                aview == self@.args,
                aview.len() == self.args.len(),
                i <= self.args.len(),
                out@ == base + args_str(aview.take(i as int)),
            decreases self.args.len() - i,
        {
            out.append(" ");
            out.append(self.args[i].as_str());
            proof {
                reveal_strlit(" ");
                assert(aview[i as int] == self.args@[i as int]@);
                let x = aview[i as int];
                lemma_args_str_add(aview.take(i as int), seq![x]);
                assert(aview.take(i as int + 1) =~= aview.take(i as int) + seq![x]);
                assert(seq![x].drop_first() =~= Seq::<Seq<char>>::empty());
                assert(args_str(Seq::<Seq<char>>::empty()) =~= Seq::<char>::empty());
                assert(args_str(seq![x]) =~= seq![' '] + x);
                assert(args_str(aview.take(i as int + 1)) == args_str(aview.take(i as int))
                    + args_str(seq![x]));
                assert(out@ =~= base + args_str(aview.take(i as int)) + seq![' '] + x);
                assert(out@ =~= base + args_str(aview.take(i as int + 1)));
            }
            i += 1;
        }
        proof {
            assert(aview.take(aview.len() as int) =~= aview);
        }
        if !self.trail.as_str().is_empty() {
            out.append(" :");
            out.append(self.trail.as_str());
        }
        proof {
            assert(out@ =~= spec_serialize(self@));
        }
        out
    }
}

/// The author of a message: the prefix up to the first `!` or `@`.
pub open spec fn author_of(m: MessageV) -> Seq<char> {
    match m.prefix {
        Some(p) => {
            let i = find_c(p, '!');
            let j = find_c(p, '@');
            p.take(if i <= j {
                i
            } else {
                j
            })
        },
        None => Seq::empty(),
    }
}

/// The deduplication signature of a message.
pub open spec fn spec_signature(m: MessageV) -> Seq<char> {
    author_of(m) + seq![' '] + (if m.args.len() > 0 {
        m.args[0]
    } else {
        Seq::empty()
    }) + seq![' '] + m.trail
}

/// Split a string slice at the first occurrence of `c`; the second part is
/// empty when `c` does not occur.
pub fn split_at_first<'a>(s: &'a str, c: char) -> (r: (&'a str, &'a str))
    ensures
        r.0@ == split_first(s@, c).0,
        r.1@ == split_first(s@, c).1,
{
    let len = s.unicode_len();
    let i = find_char(s, c);
    if i < len {
        (s.substring_char(0, i), s.substring_char(i + 1, len))
    } else {
        proof {
            reveal_strlit("");
        }
        (s, "")
    }
}

} // verus!
