//! Small verified string utilities shared by the parser, the badge resolver
//! and the classifier: character search, splitting and joining, decimal
//! parsing and formatting, and slice equality.

use vstd::prelude::*;

verus! {

/// Index of the first occurrence of `c` in `s`, or `s.len()` if absent.
pub open spec fn find_c(s: Seq<char>, c: char) -> int
    decreases s.len(),
{
    if s.len() == 0 {
        0
    } else if s[0] == c {
        0
    } else {
        1 + find_c(s.drop_first(), c)
    }
}

/// `find_c` returns the position of the first occurrence, within bounds.
pub proof fn lemma_find_c(s: Seq<char>, c: char)
    ensures
        0 <= find_c(s, c) <= s.len(),
        forall|j: int| 0 <= j < find_c(s, c) ==> s[j] != c,
        find_c(s, c) < s.len() ==> s[find_c(s, c)] == c,
        find_c(s, c) == s.len() ==> !s.contains(c),
    decreases s.len(),
{
    if s.len() > 0 && s[0] != c {
        lemma_find_c(s.drop_first(), c);
        let f = find_c(s, c);
        assert forall|j: int| 0 <= j < f implies s[j] != c by {
            if j > 0 {
                assert(s.drop_first()[j - 1] != c);
            }
        }
        if f == s.len() {
            assert forall|j: int| 0 <= j < s.len() implies s[j] != c by {}
            assert(!s.contains(c));
        }
    } else {
        if s.len() == 0 {
            assert(!s.contains(c));
        }
    }
}

/// A position that carries the first-occurrence properties is `find_c`.
pub proof fn lemma_find_c_is(s: Seq<char>, c: char, i: int)
    requires
        0 <= i <= s.len(),
        forall|j: int| 0 <= j < i ==> s[j] != c,
        i < s.len() ==> s[i] == c,
    ensures
        find_c(s, c) == i,
{
    lemma_find_c(s, c);
    let f = find_c(s, c);
    if f < i {
        assert(s[f] == c);
        assert(false);
    }
    if i < f {
        assert(s[i] != c);
        assert(false);
    }
}

/// Split `s` on every occurrence of `c`; empty pieces are kept, so the
/// result always has one more piece than `s` has occurrences of `c`.
pub open spec fn split_c(s: Seq<char>, c: char) -> Seq<Seq<char>>
    decreases s.len(),
    via split_c_dec
{
    let i = find_c(s, c);
    if i == s.len() {
        seq![s]
    } else {
        seq![s.take(i)] + split_c(s.skip(i + 1), c)
    }
}

#[via_fn]
proof fn split_c_dec(s: Seq<char>, c: char) {
    lemma_find_c(s, c);
}

/// Join pieces with a single `c` between each two.
pub open spec fn join_c(xs: Seq<Seq<char>>, c: char) -> Seq<char>
    decreases xs.len(),
{
    if xs.len() == 0 {
        Seq::empty()
    } else if xs.len() == 1 {
        xs[0]
    } else {
        xs[0] + seq![c] + join_c(xs.drop_first(), c)
    }
}

/// Joining pieces that do not contain the separator yields no new separator
/// occurrences beyond those inserted, so the join contains `d` only if some
/// piece does or `d` is the separator.
pub proof fn lemma_join_no_char(xs: Seq<Seq<char>>, c: char, d: char)
    requires
        d != c,
        forall|i: int| 0 <= i < xs.len() ==> !(#[trigger] xs[i]).contains(d),
    ensures
        !join_c(xs, c).contains(d),
    decreases xs.len(),
{
    if xs.len() == 0 {
    } else if xs.len() == 1 {
        assert(!xs[0].contains(d));
    } else {
        lemma_join_no_char(xs.drop_first(), c, d);
        let j = join_c(xs, c);
        assert(!xs[0].contains(d));
        assert forall|k: int| 0 <= k < j.len() implies j[k] != d by {
            if k < xs[0].len() {
                assert(xs[0][k] != d);
            } else if k == xs[0].len() {
            } else {
                assert(join_c(xs.drop_first(), c)[k - xs[0].len() - 1] != d);
            }
        }
    }
}

/// `split_c` is the inverse of `join_c` on nonempty piece lists whose pieces
/// are free of the separator.
pub proof fn lemma_split_join(xs: Seq<Seq<char>>, c: char)
    requires
        xs.len() > 0,
        forall|i: int| 0 <= i < xs.len() ==> !(#[trigger] xs[i]).contains(c),
    ensures
        split_c(join_c(xs, c), c) == xs,
    decreases xs.len(),
{
    let j = join_c(xs, c);
    if xs.len() == 1 {
        assert(!xs[0].contains(c));
        assert forall|k: int| 0 <= k < j.len() implies j[k] != c by {
            assert(xs[0][k] != c);
        }
        lemma_find_c_is(j, c, j.len() as int);
        assert(split_c(j, c) =~= xs);
    } else {
        let rest = join_c(xs.drop_first(), c);
        assert(j =~= xs[0] + seq![c] + rest);
        assert forall|k: int| 0 <= k < xs[0].len() implies j[k] != c by {
            assert(xs[0][k] != c);
        }
        assert(j[xs[0].len() as int] == c);
        lemma_find_c_is(j, c, xs[0].len() as int);
        let i = find_c(j, c);
        assert(j.take(i) =~= xs[0]);
        assert(j.skip(i + 1) =~= rest);
        lemma_split_join(xs.drop_first(), c);
        assert(split_c(j, c) =~= seq![xs[0]] + xs.drop_first());
        assert(seq![xs[0]] + xs.drop_first() =~= xs);
    }
}

/// Index of the first occurrence of `c` in `s` at or after position 0,
/// computed by a scan.
pub fn find_char(s: &str, c: char) -> (r: usize)
    ensures
        r as int == find_c(s@, c),
        r <= s@.len(),
{
    let len = s.unicode_len();
    let mut i: usize = 0;
    while i < len
        invariant
            len == s@.len(),
            i <= len,
            forall|j: int| 0 <= j < i ==> s@[j] != c,
        decreases len - i,
    {
        if s.get_char(i) == c {
            proof {
                lemma_find_c_is(s@, c, i as int);
            }
            return i;
        }
        i += 1;
    }
    proof {
        lemma_find_c_is(s@, c, len as int);
    }
    len
}

/// Whether `c` is an ASCII decimal digit.
pub open spec fn is_digit(c: char) -> bool {
    48 <= c as u32 <= 57
}

/// Numeric value of a digit character.
pub open spec fn digit_val(c: char) -> nat {
    (c as u32 - 48) as nat
}

/// Whether every character of `s` is a decimal digit.
pub open spec fn all_digits(s: Seq<char>) -> bool {
    forall|i: int| 0 <= i < s.len() ==> is_digit(#[trigger] s[i])
}

/// Value of a digit string read in base 10.
pub open spec fn digits_val(s: Seq<char>) -> nat
    decreases s.len(),
{
    if s.len() == 0 {
        0
    } else {
        digits_val(s.drop_last()) * 10 + digit_val(s.last())
    }
}

/// The value of a prefix of a digit string never exceeds the whole.
proof fn lemma_digits_val_prefix(s: Seq<char>, i: int)
    requires
        0 <= i <= s.len(),
    ensures
        digits_val(s.take(i)) <= digits_val(s),
    decreases s.len(),
{
    if i < s.len() {
        assert(s.drop_last().take(i) =~= s.take(i));
        lemma_digits_val_prefix(s.drop_last(), i);
        assert(digits_val(s) == digits_val(s.drop_last()) * 10 + digit_val(s.last()));
        assert(digits_val(s.drop_last()) <= digits_val(s.drop_last()) * 10) by (nonlinear_arith);
    } else {
        assert(s.take(i) =~= s);
    }
}

/// What a numeric tag value denotes: its base-10 value if it is a nonempty
/// digit string whose value fits in `usize`, and 0 otherwise.
pub open spec fn spec_parse_num(s: Seq<char>) -> nat {
    if s.len() > 0 && all_digits(s) && digits_val(s) <= usize::MAX as nat {
        digits_val(s)
    } else {
        0
    }
}

/// Parse a decimal number, defaulting to 0 on any failure or overflow.
pub fn parse_num(s: &str) -> (r: usize)
    ensures
        r as nat == spec_parse_num(s@),
{
    let len = s.unicode_len();
    if len == 0 {
        return 0;
    }
    let mut acc: usize = 0;
    let mut i: usize = 0;
    while i < len
        invariant
            len == s@.len(),
            0 < len,
            i <= len,
            acc as nat == digits_val(s@.take(i as int)),
            forall|j: int| 0 <= j < i ==> is_digit(#[trigger] s@[j]),
        decreases len - i,
    {
        let c = s.get_char(i);
        let cv = c as u32;
        if cv < 48 || cv > 57 {
            assert(!all_digits(s@));
            return 0;
        }
        let d: usize = (cv - 48) as usize;
        assert(s@.take(i + 1).drop_last() =~= s@.take(i as int));
        assert(s@.take(i + 1).last() == s@[i as int]);
        match acc.checked_mul(10) {
            Some(acc10) => {
                match acc10.checked_add(d) {
                    Some(next) => {
                        acc = next;
                    },
                    None => {
                        proof {
                            lemma_digits_val_prefix(s@, i + 1);
                        }
                        return 0;
                    },
                }
            },
            None => {
                proof {
                    lemma_digits_val_prefix(s@, i + 1);
                }
                return 0;
            },
        }
        i += 1;
    }
    assert(s@.take(len as int) =~= s@);
    acc
}

/// The digit character for a value below ten.
pub open spec fn digit_of(n: nat) -> char {
    if n == 0 {
        '0'
    } else if n == 1 {
        '1'
    } else if n == 2 {
        '2'
    } else if n == 3 {
        '3'
    } else if n == 4 {
        '4'
    } else if n == 5 {
        '5'
    } else if n == 6 {
        '6'
    } else if n == 7 {
        '7'
    } else if n == 8 {
        '8'
    } else {
        '9'
    }
}

/// Decimal rendering of a number, most significant digit first.
pub open spec fn dec_str(n: nat) -> Seq<char>
    decreases n,
{
    if n < 10 {
        seq![digit_of(n)]
    } else {
        dec_str(n / 10) + seq![digit_of(n % 10)]
    }
}

fn digit_str(d: usize) -> (r: &'static str)
    requires
        d < 10,
    ensures
        r@ == seq![digit_of(d as nat)],
{
    proof {
        reveal_strlit("0");
        reveal_strlit("1");
        reveal_strlit("2");
        reveal_strlit("3");
        reveal_strlit("4");
        reveal_strlit("5");
        reveal_strlit("6");
        reveal_strlit("7");
        reveal_strlit("8");
        reveal_strlit("9");
    }
    if d == 0 {
        "0"
    } else if d == 1 {
        "1"
    } else if d == 2 {
        "2"
    } else if d == 3 {
        "3"
    } else if d == 4 {
        "4"
    } else if d == 5 {
        "5"
    } else if d == 6 {
        "6"
    } else if d == 7 {
        "7"
    } else if d == 8 {
        "8"
    } else {
        "9"
    }
}

/// Append the decimal rendering of `n` to `out`.
pub fn push_dec(out: &mut String, n: usize)
    ensures
        final(out)@ == old(out)@ + dec_str(n as nat),
    decreases n,
{
    if n >= 10 {
        push_dec(out, n / 10);
        out.append(digit_str(n % 10));
        assert(out@ =~= old(out)@ + dec_str(n as nat));
    } else {
        out.append(digit_str(n));
    }
}

/// The decimal rendering of `n` as a fresh string.
pub fn num_to_string(n: usize) -> (r: String)
    ensures
        r@ == dec_str(n as nat),
{
    let mut out = String::new();
    push_dec(&mut out, n);
    assert(out@ =~= dec_str(n as nat));
    out
}

/// Character-for-character equality of two string slices.
pub fn str_eq(a: &str, b: &str) -> (r: bool)
    ensures
        r == (a@ == b@),
{
    let alen = a.unicode_len();
    let blen = b.unicode_len();
    if alen != blen {
        return false;
    }
    let mut i: usize = 0;
    while i < alen
        invariant
            alen == a@.len(),
            alen == b@.len(),
            i <= alen,
            forall|j: int| 0 <= j < i ==> a@[j] == b@[j],
        decreases alen - i,
    {
        if a.get_char(i) != b.get_char(i) {
            return false;
        }
        i += 1;
    }
    proof {
        assert(a@ =~= b@);
    }
    true
}

/// `s` without its leading spaces.
pub open spec fn drop_leading_sp(s: Seq<char>) -> Seq<char>
    decreases s.len(),
{
    if s.len() > 0 && s[0] == ' ' {
        drop_leading_sp(s.drop_first())
    } else {
        s
    }
}

/// `s` without its trailing spaces.
pub open spec fn drop_trailing_sp(s: Seq<char>) -> Seq<char>
    decreases s.len(),
{
    if s.len() > 0 && s.last() == ' ' {
        drop_trailing_sp(s.drop_last())
    } else {
        s
    }
}

/// `s` without leading and trailing spaces.
pub open spec fn trim_sp(s: Seq<char>) -> Seq<char> {
    drop_trailing_sp(drop_leading_sp(s))
}

proof fn lemma_drop_leading(s: Seq<char>, i: int)
    requires
        0 <= i <= s.len(),
        forall|j: int| 0 <= j < i ==> s[j] == ' ',
        i < s.len() ==> s[i] != ' ',
    ensures
        drop_leading_sp(s) == s.skip(i),
    decreases i,
{
    if i == 0 {
        assert(s.skip(0) =~= s);
    } else {
        lemma_drop_leading(s.drop_first(), i - 1);
        assert(s.drop_first().skip(i - 1) =~= s.skip(i));
    }
}

proof fn lemma_drop_trailing(s: Seq<char>, j: int)
    requires
        0 <= j <= s.len(),
        forall|k: int| j <= k < s.len() ==> s[k] == ' ',
        j > 0 ==> s[j - 1] != ' ',
    ensures
        drop_trailing_sp(s) == s.take(j),
    decreases s.len() - j,
{
    if j == s.len() {
        assert(s.take(j) =~= s);
        if s.len() > 0 && s.last() == ' ' {
            assert(s[j - 1] != ' ');
            assert(false);
        }
    } else {
        assert(s.last() == ' ');
        lemma_drop_trailing(s.drop_last(), j);
        assert(s.drop_last().take(j) =~= s.take(j));
    }
}

/// Strip leading and trailing spaces.
pub fn trim_spaces(s: &str) -> (r: &str)
    ensures
        r@ == trim_sp(s@),
{
    let len = s.unicode_len();
    let mut i: usize = 0;
    while i < len && s.get_char(i) == ' '
        invariant
            len == s@.len(),
            i <= len,
            forall|j: int| 0 <= j < i ==> s@[j] == ' ',
        decreases len - i,
    {
        i += 1;
    }
    proof {
        lemma_drop_leading(s@, i as int);
    }
    let mut j: usize = len;
    while j > i && s.get_char(j - 1) == ' '
        invariant
            len == s@.len(),
            i <= j <= len,
            forall|k: int| j <= k < len ==> s@[k] == ' ',
        decreases j,
    {
        j -= 1;
    }
    let r = s.substring_char(i, j);
    proof {
        let lead = s@.skip(i as int);
        lemma_drop_trailing(lead, j - i);
        assert(lead.take(j - i) =~= s@.subrange(i as int, j as int));
    }
    r
}

/// Whether `s@` begins with `p@`.
pub open spec fn starts_with(s: Seq<char>, p: Seq<char>) -> bool {
    p.len() <= s.len() && s.take(p.len() as int) == p
}

/// Prefix test on string slices.
pub fn str_starts_with(s: &str, p: &str) -> (r: bool)
    ensures
        r == starts_with(s@, p@),
{
    let plen = p.unicode_len();
    let slen = s.unicode_len();
    if plen > slen {
        return false;
    }
    let mut i: usize = 0;
    while i < plen
        invariant
            plen == p@.len(),
            slen == s@.len(),
            plen <= slen,
            i <= plen,
            forall|j: int| 0 <= j < i ==> s@[j] == p@[j],
        decreases plen - i,
    {
        if s.get_char(i) != p.get_char(i) {
            assert(s@.take(plen as int)[i as int] != p@[i as int]);
            return false;
        }
        i += 1;
    }
    proof {
        assert(s@.take(plen as int) =~= p@);
    }
    true
}

} // verus!
