//! Badge resolution and the per-channel badge cache.
//!
//! A raw badge tag is a comma-separated list of `class/rank` pairs.  Each
//! class maps to a constant glyph or, for `subscriber` and `bits`, to a
//! rank-dependent glyph found in an ordered threshold table: the glyph of
//! the last entry whose threshold is at or below the rank.

use vstd::prelude::*;

use crate::irc::split_first;
use crate::strmap::StrMap;
use crate::strutil::{find_char, parse_num, spec_parse_num, split_c, str_eq};

verus! {

/// Placeholder badge string for a channel whose user state has never been
/// seen, distinguishable from every resolved output.
pub fn badge_none() -> (r: &'static str)
    ensures
        r@ == "_ "@,
{
    "_ "
}

/// Thresholds and glyphs for subscriber badges, ascending.
pub open spec fn spec_subs_table() -> Seq<(nat, Seq<char>)> {
    seq![
        (0 as nat, "①"@),
        (3 as nat, "③"@),
        (6 as nat, "⑥"@),
        (9 as nat, "⑨"@),
        (12 as nat, "ⅰ"@),
        (24 as nat, "ⅱ"@),
        (36 as nat, "ⅲ"@),
        (48 as nat, "ⅳ"@),
        (60 as nat, "ⅴ"@),
        (72 as nat, "ⅵ"@),
        (84 as nat, "ⅶ"@),
        (96 as nat, "ⅷ"@),
        (108 as nat, "ⅸ"@),
        (120 as nat, "ⅹ"@),
        (132 as nat, "ⅺ"@),
        (144 as nat, "ⅻ"@),
    ]
}

/// Thresholds and glyphs for bits badges, ascending.
pub open spec fn spec_bits_table() -> Seq<(nat, Seq<char>)> {
    seq![
        (0 as nat, "▴"@),
        (100 as nat, "⬧"@),
        (1000 as nat, "⬠"@),
        (5000 as nat, "⬡"@),
        (10000 as nat, "🟋"@),
        (100000 as nat, "🟎"@),
    ]
}

/// Thresholds strictly ascend in table order.
pub open spec fn table_sorted(t: Seq<(nat, Seq<char>)>) -> bool {
    forall|i: int, j: int| 0 <= i < j < t.len() ==> (#[trigger] t[i]).0 < (#[trigger] t[j]).0
}

/// Both threshold tables are sorted ascending, the invariant the scan in
/// `spec_highest` relies on to pick the highest reached tier.
pub proof fn lemma_tables_sorted()
    ensures
        table_sorted(spec_subs_table()),
        table_sorted(spec_bits_table()),
{
}

/// Mathematical view of an executable threshold table.
pub open spec fn table_view(t: Seq<(usize, &str)>) -> Seq<(nat, Seq<char>)> {
    t.map_values(|e: (usize, &str)| (e.0 as nat, e.1@))
}

/// The glyph of the last table entry at or below `max`, scanning in table
/// order and stopping at the first entry above `max`.
pub open spec fn spec_highest(max: nat, table: Seq<(nat, Seq<char>)>) -> Option<Seq<char>>
    decreases table.len(),
{
    if table.len() == 0 {
        None
    } else if table[0].0 <= max {
        match spec_highest(max, table.drop_first()) {
            Some(g) => Some(g),
            None => Some(table[0].1),
        }
    } else {
        None
    }
}

/// The index, in table order, of the entry whose glyph `spec_highest`
/// yields; `-1` when it yields none.
pub open spec fn highest_idx(max: nat, table: Seq<(nat, Seq<char>)>) -> int
    decreases table.len(),
{
    if table.len() == 0 {
        -1
    } else if table[0].0 <= max {
        let d = highest_idx(max, table.drop_first());
        if d == -1 {
            0
        } else {
            d + 1
        }
    } else {
        -1
    }
}

/// `highest_idx` stays in bounds and names the entry `spec_highest` yields.
pub proof fn lemma_highest_is_idx(max: nat, table: Seq<(nat, Seq<char>)>)
    ensures
        -1 <= highest_idx(max, table) < table.len(),
        highest_idx(max, table) == -1 <==> spec_highest(max, table) is None,
        highest_idx(max, table) >= 0 ==> spec_highest(max, table) == Some(
            table[highest_idx(max, table)].1,
        ),
    decreases table.len(),
{
    if table.len() > 0 && table[0].0 <= max {
        lemma_highest_is_idx(max, table.drop_first());
    }
}

/// Threshold monotonicity: a higher rank never resolves to an earlier table
/// entry.  For any ranks `r1 <= r2`, the entry chosen for `r2` is at or
/// after the one chosen for `r1`, in table order.
pub proof fn lemma_threshold_monotonic(table: Seq<(nat, Seq<char>)>, r1: nat, r2: nat)
    requires
        r1 <= r2,
    ensures
        highest_idx(r1, table) <= highest_idx(r2, table),
    decreases table.len(),
{
    lemma_highest_is_idx(r1, table);
    lemma_highest_is_idx(r2, table);
    if table.len() > 0 && table[0].0 <= r1 {
        lemma_threshold_monotonic(table.drop_first(), r1, r2);
        lemma_highest_is_idx(r1, table.drop_first());
        lemma_highest_is_idx(r2, table.drop_first());
    }
}

/// The subscriber threshold table.
fn subs_table() -> (t: Vec<(usize, &'static str)>)
    ensures
        table_view(t@) == spec_subs_table(),
{
    let mut t: Vec<(usize, &'static str)> = Vec::new();
    t.push((0, "①"));
    t.push((3, "③"));
    t.push((6, "⑥"));
    t.push((9, "⑨"));
    t.push((12, "ⅰ"));
    t.push((24, "ⅱ"));
    t.push((36, "ⅲ"));
    t.push((48, "ⅳ"));
    t.push((60, "ⅴ"));
    t.push((72, "ⅵ"));
    t.push((84, "ⅶ"));
    t.push((96, "ⅷ"));
    t.push((108, "ⅸ"));
    t.push((120, "ⅹ"));
    t.push((132, "ⅺ"));
    t.push((144, "ⅻ"));
    proof {
        assert(table_view(t@) =~= spec_subs_table());
    }
    t
}

/// The bits threshold table.
fn bits_table() -> (t: Vec<(usize, &'static str)>)
    ensures
        table_view(t@) == spec_bits_table(),
{
    let mut t: Vec<(usize, &'static str)> = Vec::new();
    t.push((0, "▴"));
    t.push((100, "⬧"));
    t.push((1000, "⬠"));
    t.push((5000, "⬡"));
    t.push((10000, "🟋"));
    t.push((100000, "🟎"));
    proof {
        assert(table_view(t@) =~= spec_bits_table());
    }
    t
}

/// Scan a threshold table for the last entry at or below `max`.
pub fn highest(max: usize, table: &Vec<(usize, &'static str)>) -> (r: Option<&'static str>)
    ensures
        match r {
            Some(g) => spec_highest(max as nat, table_view(table@)) == Some(g@),
            None => spec_highest(max as nat, table_view(table@)) is None,
        },
{
    let ghost tv = table_view(table@);
    let mut out: Option<&'static str> = None;
    let mut i: usize = 0;
    #[verifier::loop_isolation(false)]
    while i < table.len()
        invariant
            i <= table.len(),
            forall|j: int| 0 <= j < i ==> (#[trigger] tv[j]).0 <= max as nat,
            match out {
                Some(g) => i > 0 && tv[i - 1].1 == g@,
                None => i == 0,
            },
        decreases table.len() - i,
    {
        let e = table[i];
        if e.0 <= max {
            out = Some(e.1);
        } else {
            proof {
                lemma_highest_prefix(max as nat, tv, i as int);
            }
            return out;
        }
        i += 1;
    }
    proof {
        lemma_highest_prefix(max as nat, tv, table@.len() as int);
    }
    out
}

/// When the first `i` entries qualify and entry `i` (if any) does not, the
/// scan yields the glyph of entry `i - 1`, or nothing when `i` is 0.
proof fn lemma_highest_prefix(max: nat, table: Seq<(nat, Seq<char>)>, i: int)
    requires
        0 <= i <= table.len(),
        forall|j: int| 0 <= j < i ==> (#[trigger] table[j]).0 <= max,
        i < table.len() ==> table[i].0 > max,
    ensures
        spec_highest(max, table) == if i == 0 {
            Option::<Seq<char>>::None
        } else {
            Option::<Seq<char>>::Some(table[i - 1].1)
        },
    decreases table.len(),
{
    if i > 0 {
        assert(table[0].0 <= max);
        lemma_highest_prefix(max, table.drop_first(), i - 1);
    }
}

/// The glyph for one badge class at one rank, or nothing for an unknown
/// class or an unreached threshold.
pub open spec fn spec_get_badge(class: Seq<char>, rank: Seq<char>) -> Option<Seq<char>> {
    if class == "broadcaster"@ {
        Some("🜲"@)
    } else if class == "staff"@ {
        Some("🜨"@)
    } else if class == "admin"@ {
        Some("🜶"@)
    } else if class == "moderator"@ {
        Some("🗡"@)
    } else if class == "subscriber"@ {
        spec_highest(spec_parse_num(rank), spec_subs_table())
    } else if class == "vip"@ {
        Some("⚑"@)
    } else if class == "founder"@ {
        Some("ⲷ"@)
    } else if class == "sub-gift-leader"@ {
        Some("⁘"@)
    } else if class == "sub-gifter"@ {
        Some(":"@)
    } else if class == "bits-leader"@ {
        Some("❖"@)
    } else if class == "bits"@ {
        spec_highest(spec_parse_num(rank), spec_bits_table())
    } else if class == "partner"@ {
        Some("✓"@)
    } else if class == "turbo"@ {
        Some("+"@)
    } else if class == "premium"@ {
        Some("±"@)
    } else {
        None
    }
}

/// Resolve one badge class and rank to a glyph.
pub fn get_badge(class: &str, rank: &str) -> (r: Option<&'static str>)
    ensures
        match r {
            Some(g) => spec_get_badge(class@, rank@) == Some(g@),
            None => spec_get_badge(class@, rank@) is None,
        },
{
    if str_eq(class, "broadcaster") {
        Some("🜲")
    } else if str_eq(class, "staff") {
        Some("🜨")
    } else if str_eq(class, "admin") {
        Some("🜶")
    } else if str_eq(class, "moderator") {
        Some("🗡")
    } else if str_eq(class, "subscriber") {
        highest(parse_num(rank), &subs_table())
    } else if str_eq(class, "vip") {
        Some("⚑")
    } else if str_eq(class, "founder") {
        Some("ⲷ")
    } else if str_eq(class, "sub-gift-leader") {
        Some("⁘")
    } else if str_eq(class, "sub-gifter") {
        Some(":")
    } else if str_eq(class, "bits-leader") {
        Some("❖")
    } else if str_eq(class, "bits") {
        highest(parse_num(rank), &bits_table())
    } else if str_eq(class, "partner") {
        Some("✓")
    } else if str_eq(class, "turbo") {
        Some("+")
    } else if str_eq(class, "premium") {
        Some("±")
    } else {
        None
    }
}

/// The concatenated glyphs of a list of `class/rank` pairs, in input order.
pub open spec fn spec_resolve_pairs(pairs: Seq<Seq<char>>) -> Seq<char>
    decreases pairs.len(),
{
    if pairs.len() == 0 {
        Seq::empty()
    } else {
        let (class, rank) = split_first(pairs[0], '/');
        (match spec_get_badge(class, rank) {
            Some(g) => g,
            None => Seq::empty(),
        }) + spec_resolve_pairs(pairs.drop_first())
    }
}

/// The resolved glyph string for a raw badge tag value: every pair's glyph
/// in input order, with one trailing space when any glyph resolved.
pub open spec fn spec_resolve(input: Seq<char>) -> Seq<char> {
    let body = spec_resolve_pairs(split_c(input, ','));
    if body.len() > 0 {
        body + seq![' ']
    } else {
        body
    }
}

/// Resolve the pairs of a badge list, appending the glyphs to `out`.
fn resolve_pairs(s: &str, out: &mut String)
    ensures
        final(out)@ == old(out)@ + spec_resolve_pairs(split_c(s@, ',')),
    decreases s@.len(),
{
    let len = s.unicode_len();
    let i = find_char(s, ',');
    if i == len {
        let (class, rank) = crate::irc::split_at_first(s, '/');
        match get_badge(class, rank) {
            Some(g) => out.append(g),
            None => {},
        }
        proof {
            assert(split_c(s@, ',') =~= seq![s@]);
            assert(seq![s@].drop_first() =~= Seq::<Seq<char>>::empty());
            assert(spec_resolve_pairs(Seq::<Seq<char>>::empty()) == Seq::<char>::empty());
            assert(out@ =~= old(out)@ + spec_resolve_pairs(seq![s@]));
        }
    } else {
        let piece = s.substring_char(0, i);
        let (class, rank) = crate::irc::split_at_first(piece, '/');
        match get_badge(class, rank) {
            Some(g) => out.append(g),
            None => {},
        }
        let rest = s.substring_char(i + 1, len);
        resolve_pairs(rest, out);
        proof {
            assert(split_c(s@, ',') =~= seq![s@.take(i as int)] + split_c(
                s@.skip(i as int + 1),
                ',',
            ));
            assert(split_c(s@, ',').drop_first() =~= split_c(s@.skip(i as int + 1), ','));
            assert(out@ =~= old(out)@ + spec_resolve_pairs(split_c(s@, ',')));
        }
    }
}

/// The memoized input and output of one badge resolution.
pub struct Badges {
    input: String,
    pub output: String,
}

impl View for Badges {
    type V = (Seq<char>, Seq<char>);

    closed spec fn view(&self) -> (Seq<char>, Seq<char>) {
        (self.input@, self.output@)
    }
}

impl Badges {
    /// Resolve a raw badge tag value, keeping the input alongside the
    /// output.
    pub fn new(input: &str) -> (b: Badges)
        ensures
            b@.0 == input@,
            b@.1 == spec_resolve(input@),
    {
        let mut output = String::new();
        resolve_pairs(input, &mut output);
        if output.as_str().unicode_len() > 0 {
            output.append(" ");
            proof {
                reveal_strlit(" ");
                assert(output@ =~= spec_resolve(input@));
            }
        }
        Badges { input: String::from_str(input), output }
    }
}

/// The per-channel badge cache: the badges of the user in each channel,
/// recomputed only when the raw input for that channel changes.
pub struct States {
    map: StrMap<Badges>,
    work: usize,
}

impl States {
    /// The cached (input, output) pair for a channel.
    pub closed spec fn badge_of(self, channel: Seq<char>) -> Option<(Seq<char>, Seq<char>)> {
        match self.map.spec_get(channel) {
            Some(b) => Some(b@),
            None => None,
        }
    }

    /// How many resolutions have been performed.
    pub closed spec fn spec_work(self) -> nat {
        self.work as nat
    }

    /// Keys are distinct and every cached output is the resolution of its
    /// input.
    pub closed spec fn wf(self) -> bool {
        &&& self.map.wf()
        &&& forall|k: Seq<char>|
            match #[trigger] self.map.spec_get(k) {
                Some(b) => b@.1 == spec_resolve(b@.0),
                None => true,
            }
    }

    /// The empty cache.
    pub fn new() -> (r: States)
        ensures
            r.wf(),
            forall|k: Seq<char>| r.badge_of(k) is None,
            r.spec_work() == 0,
    {
        States { map: StrMap::new(), work: 0 }
    }

    /// How many resolutions this cache has performed; memoization keeps it
    /// from growing when the input is unchanged.
    pub fn resolutions(&self) -> (r: usize)
        ensures
            r as nat == self.spec_work(),
    {
        self.work
    }

    /// The cached glyph string for a channel, or the placeholder when none
    /// has been stored.
    pub fn get(&self, channel: &str) -> (r: &str)
        ensures
            r@ == match self.badge_of(channel@) {
                Some(e) => e.1,
                None => "_ "@,
            },
    {
        match self.map.get(channel) {
            Some(b) => b.output.as_str(),
            None => badge_none(),
        }
    }

    /// Store the badges for a channel.  When the raw value equals the one
    /// already cached, nothing happens at all — in particular no resolution
    /// work is done.
    pub fn set(&mut self, channel: String, new: String)
        requires
            old(self).wf(),
        ensures
            final(self).wf(),
            match old(self).badge_of(channel@) {
                Some(e) => e.0 == new@,
                None => false,
            } ==> *final(self) == *old(self),
            !match old(self).badge_of(channel@) {
                Some(e) => e.0 == new@,
                None => false,
            } ==> {
                &&& final(self).badge_of(channel@) == Some((new@, spec_resolve(new@)))
                &&& forall|k: Seq<char>|
                    k != channel@ ==> final(self).badge_of(k) == old(self).badge_of(k)
                &&& final(self).spec_work() == if old(self).spec_work() < usize::MAX as nat {
                    old(self).spec_work() + 1
                } else {
                    old(self).spec_work()
                }
            },
    {
        let ghost ch = channel@;
        let hit = match self.map.get(channel.as_str()) {
            Some(b) => str_eq(b.input.as_str(), new.as_str()),
            None => false,
        };
        if !hit {
            let b = Badges::new(new.as_str());
            let ghost bv = b@;
            self.map.insert(channel, b);
            self.work = if self.work < usize::MAX {
                self.work + 1
            } else {
                self.work
            };
            proof {
                assert forall|k: Seq<char>|
                    match #[trigger] self.map.spec_get(k) {
                        Some(b2) => b2@.1 == spec_resolve(b2@.0),
                        None => true,
                    } by {
                    if k != ch {
                        assert(self.map.spec_get(k) == old(self).map.spec_get(k));
                    }
                }
            }
        }
    }
}

} // verus!
