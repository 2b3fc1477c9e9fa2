use vstd::prelude::*;

use crate::text::{chars_of, contains_str, find_char_in, starts_with, starts_with_str, contains_seq};

verus! {

/// The sysfs directory of DRM connectors.
pub const DRM_DIR: &'static str = "/sys/class/drm/";

/// A sysfs DRM entry: its name and the length of its `edid` file, `None`
/// when that file cannot be read.
pub struct ConnectorEntry {
    pub name: String,
    pub edid_len: Option<usize>,
}

/// The path of a connector's EDID file.
pub open spec fn edid_path_spec(name: Seq<char>) -> Seq<char> {
    DRM_DIR@ + name + "/edid"@
}

/// A connector (a `card…` entry with a `-` in its name) whose EDID holds at
/// least one 128-byte block.
pub open spec fn qualifies(name: Seq<char>, edid_len: Option<usize>) -> bool {
    &&& starts_with(name, "card"@)
    &&& name.contains('-')
    &&& edid_len matches Some(l) && l >= 128
}

/// Lexicographic order of strings by code point (for UTF-8 the same order
/// as by bytes, which is how `String` compares).
pub open spec fn lex_lt(a: Seq<char>, b: Seq<char>) -> bool
    decreases a.len(),
{
    if a.len() == 0 {
        b.len() > 0
    } else if b.len() == 0 {
        false
    } else if a[0] == b[0] {
        lex_lt(a.drop_first(), b.drop_first())
    } else {
        a[0] < b[0]
    }
}

/// The order of `(String, String)` pairs: first component, then second.
pub open spec fn pair_lt(p: (Seq<char>, Seq<char>), q: (Seq<char>, Seq<char>)) -> bool {
    lex_lt(p.0, q.0) || (p.0 == q.0 && lex_lt(p.1, q.1))
}

/// The `(edid path, name)` pair of an entry.
pub open spec fn candidate(e: ConnectorEntry) -> (Seq<char>, Seq<char>) {
    (edid_path_spec(e.name@), e.name@)
}

pub open spec fn entry_qualifies(e: ConnectorEntry) -> bool {
    qualifies(e.name@, e.edid_len)
}

/// Some qualifying entry has candidate pair `x`.
pub open spec fn has_candidate(entries: Seq<ConnectorEntry>, x: (Seq<char>, Seq<char>)) -> bool {
    exists|i: int| 0 <= i < entries.len() && entry_qualifies(entries[i]) && candidate(entries[i]) == x
}

/// `p` is the least candidate pair of the qualifying entries.
pub open spec fn is_selection(entries: Seq<ConnectorEntry>, p: (Seq<char>, Seq<char>)) -> bool {
    &&& exists|i: int| 0 <= i < entries.len() && entry_qualifies(entries[i]) && candidate(entries[i]) == p
    &&& forall|j: int|
        0 <= j < entries.len() && entry_qualifies(#[trigger] entries[j]) ==> !pair_lt(
            candidate(entries[j]),
            p,
        )
}

/// `lex_lt` is the order of `String`: at the first position where two
/// strings differ, the one with the smaller character comes first.
pub proof fn lemma_lex_first_difference(a: Seq<char>, b: Seq<char>, i: int)
    requires
        0 <= i < a.len(),
        i < b.len(),
        a.take(i) == b.take(i),
        a[i] != b[i],
    ensures
        lex_lt(a, b) <==> a[i] < b[i],
    decreases i,
{
    if i > 0 {
        assert(a[0] == a.take(i)[0]);
        assert(b[0] == b.take(i)[0]);
        assert(a.drop_first().take(i - 1) =~= a.take(i).drop_first());
        assert(b.drop_first().take(i - 1) =~= b.take(i).drop_first());
        lemma_lex_first_difference(a.drop_first(), b.drop_first(), i - 1);
    }
}

/// A proper prefix comes first.
pub proof fn lemma_lex_prefix(a: Seq<char>, b: Seq<char>)
    requires
        a.len() < b.len(),
        b.take(a.len() as int) == a,
    ensures
        lex_lt(a, b),
        !lex_lt(b, a),
    decreases a.len(),
{
    if a.len() > 0 {
        assert(a[0] == b.take(a.len() as int)[0]);
        assert(b.drop_first().take(a.drop_first().len() as int) =~= a.drop_first());
        lemma_lex_prefix(a.drop_first(), b.drop_first());
    }
}

/// On single characters `lex_lt` is code-point order.
pub proof fn lemma_lex_single(x: char, y: char)
    ensures
        lex_lt(seq![x], seq![y]) <==> x < y,
{
    if x == y {
        lemma_lex_irreflexive(seq![x]);
    } else {
        assert(seq![x].take(0) =~= seq![y].take(0));
        lemma_lex_first_difference(seq![x], seq![y], 0);
    }
}

pub proof fn lemma_lex_irreflexive(a: Seq<char>)
    ensures
        !lex_lt(a, a),
    decreases a.len(),
{
    if a.len() > 0 {
        lemma_lex_irreflexive(a.drop_first());
    }
}

pub proof fn lemma_lex_total(a: Seq<char>, b: Seq<char>)
    ensures
        lex_lt(a, b) || lex_lt(b, a) || a == b,
    decreases a.len(),
{
    if a.len() > 0 && b.len() > 0 && a[0] == b[0] {
        lemma_lex_total(a.drop_first(), b.drop_first());
        if a.drop_first() == b.drop_first() {
            assert(a =~= seq![a[0]] + a.drop_first());
            assert(b =~= seq![b[0]] + b.drop_first());
        }
    } else if a.len() == 0 && b.len() == 0 {
        assert(a =~= b);
    }
}

pub proof fn lemma_lex_transitive(a: Seq<char>, b: Seq<char>, c: Seq<char>)
    requires
        lex_lt(a, b),
        lex_lt(b, c),
    ensures
        lex_lt(a, c),
    decreases a.len(),
{
    if a.len() > 0 && b.len() > 0 && c.len() > 0 && a[0] == b[0] && b[0] == c[0] {
        lemma_lex_transitive(a.drop_first(), b.drop_first(), c.drop_first());
    }
}

proof fn lemma_pair_total(p: (Seq<char>, Seq<char>), q: (Seq<char>, Seq<char>))
    ensures
        pair_lt(p, q) || pair_lt(q, p) || p == q,
{
    lemma_lex_total(p.0, q.0);
    lemma_lex_total(p.1, q.1);
}

proof fn lemma_pair_transitive(
    p: (Seq<char>, Seq<char>),
    q: (Seq<char>, Seq<char>),
    r: (Seq<char>, Seq<char>),
)
    requires
        pair_lt(p, q),
        pair_lt(q, r),
    ensures
        pair_lt(p, r),
{
    if lex_lt(p.0, q.0) && lex_lt(q.0, r.0) {
        lemma_lex_transitive(p.0, q.0, r.0);
    } else if lex_lt(p.1, q.1) && lex_lt(q.1, r.1) {
        lemma_lex_transitive(p.1, q.1, r.1);
    }
}

/// The chosen connector does not depend on the order of the directory
/// listing: two listings with the same qualifying candidates select the
/// same connector.
pub proof fn lemma_selection_order_independent(
    e1: Seq<ConnectorEntry>,
    e2: Seq<ConnectorEntry>,
    p: (Seq<char>, Seq<char>),
    q: (Seq<char>, Seq<char>),
)
    requires
        forall|x: (Seq<char>, Seq<char>)| #[trigger] has_candidate(e1, x) <==> has_candidate(e2, x),
        is_selection(e1, p),
        is_selection(e2, q),
    ensures
        p == q,
{
    assert(has_candidate(e1, p));
    assert(has_candidate(e2, q));
    assert(has_candidate(e1, q));
    assert(has_candidate(e2, p));
    let k1 = choose|k: int| 0 <= k < e1.len() && entry_qualifies(e1[k]) && candidate(e1[k]) == q;
    let k2 = choose|k: int| 0 <= k < e2.len() && entry_qualifies(e2[k]) && candidate(e2[k]) == p;
    assert(entry_qualifies(e1[k1]));
    assert(entry_qualifies(e2[k2]));
    lemma_pair_total(p, q);
}

/// Whether `a` comes before `b` in code-point order.
fn lex_less(a: &Vec<char>, b: &Vec<char>) -> (r: bool)
    ensures
        r == lex_lt(a@, b@),
{
    let mut i: usize = 0;
    assert(a@.skip(0) =~= a@);
    assert(b@.skip(0) =~= b@);
    while i < a.len() && i < b.len() && a[i] == b[i]
        invariant
            i <= a@.len(),
            i <= b@.len(),
            lex_lt(a@, b@) == lex_lt(a@.skip(i as int), b@.skip(i as int)),
        decreases a@.len() - i,
    {
        assert(a@.skip(i as int).drop_first() =~= a@.skip(i + 1));
        assert(b@.skip(i as int).drop_first() =~= b@.skip(i + 1));
        i = i + 1;
    }
    if i == a.len() {
        i < b.len()
    } else if i == b.len() {
        false
    } else {
        assert(a@.skip(i as int)[0] == a@[i as int]);
        assert(b@.skip(i as int)[0] == b@[i as int]);
        a[i] < b[i]
    }
}

fn same_chars(a: &Vec<char>, b: &Vec<char>) -> (r: bool)
    ensures
        r == (a@ == b@),
{
    if a.len() != b.len() {
        return false;
    }
    let mut i: usize = 0;
    while i < a.len()
        invariant
            a@.len() == b@.len(),
            i <= a@.len(),
            forall|j: int| 0 <= j < i ==> a@[j] == b@[j],
        decreases a@.len() - i,
    {
        if a[i] != b[i] {
            return false;
        }
        i = i + 1;
    }
    assert(a@ =~= b@);
    true
}

/// The path of a connector's EDID file, `/sys/class/drm/<name>/edid`.
pub fn edid_path(name: &str) -> (r: String)
    ensures
        r@ == edid_path_spec(name@),
{
    String::from_str(DRM_DIR).concat(name).concat("/edid")
}

/// Whether a sysfs entry is a connector with a usable EDID.
pub fn entry_is_connector(name: &str, edid_len: Option<usize>) -> (r: bool)
    ensures
        r == qualifies(name@, edid_len),
{
    let chars = chars_of(name);
    let has_dash = find_char_in(&chars, 0, chars.len(), '-') < chars.len();
    proof {
        assert(chars@.subrange(0, chars@.len() as int) =~= chars@);
        crate::text::lemma_find_char_contains(chars@, '-');
    }
    let long_enough = match edid_len {
        Some(l) => l >= 128,
        None => false,
    };
    starts_with_str(&chars, "card") && has_dash && long_enough
}

/// Picks the active connector: among the entries that are connectors with a
/// usable EDID, the least `(edid path, name)` pair, or `None` when there is
/// none.
pub fn select_connector(entries: &Vec<ConnectorEntry>) -> (r: Option<(String, String)>)
    ensures
        r is None <==> (forall|i: int| 0 <= i < entries@.len() ==> !entry_qualifies(#[trigger] entries@[i])),
        r matches Some(p) ==> is_selection(entries@, (p.0@, p.1@)),
{
    let mut best: Option<(String, String)> = None;
    let mut best_path: Vec<char> = Vec::new();
    let mut best_name: Vec<char> = Vec::new();
    let mut i: usize = 0;
    while i < entries.len()
        invariant
            i <= entries@.len(),
            best is None <==> (forall|k: int| 0 <= k < i ==> !entry_qualifies(#[trigger] entries@[k])),
            best matches Some(p) ==> {
                &&& p.0@ == best_path@
                &&& p.1@ == best_name@
                &&& exists|k: int| 0 <= k < i && entry_qualifies(entries@[k]) && candidate(entries@[k]) == (best_path@, best_name@)
                &&& forall|k: int| 0 <= k < i && entry_qualifies(#[trigger] entries@[k]) ==> !pair_lt(candidate(entries@[k]), (best_path@, best_name@))
            },
        decreases entries@.len() - i,
    {
        let e = &entries[i];
        if entry_is_connector(e.name.as_str(), e.edid_len) {
            let path = edid_path(e.name.as_str());
            let path_chars = chars_of(path.as_str());
            let name_chars = chars_of(e.name.as_str());
            let better = match &best {
                None => true,
                Some(_) => lex_less(&path_chars, &best_path) || (same_chars(&path_chars, &best_path) && lex_less(&name_chars, &best_name)),
            };
            if better {
                proof {
                    if best is Some {
                        assert forall|k: int| 0 <= k < i + 1 && entry_qualifies(#[trigger] entries@[k]) implies !pair_lt(candidate(entries@[k]), (path_chars@, name_chars@)) by {
                            if k < i && pair_lt(candidate(entries@[k]), (path_chars@, name_chars@)) {
                                lemma_pair_transitive(candidate(entries@[k]), (path_chars@, name_chars@), (best_path@, best_name@));
                            }
                            if k == i {
                                lemma_lex_irreflexive(path_chars@);
                                lemma_lex_irreflexive(name_chars@);
                            }
                        }
                    } else {
                        assert forall|k: int| 0 <= k < i + 1 && entry_qualifies(#[trigger] entries@[k]) implies !pair_lt(candidate(entries@[k]), (path_chars@, name_chars@)) by {
                            if k == i {
                                lemma_lex_irreflexive(path_chars@);
                                lemma_lex_irreflexive(name_chars@);
                            }
                        }
                    }
                    assert(candidate(entries@[i as int]) == (path_chars@, name_chars@));
                }
                best = Some((path, e.name.clone()));
                best_path = path_chars;
                best_name = name_chars;
            } else {
                proof {
                    assert(candidate(entries@[i as int]) == (path_chars@, name_chars@));
                    let ghost k0 = choose|k: int| 0 <= k < i && entry_qualifies(entries@[k]) && candidate(entries@[k]) == (best_path@, best_name@);
                    assert(0 <= k0 < i + 1 && entry_qualifies(entries@[k0]) && candidate(entries@[k0]) == (best_path@, best_name@));
                }
            }
        }
        i = i + 1;
    }
    best
}

/// Whether a connector is DisplayPort (its sysfs name holds `-DP-` or `-eDP-`).
pub fn is_dp_connector(dir: &str) -> (r: bool)
    ensures
        r == (contains_seq(dir@, "-DP-"@) || contains_seq(dir@, "-eDP-"@)),
{
    let chars = chars_of(dir);
    contains_str(&chars, "-DP-") || contains_str(&chars, "-eDP-")
}

} // verus!
