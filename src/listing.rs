use vstd::prelude::*;
use crate::content::{lower_of, lowercase};
use crate::explorer::{Entry, SortMode};

verus! {

broadcast use vstd::seq_lib::group_to_multiset_ensures;

/// Whether a name is hidden: it starts with `.`.
pub open spec fn is_hidden_name(n: Seq<char>) -> bool {
    n.len() > 0 && n[0] == '.'
}

/// The entries a listing shows: all, or those with a name that is not hidden.
pub open spec fn shown_entries(es: Seq<Entry>, show_hidden: bool) -> Seq<Entry> {
    es.filter(|e: Entry| show_hidden || !is_hidden_name(e.name@))
}

/// Lexicographic order of texts by character code, a prefix first.
pub open spec fn lex_le(a: Seq<char>, b: Seq<char>) -> bool
    decreases a.len(),
{
    if a.len() == 0 {
        true
    } else if b.len() == 0 {
        false
    } else if (a[0] as u32) != (b[0] as u32) {
        (a[0] as u32) < (b[0] as u32)
    } else {
        lex_le(a.drop_first(), b.drop_first())
    }
}

pub proof fn lemma_lex_total(a: Seq<char>, b: Seq<char>)
    ensures
        lex_le(a, b) || lex_le(b, a),
    decreases a.len(),
{
    if a.len() > 0 && b.len() > 0 && (a[0] as u32) == (b[0] as u32) {
        lemma_lex_total(a.drop_first(), b.drop_first());
    }
}

/// A modification time as a number to compare; a time before the epoch
/// counts as oldest.
pub open spec fn time_key(t: Option<u64>) -> int {
    match t {
        Some(s) => s as int,
        None => -1,
    }
}

/// Whether `a` may be listed before `b`: directories first, then by
/// lower-case name, or newest first.
pub open spec fn goes_before(a: Entry, b: Entry, mode: SortMode) -> bool {
    if a.is_dir != b.is_dir {
        a.is_dir
    } else {
        match mode {
            SortMode::Name => lex_le(lower_of(a.name@), lower_of(b.name@)),
            SortMode::Date => time_key(a.modified) >= time_key(b.modified),
        }
    }
}

/// Each entry may be listed before the next.
pub open spec fn listed_in_order(es: Seq<Entry>, mode: SortMode) -> bool {
    forall|i: int| 0 <= i < es.len() - 1 ==> goes_before(#[trigger] es[i], es[i + 1], mode)
}

/// Neither entry goes strictly before the other.
pub open spec fn ties(a: Entry, b: Entry, mode: SortMode) -> bool {
    goes_before(a, b, mode) && goes_before(b, a, mode)
}

/// `idx` maps each position of `r` to a distinct position of `es` holding the
/// same entry, and entries of `r` that tie appear in the order of `es`.
pub open spec fn keeps_tie_order(r: Seq<Entry>, es: Seq<Entry>, idx: Seq<int>, mode: SortMode) -> bool {
    &&& idx.len() == r.len()
    &&& forall|k: int| 0 <= k < r.len() ==> 0 <= #[trigger] idx[k] < es.len() && es[idx[k]] == r[k]
    &&& forall|k: int, l: int| 0 <= k < l < r.len() ==> idx[k] != idx[l]
    &&& forall|k: int, l: int|
        0 <= k < l < r.len() && ties(r[k], r[l], mode) ==> idx[k] < idx[l]
}

/// Compares two texts as `lex_le` does.
pub fn text_le(a: &str, b: &str) -> (r: bool)
    ensures
        r == lex_le(a@, b@),
{
    let n = a.unicode_len();
    let m = b.unicode_len();
    let mut i: usize = 0;
    proof {
        assert(a@.subrange(0, n as int) =~= a@);
        assert(b@.subrange(0, m as int) =~= b@);
    }
    loop
        invariant
            i <= n == a@.len(),
            i <= m == b@.len(),
            lex_le(a@, b@) == lex_le(a@.subrange(i as int, n as int), b@.subrange(i as int, m as int)),
        decreases n - i,
    {
        let ghost sa = a@.subrange(i as int, n as int);
        let ghost sb = b@.subrange(i as int, m as int);
        if i == n {
            return true;
        }
        if i == m {
            return false;
        }
        let c = a.get_char(i);
        let d = b.get_char(i);
        if (c as u32) != (d as u32) {
            proof {
                assert(sa[0] == c && sb[0] == d);
            }
            return (c as u32) < (d as u32);
        }
        proof {
            assert(sa.drop_first() =~= a@.subrange(i + 1, n as int));
            assert(sb.drop_first() =~= b@.subrange(i + 1, m as int));
        }
        i = i + 1;
    }
}

fn newer_or_same(a: Option<u64>, b: Option<u64>) -> (r: bool)
    ensures
        r == (time_key(a) >= time_key(b)),
{
    match (a, b) {
        (Some(x), Some(y)) => x >= y,
        (Some(_), None) => true,
        (None, Some(_)) => false,
        (None, None) => true,
    }
}

fn precedes(a: &Entry, ka: &String, b: &Entry, kb: &String, mode: SortMode) -> (r: bool)
    requires
        ka@ == lower_of(a.name@),
        kb@ == lower_of(b.name@),
    ensures
        r == goes_before(*a, *b, mode),
{
    if a.is_dir != b.is_dir {
        a.is_dir
    } else {
        match mode {
            SortMode::Name => text_le(ka.as_str(), kb.as_str()),
            SortMode::Date => newer_or_same(a.modified, b.modified),
        }
    }
}

/// Puts a listing in the order the view shows it: entries with a hidden
/// name left out unless `show_hidden`, directories first, then by
/// lower-case name (`SortMode::Name`) or newest first (`SortMode::Date`).
/// Entries that tie keep the order they came in.
pub fn order_listing(entries: Vec<Entry>, show_hidden: bool, mode: SortMode) -> (r: Vec<Entry>)
    ensures
        r@.to_multiset() == shown_entries(entries@, show_hidden).to_multiset(),
        listed_in_order(r@, mode),
        exists|idx: Seq<int>| keeps_tie_order(r@, entries@, idx, mode),
{
    let ghost orig = entries@;
    let mut rest = entries;
    proof {
        assert(rest@ =~= orig.subrange(0, rest@.len() as int));
    }
    let mut out: Vec<Entry> = Vec::new();
    let mut keys: Vec<String> = Vec::new();
    let ghost mut idx: Seq<int> = Seq::empty();
    while rest.len() > 0
        invariant
            keeps_tie_order(out@, orig, idx, mode),
            forall|k: int| 0 <= k < idx.len() ==> #[trigger] idx[k] >= rest@.len(),
            rest@.len() <= orig.len(),
            rest@ == orig.subrange(0, rest@.len() as int),
            keys.len() == out.len(),
            forall|k: int| 0 <= k < out.len() ==> (#[trigger] keys@[k])@ == lower_of(out@[k].name@),
            out@.to_multiset().add(shown_entries(rest@, show_hidden).to_multiset())
                == shown_entries(orig, show_hidden).to_multiset(),
            listed_in_order(out@, mode),
        decreases rest.len(),
    {
        let ghost before = rest@;
        let e = match rest.pop() {
            Some(e) => e,
            None => {
                return out;
            },
        };
        proof {
            assert(rest@ == before.drop_last());
            assert(before.last() == e);
            assert(rest@ =~= orig.subrange(0, rest@.len() as int));
            reveal(Seq::filter);
        }
        let hidden = e.name.as_str().unicode_len() > 0 && e.name.as_str().get_char(0) == '.';
        if show_hidden || !hidden {
            let key = lowercase(e.name.as_str());
            let mut p: usize = 0;
            while p < out.len() && !precedes(&e, &key, &out[p], &keys[p], mode)
                invariant
                    p <= out.len(),
                    keys.len() == out.len(),
                    key@ == lower_of(e.name@),
                    forall|k: int| 0 <= k < out.len() ==> (#[trigger] keys@[k])@ == lower_of(out@[k].name@),
                    forall|k: int| 0 <= k < p ==> !goes_before(e, #[trigger] out@[k], mode),
                decreases out.len() - p,
            {
                p = p + 1;
            }
            let ghost old_out = out@;
            proof {
                if p > 0 {
                    assert(!goes_before(e, old_out[p - 1], mode));
                    if e.is_dir == old_out[p - 1].is_dir && mode == SortMode::Name {
                        lemma_lex_total(lower_of(e.name@), lower_of(old_out[p - 1].name@));
                    }
                    assert(goes_before(old_out[p - 1], e, mode));
                }
            }
            let ghost old_idx = idx;
            let ghost n = rest@.len() as int;
            out.insert(p, e);
            keys.insert(p, key);
            proof {
                idx = old_idx.insert(p as int, n);
                assert(orig[n] == e);
                assert forall|k: int| 0 <= k < out.len() implies 0 <= #[trigger] idx[k] < orig.len()
                    && orig[idx[k]] == out@[k] by {
                    if k > p {
                        assert(idx[k] == old_idx[k - 1]);
                        assert(out@[k] == old_out[k - 1]);
                    } else if k < p {
                        assert(idx[k] == old_idx[k]);
                    }
                }
                assert forall|k: int| 0 <= k < idx.len() implies #[trigger] idx[k] >= rest@.len() by {
                    if k > p {
                        assert(idx[k] == old_idx[k - 1]);
                    } else if k < p {
                        assert(idx[k] == old_idx[k]);
                    }
                }
                assert forall|k: int, l: int| 0 <= k < l < out.len() implies idx[k] != idx[l] by {
                    if k != p && l != p {
                        let k0 = if k < p { k } else { k - 1 };
                        let l0 = if l < p { l } else { l - 1 };
                        assert(idx[k] == old_idx[k0] && idx[l] == old_idx[l0]);
                    } else if k == p {
                        assert(idx[l] == old_idx[l - 1]);
                    } else {
                        assert(idx[k] == old_idx[k]);
                    }
                }
                assert forall|k: int, l: int| 0 <= k < l < out.len() && ties(out@[k], out@[l], mode)
                    implies idx[k] < idx[l] by {
                    if k != p && l != p {
                        let k0 = if k < p { k } else { k - 1 };
                        let l0 = if l < p { l } else { l - 1 };
                        assert(idx[k] == old_idx[k0] && idx[l] == old_idx[l0]);
                        assert(out@[k] == old_out[k0] && out@[l] == old_out[l0]);
                    } else if k == p {
                        assert(idx[l] == old_idx[l - 1]);
                    } else {
                        assert(out@[k] == old_out[k]);
                        assert(!goes_before(e, old_out[k], mode));
                    }
                }
                assert forall|k: int| 0 <= k < out.len() - 1 implies goes_before(
                    #[trigger] out@[k],
                    out@[k + 1],
                    mode,
                ) by {
                    if k < p as int - 1 {
                        assert(out@[k] == old_out[k] && out@[k + 1] == old_out[k + 1]);
                    } else if k > p as int {
                        assert(out@[k] == old_out[k - 1] && out@[k + 1] == old_out[k]);
                    }
                }
                assert forall|k: int| 0 <= k < out.len() implies (#[trigger] keys@[k])@ == lower_of(
                    out@[k].name@,
                ) by {
                    if k < p {
                    } else if k > p {
                        assert(out@[k] == old_out[k - 1]);
                    }
                }
                assert(shown_entries(before, show_hidden) == shown_entries(rest@, show_hidden).push(e));
            }
        } else {
            proof {
                assert(shown_entries(before, show_hidden) == shown_entries(rest@, show_hidden));
            }
        }
    }
    proof {
        assert(keeps_tie_order(out@, orig, idx, mode));
        assert(rest@ =~= Seq::<Entry>::empty());
        assert(shown_entries(rest@, show_hidden) =~= Seq::<Entry>::empty());
        assert(out@.to_multiset().add(vstd::multiset::Multiset::<Entry>::empty()) =~= out@.to_multiset());
    }
    out
}

} // verus!
