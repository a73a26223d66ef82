//! Pairs of places of a sequence, in the order in which collisions and
//! conflicts are reported: by the earlier place, then by the later one.

use vstd::prelude::*;

verus! {

/// The pairs `(i, j)` with `i < j < end` for which `hit(i, j)` holds, by
/// rising `j`.
pub open spec fn pairs_in_row(hit: spec_fn(int, int) -> bool, i: int, end: int) -> Seq<(int, int)>
    decreases end - i,
{
    if end <= i + 1 {
        Seq::empty()
    } else {
        let rest = pairs_in_row(hit, i, end - 1);
        if hit(i, end - 1) {
            rest.push((i, end - 1))
        } else {
            rest
        }
    }
}

/// The pairs `(i, j)` with `i < rows` and `i < j < len` for which
/// `hit(i, j)` holds, by rising `i` and then by rising `j`.
pub open spec fn pairs_below(hit: spec_fn(int, int) -> bool, rows: int, len: int) -> Seq<(int, int)>
    decreases rows,
{
    if rows <= 0 {
        Seq::empty()
    } else {
        pairs_below(hit, rows - 1, len) + pairs_in_row(hit, rows - 1, len)
    }
}

/// A row holds exactly the hits of its `i`.
pub proof fn lemma_pairs_in_row(hit: spec_fn(int, int) -> bool, i: int, end: int)
    ensures
        forall|a: int, b: int|
            #[trigger] pairs_in_row(hit, i, end).contains((a, b)) <==> a == i && i < b < end
                && hit(a, b),
    decreases end - i,
{
    let all = pairs_in_row(hit, i, end);
    if end > i + 1 {
        lemma_pairs_in_row(hit, i, end - 1);
        let rest = pairs_in_row(hit, i, end - 1);
        assert forall|a: int, b: int|
            #[trigger] all.contains((a, b)) <==> a == i && i < b < end && hit(a, b) by {
            let p = (a, b);
            if all.contains(p) {
                let k = choose|k: int| 0 <= k < all.len() && all[k] == p;
                if k < rest.len() {
                    assert(rest[k] == p);
                    assert(rest.contains((a, b)));
                } else {
                    assert(hit(i, end - 1) && p == (i, end - 1));
                }
            }
            if a == i && i < b < end && hit(a, b) {
                if b == end - 1 {
                    assert(all[rest.len() as int] == p);
                } else {
                    assert(rest.contains((a, b)));
                    let k = choose|k: int| 0 <= k < rest.len() && rest[k] == p;
                    assert(all[k] == p);
                }
            }
        }
    } else {
        assert(all.len() == 0);
    }
}

/// The pairs below `rows` are exactly the hits with `i < rows`.
pub proof fn lemma_pairs_below(hit: spec_fn(int, int) -> bool, rows: int, len: int)
    ensures
        forall|a: int, b: int|
            #[trigger] pairs_below(hit, rows, len).contains((a, b)) <==> 0 <= a < rows && a < b
                < len && hit(a, b),
    decreases rows,
{
    let all = pairs_below(hit, rows, len);
    if rows > 0 {
        lemma_pairs_below(hit, rows - 1, len);
        lemma_pairs_in_row(hit, rows - 1, len);
        let head = pairs_below(hit, rows - 1, len);
        let row = pairs_in_row(hit, rows - 1, len);
        assert forall|a: int, b: int|
            #[trigger] all.contains((a, b)) <==> 0 <= a < rows && a < b < len && hit(a, b) by {
            let p = (a, b);
            if all.contains(p) {
                let k = choose|k: int| 0 <= k < all.len() && all[k] == p;
                if k < head.len() {
                    assert(head[k] == p);
                    assert(head.contains((a, b)));
                } else {
                    assert(row[k - head.len()] == p);
                    assert(row.contains((a, b)));
                }
            }
            if 0 <= a < rows && a < b < len && hit(a, b) {
                if a < rows - 1 {
                    assert(head.contains((a, b)));
                    let k = choose|k: int| 0 <= k < head.len() && head[k] == p;
                    assert(all[k] == p);
                } else {
                    assert(row.contains((a, b)));
                    let k = choose|k: int| 0 <= k < row.len() && row[k] == p;
                    assert(all[head.len() + k] == p);
                }
            }
        }
    } else {
        assert(all.len() == 0);
    }
}

} // verus!
