//! Positions in finite ranges that satisfy a predicate: the first one, and
//! all of them in order.
use vstd::prelude::*;

verus! {

/// The first position below `n` where `p` holds.
pub open spec fn first_where(n: nat, p: spec_fn(int) -> bool) -> Option<int>
    decreases n,
{
    if n == 0 {
        None
    } else {
        match first_where((n - 1) as nat, p) {
            Some(i) => Some(i),
            None => if p(n - 1) {
                Some(n - 1)
            } else {
                None
            },
        }
    }
}

/// The positions below `n` where `p` holds, in increasing order.
pub open spec fn indices_where(n: nat, p: spec_fn(int) -> bool) -> Seq<int>
    decreases n,
{
    if n == 0 {
        Seq::empty()
    } else {
        let prev = indices_where((n - 1) as nat, p);
        if p(n - 1) {
            prev.push(n - 1)
        } else {
            prev
        }
    }
}

pub proof fn lemma_first_where(n: nat, p: spec_fn(int) -> bool)
    ensures
        match first_where(n, p) {
            Some(i) => 0 <= i < n && p(i) && forall|k: int| 0 <= k < i ==> !#[trigger] p(k),
            None => forall|k: int| 0 <= k < n ==> !#[trigger] p(k),
        },
    decreases n,
{
    if n > 0 {
        lemma_first_where((n - 1) as nat, p);
    }
}

pub proof fn lemma_indices_where(n: nat, p: spec_fn(int) -> bool)
    ensures
        indices_where(n, p).len() <= n,
        forall|g: int|
            0 <= g < indices_where(n, p).len() ==> 0 <= #[trigger] indices_where(n, p)[g] < n && p(
                indices_where(n, p)[g],
            ),
        forall|g: int, h: int|
            0 <= g < h < indices_where(n, p).len() ==> #[trigger] indices_where(n, p)[g]
                < #[trigger] indices_where(n, p)[h],
        forall|k: int| 0 <= k < n && p(k) ==> #[trigger] indices_where(n, p).contains(k),
        (indices_where(n, p).len() == 0) == (first_where(n, p) is None),
        indices_where(n, p).len() > 0 ==> first_where(n, p) == Some(indices_where(n, p)[0]),
    decreases n,
{
    if n > 0 {
        let m = (n - 1) as nat;
        lemma_indices_where(m, p);
        let prev = indices_where(m, p);
        if p(n - 1) {
            let cur = prev.push(n - 1);
            assert forall|k: int| 0 <= k < n && p(k) implies #[trigger] cur.contains(k) by {
                if k < n - 1 {
                    assert(prev.contains(k));
                    let g = choose|g: int| 0 <= g < prev.len() && prev[g] == k;
                    assert(cur[g] == k);
                } else {
                    assert(cur[cur.len() - 1] == k);
                }
            }
        }
    }
}

/// One more step of [`first_where`]: where no earlier position satisfies `p`
/// and `i` does, `i` is the first.
pub proof fn lemma_first_where_step(i: nat, p: spec_fn(int) -> bool)
    requires
        first_where(i, p) is None,
    ensures
        p(i as int) ==> first_where(i + 1, p) == Some(i as int),
        !p(i as int) ==> first_where(i + 1, p) is None,
{
    assert(((i + 1) - 1) as nat == i);
}

/// One more step of [`indices_where`].
pub proof fn lemma_indices_where_step(i: nat, p: spec_fn(int) -> bool)
    ensures
        p(i as int) ==> indices_where(i + 1, p) == indices_where(i, p).push(i as int),
        !p(i as int) ==> indices_where(i + 1, p) == indices_where(i, p),
{
    assert(((i + 1) - 1) as nat == i);
}

/// Where no position before `i` satisfies `p` and `i` does, `i` is the
/// first below any `n` past it.
pub proof fn lemma_first_where_found(n: nat, i: nat, p: spec_fn(int) -> bool)
    requires
        i < n,
        first_where(i, p) is None,
        p(i as int),
    ensures
        first_where(n, p) == Some(i as int),
{
    lemma_first_where(i, p);
    lemma_first_where(n, p);
}

} // verus!
