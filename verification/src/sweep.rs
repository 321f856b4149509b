//! Removal from a dense array: the marked elements go, the highest index
//! first, and the last element moves into each freed place.

use crate::coord2d::Coord2D;
use crate::exciton::ExcitonBiography;
use vstd::prelude::*;

verus! {

/// What is left of `s` when the element at `i` is replaced by the last one
/// and the last place is dropped.
pub open spec fn swap_removed<A>(s: Seq<A>, i: int) -> Seq<A>
    recommends
        0 <= i < s.len(),
{
    s.update(i, s.last()).drop_last()
}

/// What is left of `live` when the marked indices from `from` on have been
/// removed, the highest first, each by moving the last element into its
/// place.
pub open spec fn sweep<A>(live: Seq<A>, marked: Seq<bool>, from: int) -> Seq<A>
    decreases marked.len() - from,
{
    if from < 0 || from >= marked.len() {
        live
    } else {
        let later = sweep(live, marked, from + 1);
        if marked[from] {
            swap_removed(later, from)
        } else {
            later
        }
    }
}

/// The records of the marked excitons from `from` on, the highest index
/// first: each with its own time and position.
pub open spec fn obituaries(
    positions: Seq<Coord2D>,
    times: Seq<u64>,
    marked: Seq<bool>,
    radiative: bool,
    from: int,
) -> Seq<ExcitonBiography>
    decreases marked.len() - from,
{
    if from < 0 || from >= marked.len() {
        Seq::empty()
    } else {
        let later = obituaries(positions, times, marked, radiative, from + 1);
        if marked[from] {
            later.push(
                ExcitonBiography {
                    destroyed_at_s: times[from],
                    destroyed_at_position: positions[from],
                    decayed_radiatively: radiative,
                },
            )
        } else {
            later
        }
    }
}

/// A sweep from `from` on leaves the elements below `from` where they were.
pub proof fn sweep_keeps_prefix<A>(live: Seq<A>, marked: Seq<bool>, from: int)
    requires
        live.len() == marked.len(),
        0 <= from <= marked.len(),
    ensures
        from <= sweep(live, marked, from).len() <= live.len(),
        forall|k: int| 0 <= k < from ==> sweep(live, marked, from)[k] == live[k],
    decreases marked.len() - from,
{
    if from < marked.len() {
        sweep_keeps_prefix(live, marked, from + 1);
    }
}

/// A sweep leaves as many excitons as it leaves no record of.
pub proof fn sweep_balance(
    live: Seq<Coord2D>,
    times: Seq<u64>,
    marked: Seq<bool>,
    radiative: bool,
    from: int,
)
    requires
        live.len() == marked.len(),
        0 <= from <= marked.len(),
    ensures
        sweep(live, marked, from).len() + obituaries(live, times, marked, radiative, from).len()
            == live.len(),
    decreases marked.len() - from,
{
    if from < marked.len() {
        sweep_balance(live, times, marked, radiative, from + 1);
        sweep_keeps_prefix(live, marked, from + 1);
    }
}

/// The indices `0..n`, in order.
pub open spec fn indices(n: nat) -> Seq<int> {
    Seq::new(n, |k: int| k)
}

/// The indices that the excitons a sweep leaves had before it, in the order in
/// which it leaves them.
pub open spec fn survivor_indices(n: nat, marked: Seq<bool>) -> Seq<int> {
    sweep(indices(n), marked, 0)
}

/// A sweep of the indices from `from` on leaves indices of the population,
/// no two the same, and of those from `from` on only unmarked ones.
pub(crate) proof fn swept_indices(n: nat, marked: Seq<bool>, from: int)
    requires
        marked.len() == n,
        0 <= from <= n,
    ensures
        forall|k: int|
            0 <= k < sweep(indices(n), marked, from).len() ==> {
                let o = #[trigger] sweep(indices(n), marked, from)[k];
                0 <= o < n && (o >= from ==> !marked[o])
            },
        forall|x: int, y: int|
            0 <= x < y < sweep(indices(n), marked, from).len() ==> #[trigger] sweep(
                indices(n),
                marked,
                from,
            )[x] != #[trigger] sweep(indices(n), marked, from)[y],
    decreases n - from,
{
    if from < n {
        swept_indices(n, marked, from + 1);
        sweep_keeps_prefix(indices(n), marked, from + 1);
        let later = sweep(indices(n), marked, from + 1);
        let now = sweep(indices(n), marked, from);
        assert(indices(n)[from] == from);
        assert(later[from] == from);
        if marked[from] {
            assert(now == swap_removed(later, from));
            assert forall|k: int| 0 <= k < now.len() implies {
                let o = #[trigger] now[k];
                0 <= o < n && (o >= from ==> !marked[o])
            } by {
                if k == from {
                    assert(now[k] == later[later.len() - 1]);
                    assert(later[later.len() - 1] != later[from]);
                } else {
                    assert(now[k] == later[k]);
                    assert(later[k] != later[from]);
                }
            }
            assert forall|x: int, y: int| 0 <= x < y < now.len() implies #[trigger] now[x]
                != #[trigger] now[y] by {
                let lx = if x == from {
                    later.len() - 1
                } else {
                    x
                };
                let ly = if y == from {
                    later.len() - 1
                } else {
                    y
                };
                assert(now[x] == later[lx] && now[y] == later[ly]);
                assert(lx != ly);
                if lx < ly {
                    assert(later[lx] != later[ly]);
                } else {
                    assert(later[ly] != later[lx]);
                }
            }
        }
    }
}

/// A sweep moves each element as it moves the element's index.
pub proof fn sweep_follows_indices<A>(live: Seq<A>, marked: Seq<bool>, from: int)
    requires
        live.len() == marked.len(),
        0 <= from <= marked.len(),
    ensures
        sweep(live, marked, from).len() == sweep(indices(live.len()), marked, from).len(),
        forall|k: int|
            0 <= k < sweep(live, marked, from).len() ==> {
                let o = sweep(indices(live.len()), marked, from)[k];
                0 <= o < live.len() && #[trigger] sweep(live, marked, from)[k] == live[o]
            },
    decreases marked.len() - from,
{
    let n = live.len();
    if from < n {
        sweep_follows_indices(live, marked, from + 1);
        sweep_keeps_prefix(live, marked, from + 1);
        sweep_keeps_prefix(indices(n), marked, from + 1);
        swept_indices(n, marked, from);
        let later = sweep(live, marked, from + 1);
        let later_indices = sweep(indices(n), marked, from + 1);
        let now = sweep(live, marked, from);
        let now_indices = sweep(indices(n), marked, from);
        if marked[from] {
            assert forall|k: int| 0 <= k < now.len() implies {
                let o = now_indices[k];
                0 <= o < n && #[trigger] now[k] == live[o]
            } by {
                if k == from {
                    assert(now[k] == later[later.len() - 1]);
                    assert(now_indices[k] == later_indices[later.len() - 1]);
                } else {
                    assert(now[k] == later[k]);
                    assert(now_indices[k] == later_indices[k]);
                }
            }
        }
    } else {
        assert forall|k: int| 0 <= k < sweep(live, marked, from).len() implies {
            let o = sweep(indices(n), marked, from)[k];
            0 <= o < n && #[trigger] sweep(live, marked, from)[k] == live[o]
        } by {}
    }
}

/// Whether `origin` says where the excitons of `after` were in `before`:
/// each at an index of its own.
pub open spec fn traces<A>(before: Seq<A>, after: Seq<A>, origin: Seq<int>) -> bool {
    &&& origin.len() == after.len()
    &&& forall|k: int|
        0 <= k < after.len() ==> 0 <= #[trigger] origin[k] < before.len() && after[k]
            == before[origin[k]]
    &&& forall|x: int, y: int|
        0 <= x < y < after.len() ==> #[trigger] origin[x] != #[trigger] origin[y]
}

/// A sweep of unmarked excitons changes nothing and leaves no record.
pub proof fn nothing_marked_nothing_swept(
    live: Seq<Coord2D>,
    times: Seq<u64>,
    marked: Seq<bool>,
    radiative: bool,
    from: int,
)
    requires
        forall|k: int| 0 <= k < marked.len() ==> !marked[k],
        0 <= from <= marked.len(),
    ensures
        sweep(live, marked, from) == live,
        obituaries(live, times, marked, radiative, from) == Seq::<ExcitonBiography>::empty(),
    decreases marked.len() - from,
{
    if from < marked.len() {
        nothing_marked_nothing_swept(live, times, marked, radiative, from + 1);
    }
}

/// The marked elements from `from` on, the highest index first: what a sweep
/// takes out.
pub open spec fn swept_out<A>(live: Seq<A>, marked: Seq<bool>, from: int) -> Seq<A>
    decreases marked.len() - from,
{
    if from < 0 || from >= marked.len() {
        Seq::empty()
    } else {
        let later = swept_out(live, marked, from + 1);
        if marked[from] {
            later.push(live[from])
        } else {
            later
        }
    }
}

/// The positions of the records of a sweep.
pub open spec fn positions_of(records: Seq<ExcitonBiography>) -> Seq<Coord2D> {
    records.map_values(|b: ExcitonBiography| b.destroyed_at_position)
}

/// The records of a sweep hold the positions of what it takes out, in
/// order.
pub proof fn records_hold_what_was_swept(
    positions: Seq<Coord2D>,
    times: Seq<u64>,
    marked: Seq<bool>,
    radiative: bool,
    from: int,
)
    requires
        0 <= from <= marked.len(),
    ensures
        positions_of(obituaries(positions, times, marked, radiative, from)) == swept_out(
            positions,
            marked,
            from,
        ),
    decreases marked.len() - from,
{
    if from < marked.len() {
        records_hold_what_was_swept(positions, times, marked, radiative, from + 1);
    }
    assert(positions_of(obituaries(positions, times, marked, radiative, from)) =~= swept_out(
        positions,
        marked,
        from,
    ));
}

/// Taking out one element, by moving the last into its place, leaves the
/// others, each as often as before.
pub proof fn swap_removed_takes_one<A>(s: Seq<A>, i: int)
    requires
        0 <= i < s.len(),
    ensures
        swap_removed(s, i).to_multiset() == s.to_multiset().remove(s[i]),
{
    let last = s.last();
    let moved = s.update(i, last);
    vstd::seq_lib::to_multiset_update(s, i, last);
    vstd::seq_lib::to_multiset_remove(moved, moved.len() - 1);
    assert(moved.remove(moved.len() - 1) =~= swap_removed(s, i));
    assert(moved[moved.len() - 1] == last);
    assert(s.to_multiset().insert(last).remove(s[i]).remove(last) =~= s.to_multiset().remove(
        s[i],
    )) by {
        s.to_multiset_ensures();
        assert(s.contains(s[i]));
    }
}

/// A sweep loses nothing and makes nothing up: what it leaves and what it
/// takes out are together what there was, each element as often.
pub proof fn sweep_partitions<A>(live: Seq<A>, marked: Seq<bool>, from: int)
    requires
        live.len() == marked.len(),
        0 <= from <= marked.len(),
    ensures
        sweep(live, marked, from).to_multiset().add(swept_out(live, marked, from).to_multiset())
            == live.to_multiset(),
    decreases marked.len() - from,
{
    if from < marked.len() {
        sweep_partitions(live, marked, from + 1);
        sweep_keeps_prefix(live, marked, from + 1);
        let later = sweep(live, marked, from + 1);
        let out = swept_out(live, marked, from + 1);
        if marked[from] {
            swap_removed_takes_one(later, from);
            vstd::seq_lib::to_multiset_build(out, live[from]);
            later.to_multiset_ensures();
            assert(later.contains(later[from]));
            assert(later.to_multiset().remove(live[from]).add(
                out.to_multiset().insert(live[from]),
            ) =~= later.to_multiset().add(out.to_multiset()));
        }
    } else {
        assert(swept_out(live, marked, from).to_multiset() =~= Seq::<A>::empty().to_multiset());
        assert(sweep(live, marked, from).to_multiset().add(
            Seq::<A>::empty().to_multiset(),
        ) =~= live.to_multiset()) by {
            Seq::<A>::empty().to_multiset_ensures();
            broadcast use vstd::multiset::group_multiset_axioms;
        }
    }
}

/// Whether every record is one of a radiative decay.
pub open spec fn all_radiative(records: Seq<ExcitonBiography>) -> bool {
    forall|i: int| 0 <= i < records.len() ==> (#[trigger] records[i]).decayed_radiatively
}

/// The records of a sweep all carry the flag that the sweep was made with.
pub proof fn obituaries_carry_the_flag(
    positions: Seq<Coord2D>,
    times: Seq<u64>,
    marked: Seq<bool>,
    radiative: bool,
    from: int,
)
    ensures
        forall|i: int|
            0 <= i < obituaries(positions, times, marked, radiative, from).len() ==> (
            #[trigger] obituaries(
                positions,
                times,
                marked,
                radiative,
                from,
            )[i]).decayed_radiatively == radiative,
    decreases marked.len() - from,
{
    let now = obituaries(positions, times, marked, radiative, from);
    if 0 <= from < marked.len() {
        obituaries_carry_the_flag(positions, times, marked, radiative, from + 1);
        let later = obituaries(positions, times, marked, radiative, from + 1);
        assert forall|i: int| 0 <= i < now.len() implies (#[trigger] now[i]).decayed_radiatively
            == radiative by {
            if i < later.len() {
                assert(now[i] == later[i]);
            }
        }
    }
}

} // verus!
