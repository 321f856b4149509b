//! Pairs of excitons in contact: which excitons one annihilation pass
//! marks, and what holds of those it leaves.

use crate::binary64::{at_most, below, nan, rank, zero};
use crate::coord2d::Coord2D;
use crate::exciton::{AnnihilationOutcome, ExcitonBiography, ExcitonParameters};
use crate::sweep::{
    indices, nothing_marked_nothing_swept, obituaries, positions_of, records_hold_what_was_swept,
    survivor_indices, sweep, sweep_balance, sweep_follows_indices, sweep_partitions,
    swept_indices, traces,
};
use vstd::prelude::*;

verus! {

/// The distances of a population of `n` excitons as a table: row `a` holds,
/// at place `b`, the centre-to-centre distance of the excitons at `a` and at
/// `b`, for every `b` below `a`.
pub open spec fn table(distances: &Vec<Vec<u64>>) -> Seq<Seq<u64>> {
    Seq::new(distances@.len(), |a: int| distances@[a]@)
}

/// Whether `table` holds a distance, and not a NaN, for every pair of a
/// population of `n` excitons.
pub open spec fn covers(table: Seq<Seq<u64>>, n: nat) -> bool {
    &&& table.len() == n
    &&& forall|a: int| 0 <= a < n ==> (#[trigger] table[a]).len() == a
    &&& forall|a: int, b: int| 0 <= b < a < n ==> !nan(#[trigger] table[a][b])
}

/// Whether the excitons at `a` and at `b`, `b` below `a`, are in contact:
/// their distance is below the contact distance.
pub open spec fn in_contact(table: Seq<Seq<u64>>, contact: u64, a: int, b: int) -> bool {
    below(table[a][b], contact)
}

/// Whether the pair (`a`, `b`) marks the exciton at `k` for removal: the
/// pair is in contact, `k` is one of the two and, where only one of a pair
/// is destroyed, the one that was picked. `picks[a][b]` says whether that is
/// `a`.
pub open spec fn hit(
    table: Seq<Seq<u64>>,
    contact: u64,
    outcome: AnnihilationOutcome,
    picks: Seq<Seq<bool>>,
    a: int,
    b: int,
    k: int,
) -> bool {
    &&& in_contact(table, contact, a, b)
    &&& k == a || k == b
    &&& outcome == AnnihilationOutcome::One ==> k == if picks[a][b] {
        a
    } else {
        b
    }
}

/// Whether the pair (`a`, `b`) comes before the pair (`i`, `j`) in the scan
/// of all pairs: by rows, each from its first place.
pub open spec fn scanned(a: int, b: int, i: int, j: int) -> bool {
    0 <= b < a && (a < i || (a == i && b < j))
}

/// Whether a pair scanned before (`i`, `j`) marks the exciton at `k`.
pub open spec fn marked_before(
    table: Seq<Seq<u64>>,
    contact: u64,
    outcome: AnnihilationOutcome,
    picks: Seq<Seq<bool>>,
    i: int,
    j: int,
    k: int,
) -> bool {
    exists|a: int, b: int|
        scanned(a, b, i, j) && #[trigger] hit(table, contact, outcome, picks, a, b, k)
}

/// Whether `marked` is what one pass over a population of `n` excitons
/// marks for removal, under the picks `picks`: an exciton is marked exactly
/// where some pair marks it.
pub open spec fn marks_of_pass(
    table: Seq<Seq<u64>>,
    contact: u64,
    outcome: AnnihilationOutcome,
    picks: Seq<Seq<bool>>,
    n: nat,
    marked: Seq<bool>,
) -> bool {
    &&& marked.len() == n
    &&& forall|k: int|
        0 <= k < n ==> #[trigger] marked[k] == marked_before(
            table,
            contact,
            outcome,
            picks,
            n as int,
            0,
            k,
        )
}

/// The picks as a table: row `a` holds, at place `b`, whether of the pair
/// (`a`, `b`) the exciton at `a` is the one picked.
pub open spec fn pick_table(picks: &Vec<Vec<bool>>) -> Seq<Seq<bool>> {
    Seq::new(picks@.len(), |a: int| picks@[a]@)
}

/// Whether `picks` holds a pick for every pair of a population of `n`
/// excitons.
pub open spec fn picks_cover(picks: Seq<Seq<bool>>, n: nat) -> bool {
    &&& picks.len() == n
    &&& forall|a: int| 0 <= a < n ==> (#[trigger] picks[a]).len() == a
}

/// The excitons that one pass over a population of `n` excitons marks for
/// removal, under the picks `picks`: each where some pair marks it.
pub open spec fn marks(
    table: Seq<Seq<u64>>,
    contact: u64,
    outcome: AnnihilationOutcome,
    picks: Seq<Seq<bool>>,
    n: nat,
) -> Seq<bool> {
    Seq::new(n, |k: int| marked_before(table, contact, outcome, picks, n as int, 0, k))
}

/// Scanning one pair more adds what that pair marks.
pub(crate) proof fn marks_step(
    table: Seq<Seq<u64>>,
    contact: u64,
    outcome: AnnihilationOutcome,
    picks: Seq<Seq<bool>>,
    i: int,
    j: int,
    k: int,
)
    requires
        0 <= j < i,
    ensures
        marked_before(table, contact, outcome, picks, i, j + 1, k) == (marked_before(
            table,
            contact,
            outcome,
            picks,
            i,
            j,
            k,
        ) || hit(table, contact, outcome, picks, i, j, k)),
{
    if marked_before(table, contact, outcome, picks, i, j, k) {
        let (a, b) = choose|a: int, b: int|
            scanned(a, b, i, j) && #[trigger] hit(table, contact, outcome, picks, a, b, k);
        assert(scanned(a, b, i, j + 1));
    }
    if hit(table, contact, outcome, picks, i, j, k) {
        assert(scanned(i, j, i, j + 1));
    }
    if marked_before(table, contact, outcome, picks, i, j + 1, k) {
        let (a, b) = choose|a: int, b: int|
            scanned(a, b, i, j + 1) && #[trigger] hit(table, contact, outcome, picks, a, b, k);
        if !(a == i && b == j) {
            assert(scanned(a, b, i, j));
        }
    }
}

/// The pairs scanned at the end of a row are those scanned at the start of
/// the next.
pub(crate) proof fn marks_next_row(
    table: Seq<Seq<u64>>,
    contact: u64,
    outcome: AnnihilationOutcome,
    picks: Seq<Seq<bool>>,
    i: int,
    k: int,
)
    requires
        0 <= i,
    ensures
        marked_before(table, contact, outcome, picks, i + 1, 0, k) == marked_before(
            table,
            contact,
            outcome,
            picks,
            i,
            i,
            k,
        ),
{
    if marked_before(table, contact, outcome, picks, i, i, k) {
        let (a, b) = choose|a: int, b: int|
            scanned(a, b, i, i) && #[trigger] hit(table, contact, outcome, picks, a, b, k);
        assert(scanned(a, b, i + 1, 0));
    }
    if marked_before(table, contact, outcome, picks, i + 1, 0, k) {
        let (a, b) = choose|a: int, b: int|
            scanned(a, b, i + 1, 0) && #[trigger] hit(table, contact, outcome, picks, a, b, k);
        assert(scanned(a, b, i, i));
    }
}

/// Before any pair is scanned, no exciton is marked.
pub(crate) proof fn marks_start(
    table: Seq<Seq<u64>>,
    contact: u64,
    outcome: AnnihilationOutcome,
    picks: Seq<Seq<bool>>,
    k: int,
)
    ensures
        !marked_before(table, contact, outcome, picks, 1, 0, k),
{
    if marked_before(table, contact, outcome, picks, 1, 0, k) {
        let (a, b) = choose|a: int, b: int|
            scanned(a, b, 1, 0) && #[trigger] hit(table, contact, outcome, picks, a, b, k);
    }
}

/// Whether `least` is the least of the distances that `table` holds for a
/// population of `n` excitons: one of them, and no other is less.
pub open spec fn is_least_distance(table: Seq<Seq<u64>>, n: int, least: u64) -> bool {
    &&& forall|a: int, b: int| 0 <= b < a < n ==> at_most(least, #[trigger] table[a][b])
    &&& exists|a: int, b: int| 0 <= b < a < n && #[trigger] table[a][b] == least
}

/// Where no two excitons are in contact, the least of their distances is
/// not below the contact distance: what an annihilation pass leaves is no
/// overlap.
pub proof fn apart_is_no_overlap(table: Seq<Seq<u64>>, contact: u64, n: int, least: u64)
    requires
        forall|a: int, b: int| 0 <= b < a < n ==> !in_contact(table, contact, a, b),
        is_least_distance(table, n, least),
    ensures
        !below(least, contact),
{
    let (a, b) = choose|a: int, b: int| 0 <= b < a < n && #[trigger] table[a][b] == least;
    assert(!in_contact(table, contact, a, b));
}

/// Whether one annihilation pass at time `time_s` over the population
/// `before`, under the picks `picks`, leaves the population `after` and the
/// records `records`.
///
/// Nothing happens to fewer than two excitons, or where the collision radius
/// is zero. Else the excitons that the pairs in contact mark are swept out,
/// each leaving a record that is not radiative, at `time_s` and at its
/// position.
pub open spec fn annihilated_under(
    before: Seq<Coord2D>,
    parameters: ExcitonParameters,
    contact: u64,
    table: Seq<Seq<u64>>,
    picks: Seq<Seq<bool>>,
    time_s: u64,
    after: Seq<Coord2D>,
    records: Seq<ExcitonBiography>,
) -> bool {
    if before.len() < 2 || zero(parameters.exciton_radius_m) {
        records == Seq::<ExcitonBiography>::empty() && after == before
    } else {
        let marked = marks(table, contact, parameters.annihilation_outcome, picks, before.len());
        &&& after == sweep(before, marked, 0)
        &&& records == obituaries(
            before,
            Seq::new(before.len(), |k: int| time_s),
            marked,
            false,
            0,
        )
    }
}

/// What a pass leaves under given picks, a pass can leave.
pub proof fn annihilated_under_some_picks(
    before: Seq<Coord2D>,
    parameters: ExcitonParameters,
    contact: u64,
    table: Seq<Seq<u64>>,
    picks: Seq<Seq<bool>>,
    time_s: u64,
    after: Seq<Coord2D>,
    records: Seq<ExcitonBiography>,
)
    requires
        annihilated_under(before, parameters, contact, table, picks, time_s, after, records),
    ensures
        annihilated(before, parameters, contact, table, time_s, after, records),
{
    if !(before.len() < 2 || zero(parameters.exciton_radius_m)) {
        let marked = marks(table, contact, parameters.annihilation_outcome, picks, before.len());
        assert(marks_of_pass(
            table,
            contact,
            parameters.annihilation_outcome,
            picks,
            before.len(),
            marked,
        ));
    }
}

/// Whether one annihilation pass at time `time_s` over the population
/// `before` can leave the population `after` and the records `records`.
///
/// Nothing happens to fewer than two excitons, or where the collision radius
/// is zero. Else the marked excitons are swept out, each leaving a record
/// that is not radiative, at `time_s` and at its position.
pub open spec fn annihilated(
    before: Seq<Coord2D>,
    parameters: ExcitonParameters,
    contact: u64,
    table: Seq<Seq<u64>>,
    time_s: u64,
    after: Seq<Coord2D>,
    records: Seq<ExcitonBiography>,
) -> bool {
    if before.len() < 2 || zero(parameters.exciton_radius_m) {
        records == Seq::<ExcitonBiography>::empty() && after == before
    } else {
        exists|picks: Seq<Seq<bool>>, marked: Seq<bool>|
            {
                &&& #[trigger] marks_of_pass(
                    table,
                    contact,
                    parameters.annihilation_outcome,
                    picks,
                    before.len(),
                    marked,
                )
                &&& after == sweep(before, marked, 0)
                &&& records == obituaries(
                    before,
                    Seq::new(before.len(), |k: int| time_s),
                    marked,
                    false,
                    0,
                )
            }
    }
}

/// An annihilation pass leaves a record of every exciton that it removes.
pub proof fn annihilation_balance(
    before: Seq<Coord2D>,
    parameters: ExcitonParameters,
    contact: u64,
    table: Seq<Seq<u64>>,
    time_s: u64,
    after: Seq<Coord2D>,
    records: Seq<ExcitonBiography>,
)
    requires
        annihilated(before, parameters, contact, table, time_s, after, records),
    ensures
        after.len() + records.len() == before.len(),
{
    if !(before.len() < 2 || zero(parameters.exciton_radius_m)) {
        let (picks, marked) = choose|picks: Seq<Seq<bool>>, marked: Seq<bool>|
            {
                &&& #[trigger] marks_of_pass(
                    table,
                    contact,
                    parameters.annihilation_outcome,
                    picks,
                    before.len(),
                    marked,
                )
                &&& after == sweep(before, marked, 0)
                &&& records == obituaries(
                    before,
                    Seq::new(before.len(), |k: int| time_s),
                    marked,
                    false,
                    0,
                )
            };
        sweep_balance(before, Seq::new(before.len(), |k: int| time_s), marked, false, 0);
    }
}

/// The larger of two indices.
pub open spec fn upper(a: int, b: int) -> int {
    if a >= b {
        a
    } else {
        b
    }
}

/// The smaller of two indices.
pub open spec fn lower(a: int, b: int) -> int {
    if a >= b {
        b
    } else {
        a
    }
}

/// Whether no two of the excitons at the indices `origin` were in contact.
pub open spec fn apart(table: Seq<Seq<u64>>, contact: u64, origin: Seq<int>) -> bool {
    forall|x: int, y: int|
        0 <= x < y < origin.len() ==> !in_contact(
            table,
            contact,
            upper(#[trigger] origin[x], #[trigger] origin[y]),
            lower(origin[x], origin[y]),
        )
}

/// Of two excitons in contact, a pass marks at least one.
pub proof fn contact_marks_one(
    table: Seq<Seq<u64>>,
    contact: u64,
    outcome: AnnihilationOutcome,
    picks: Seq<Seq<bool>>,
    n: nat,
    marked: Seq<bool>,
    a: int,
    b: int,
)
    requires
        marks_of_pass(table, contact, outcome, picks, n, marked),
        0 <= b < a < n,
        in_contact(table, contact, a, b),
    ensures
        marked[a] || marked[b],
        outcome == AnnihilationOutcome::Both ==> marked[a] && marked[b],
{
    assert(scanned(a, b, n as int, 0));
    if outcome == AnnihilationOutcome::Both {
        assert(hit(table, contact, outcome, picks, a, b, a));
        assert(hit(table, contact, outcome, picks, a, b, b));
        assert(marked[a] == marked_before(table, contact, outcome, picks, n as int, 0, a));
        assert(marked[b] == marked_before(table, contact, outcome, picks, n as int, 0, b));
    } else {
        if picks[a][b] {
            assert(hit(table, contact, outcome, picks, a, b, a));
            assert(marked[a] == marked_before(table, contact, outcome, picks, n as int, 0, a));
        } else {
            assert(hit(table, contact, outcome, picks, a, b, b));
            assert(marked[b] == marked_before(table, contact, outcome, picks, n as int, 0, b));
        }
    }
}

/// A pass marks no exciton that is in contact with none.
pub proof fn marked_is_in_contact(
    table: Seq<Seq<u64>>,
    contact: u64,
    outcome: AnnihilationOutcome,
    picks: Seq<Seq<bool>>,
    n: nat,
    marked: Seq<bool>,
    k: int,
)
    requires
        marks_of_pass(table, contact, outcome, picks, n, marked),
        0 <= k < n,
        marked[k],
    ensures
        exists|other: int|
            0 <= other < n && other != k && #[trigger] in_contact(
                table,
                contact,
                upper(k, other),
                lower(k, other),
            ),
{
    assert(marked[k] == marked_before(table, contact, outcome, picks, n as int, 0, k));
    let (a, b) = choose|a: int, b: int|
        scanned(a, b, n as int, 0) && #[trigger] hit(table, contact, outcome, picks, a, b, k);
    if k == a {
        assert(in_contact(table, contact, upper(k, b), lower(k, b)));
    } else {
        assert(in_contact(table, contact, upper(k, a), lower(k, a)));
    }
}

/// After an annihilation pass no two live excitons are in contact: each
/// survivor can be traced to an exciton of before, and no two of those were
/// within the contact distance of each other. Of excitons of radius zero
/// this holds as none is removed and no distance is below zero.
pub proof fn survivors_are_apart(
    before: Seq<Coord2D>,
    parameters: ExcitonParameters,
    contact: u64,
    table: Seq<Seq<u64>>,
    time_s: u64,
    after: Seq<Coord2D>,
    records: Seq<ExcitonBiography>,
)
    requires
        annihilated(before, parameters, contact, table, time_s, after, records),
        zero(parameters.exciton_radius_m) ==> zero(contact) && forall|a: int, b: int|
            0 <= b < a < before.len() ==> rank(#[trigger] table[a][b]) >= 0,
    ensures
        exists|origin: Seq<int>| #[trigger]
            traces(before, after, origin) && apart(table, contact, origin),
{
    let n = before.len();
    if n < 2 || zero(parameters.exciton_radius_m) {
        let origin = indices(n);
        assert(traces(before, after, origin));
        assert(apart(table, contact, origin));
    } else {
        let (picks, marked) = choose|picks: Seq<Seq<bool>>, marked: Seq<bool>|
            {
                &&& #[trigger] marks_of_pass(
                    table,
                    contact,
                    parameters.annihilation_outcome,
                    picks,
                    n,
                    marked,
                )
                &&& after == sweep(before, marked, 0)
                &&& records == obituaries(
                    before,
                    Seq::new(n, |k: int| time_s),
                    marked,
                    false,
                    0,
                )
            };
        let origin = survivor_indices(n, marked);
        swept_indices(n, marked, 0);
        sweep_follows_indices(before, marked, 0);
        assert(traces(before, after, origin));
        assert forall|x: int, y: int| 0 <= x < y < origin.len() implies !in_contact(
            table,
            contact,
            upper(#[trigger] origin[x], #[trigger] origin[y]),
            lower(origin[x], origin[y]),
        ) by {
            let a = upper(origin[x], origin[y]);
            let b = lower(origin[x], origin[y]);
            if in_contact(table, contact, a, b) {
                contact_marks_one(
                    table,
                    contact,
                    parameters.annihilation_outcome,
                    picks,
                    n,
                    marked,
                    a,
                    b,
                );
            }
        }
        assert(apart(table, contact, origin));
    }
}

/// Where no two excitons are in contact, an annihilation pass removes none
/// and leaves no record.
pub proof fn apart_stay(
    before: Seq<Coord2D>,
    parameters: ExcitonParameters,
    contact: u64,
    table: Seq<Seq<u64>>,
    time_s: u64,
    after: Seq<Coord2D>,
    records: Seq<ExcitonBiography>,
)
    requires
        annihilated(before, parameters, contact, table, time_s, after, records),
        forall|a: int, b: int| 0 <= b < a < before.len() ==> !in_contact(table, contact, a, b),
    ensures
        after == before,
        records == Seq::<ExcitonBiography>::empty(),
{
    let n = before.len();
    if !(n < 2 || zero(parameters.exciton_radius_m)) {
        let (picks, marked) = choose|picks: Seq<Seq<bool>>, marked: Seq<bool>|
            {
                &&& #[trigger] marks_of_pass(
                    table,
                    contact,
                    parameters.annihilation_outcome,
                    picks,
                    n,
                    marked,
                )
                &&& after == sweep(before, marked, 0)
                &&& records == obituaries(
                    before,
                    Seq::new(n, |k: int| time_s),
                    marked,
                    false,
                    0,
                )
            };
        assert forall|k: int| 0 <= k < marked.len() implies !marked[k] by {
            if marked[k] {
                marked_is_in_contact(
                    table,
                    contact,
                    parameters.annihilation_outcome,
                    picks,
                    n,
                    marked,
                    k,
                );
            }
        }
        nothing_marked_nothing_swept(before, Seq::new(n, |k: int| time_s), marked, false, 0);
    }
}

/// Whether `second` holds, for the excitons traced by `origin`, the
/// distances that `first` held for them: nothing has moved.
pub open spec fn same_distances(
    first: Seq<Seq<u64>>,
    second: Seq<Seq<u64>>,
    origin: Seq<int>,
) -> bool {
    forall|x: int, y: int|
        0 <= y < x < origin.len() ==> #[trigger] second[x][y] == first[upper(
            origin[x],
            origin[y],
        )][lower(origin[x], origin[y])]
}

/// A second annihilation pass, with nothing moved since the first, removes
/// no exciton and leaves no record.
pub proof fn second_pass_removes_nothing(
    before: Seq<Coord2D>,
    parameters: ExcitonParameters,
    contact: u64,
    first: Seq<Seq<u64>>,
    time_s: u64,
    between: Seq<Coord2D>,
    first_records: Seq<ExcitonBiography>,
    second: Seq<Seq<u64>>,
    after: Seq<Coord2D>,
    second_records: Seq<ExcitonBiography>,
)
    requires
        annihilated(before, parameters, contact, first, time_s, between, first_records),
        annihilated(between, parameters, contact, second, time_s, after, second_records),
        forall|origin: Seq<int>|
            traces(before, between, origin) && #[trigger] apart(first, contact, origin)
                ==> same_distances(first, second, origin),
    ensures
        after == between,
        second_records == Seq::<ExcitonBiography>::empty(),
{
    if !zero(parameters.exciton_radius_m) {
        survivors_are_apart(before, parameters, contact, first, time_s, between, first_records);
        let origin = choose|origin: Seq<int>| #[trigger]
            traces(before, between, origin) && apart(first, contact, origin);
        assert(same_distances(first, second, origin));
        assert forall|a: int, b: int| 0 <= b < a < between.len() implies !in_contact(
            second,
            contact,
            a,
            b,
        ) by {
            assert(second[a][b] == first[upper(origin[a], origin[b])][lower(
                origin[a],
                origin[b],
            )]);
            assert(!in_contact(
                first,
                contact,
                upper(origin[b], origin[a]),
                lower(origin[b], origin[a]),
            ));
        }
        apart_stay(between, parameters, contact, second, time_s, after, second_records);
    }
}

/// Excitons of radius zero do not annihilate.
pub proof fn zero_radius_never_annihilates(
    before: Seq<Coord2D>,
    parameters: ExcitonParameters,
    contact: u64,
    table: Seq<Seq<u64>>,
    time_s: u64,
    after: Seq<Coord2D>,
    records: Seq<ExcitonBiography>,
)
    requires
        annihilated(before, parameters, contact, table, time_s, after, records),
        zero(parameters.exciton_radius_m),
    ensures
        after == before,
        records == Seq::<ExcitonBiography>::empty(),
{
}

/// An annihilation pass loses no exciton and makes none up: the positions of
/// those it leaves and of those it leaves a record of are together the
/// positions of before, each as often.
pub proof fn annihilation_conserves(
    before: Seq<Coord2D>,
    parameters: ExcitonParameters,
    contact: u64,
    table: Seq<Seq<u64>>,
    time_s: u64,
    after: Seq<Coord2D>,
    records: Seq<ExcitonBiography>,
)
    requires
        annihilated(before, parameters, contact, table, time_s, after, records),
    ensures
        after.to_multiset().add(positions_of(records).to_multiset()) == before.to_multiset(),
{
    let n = before.len();
    if n < 2 || zero(parameters.exciton_radius_m) {
        let none = Seq::<bool>::new(n, |k: int| false);
        let times = Seq::new(n, |k: int| time_s);
        nothing_marked_nothing_swept(before, times, none, false, 0);
        sweep_partitions(before, none, 0);
        records_hold_what_was_swept(before, times, none, false, 0);
    } else {
        let (picks, marked) = choose|picks: Seq<Seq<bool>>, marked: Seq<bool>|
            {
                &&& #[trigger] marks_of_pass(
                    table,
                    contact,
                    parameters.annihilation_outcome,
                    picks,
                    n,
                    marked,
                )
                &&& after == sweep(before, marked, 0)
                &&& records == obituaries(
                    before,
                    Seq::new(n, |k: int| time_s),
                    marked,
                    false,
                    0,
                )
            };
        sweep_partitions(before, marked, 0);
        records_hold_what_was_swept(before, Seq::new(n, |k: int| time_s), marked, false, 0);
    }
}

} // verus!
