//! The population of live excitons: what annihilation and decay remove from
//! it, and what it has to attend to next.

use crate::binary64::{
    abs, at_most, below, doubled, is_zero, le, lt, magnitude, twice, zero, FIVE,
};
use crate::contact::{
    annihilated, annihilated_under, annihilated_under_some_picks, covers, hit,
    is_least_distance, marked_before, marks, marks_next_row, marks_start, marks_step,
    pick_table, picks_cover, scanned, table,
};
use crate::coord2d::Coord2D;
use crate::excitation_source2d::{Excitation2D, ExcitationSource2D};
use crate::exciton::{AnnihilationOutcome, ExcitonBiography, ExcitonParameters};
use crate::sweep::{obituaries, swap_removed, sweep, sweep_keeps_prefix};
use rand::rngs::ThreadRng;
use rand::seq::IndexedRandom;
use vstd::prelude::*;

verus! {

/// `rand::rngs::ThreadRng`, carried about as an opaque value.
#[verifier::external_type_specification]
#[verifier::external_body]
pub struct ExThreadRng(ThreadRng);

/// `rand::rng`: a handle to the generator of the calling thread. Nothing is
/// claimed of the handle.
#[verifier::external_body]
fn thread_rng() -> ThreadRng {
    rand::rng()
}

/// `IndexedRandom::choose` on the two-element array `[first, second]`: one
/// of the two, picked at random. The array is never empty, so the method
/// always yields an element of it.
#[verifier::external_body]
fn choose_one(rng: &mut ThreadRng, first: usize, second: usize) -> (picked: usize)
    ensures
        picked == first || picked == second,
{
    *[first, second].choose(rng).unwrap()
}

/// A breach of what the scheduler and the population owe each other. None is
/// expected of a run that is driven as intended.
#[derive(Debug, Clone, Copy, PartialEq, Eq, Structural)]
pub enum ContractViolation {
    /// Two live excitons are closer than the contact distance where
    /// collisions should have been resolved.
    OverlappingExcitons,
    /// Two or more interacting excitons are alive, no excitation is pending,
    /// and no collision time is known.
    NothingToWaitFor,
    /// The clock was asked to run backwards, or to a time that is no number.
    TimeReversal,
}

/// What the simulation has to attend to next.
#[derive(Debug, Clone, Copy)]
pub enum CriticalEvent {
    /// The next excitation arrives; it was taken out of the source.
    NewExcitation(Excitation2D),
    /// From the given time on, two excitons could touch.
    ExcitonsCouldCollide(u64),
    /// One exciton is left, and nothing else will happen to it but its decay.
    OneExcitonRemains,
    /// No exciton is left and none will come.
    NoExcitonsRemain,
    /// The excitons that are left cannot collide: their radius is zero.
    ZeroRadiusExcitons,
}

/// What the caller worked out for one exciton over one time step.
#[derive(Debug, Clone, Copy)]
pub struct ExcitonStep {
    /// The waiting time until radiative decay that was drawn for the exciton.
    pub decay_draw_s: u64,
    /// Where the exciton is after diffusing for `diffusion_time` of the draw
    /// and the step.
    pub moved_to: Coord2D,
    /// The time of the step's start plus the draw.
    pub decay_time_s: u64,
}

/// The step that a collision time `delta_t_s` away asks for: not less than
/// the minimum step.
pub open spec fn clamped_step(delta_t_s: u64, minimum_time_step_s: u64) -> u64 {
    if below(delta_t_s, minimum_time_step_s) {
        minimum_time_step_s
    } else {
        delta_t_s
    }
}

/// How long an exciton diffuses in a step of `delta_t_s`, given the waiting
/// time drawn for its decay: until it decays, if that is within the step.
pub open spec fn diffusion_span(decay_draw_s: u64, delta_t_s: u64) -> u64 {
    if at_most(decay_draw_s, delta_t_s) {
        decay_draw_s
    } else {
        delta_t_s
    }
}

/// The step to take towards a collision that could happen `delta_t_s` from
/// now: `delta_t_s`, unless it is below the minimum step.
pub fn time_step(delta_t_s: u64, minimum_time_step_s: u64) -> (step: u64)
    ensures
        step == clamped_step(delta_t_s, minimum_time_step_s),
{
    if lt(delta_t_s, minimum_time_step_s) {
        minimum_time_step_s
    } else {
        delta_t_s
    }
}

/// How long an exciton diffuses in a step of `delta_t_s`: for the waiting
/// time drawn for its decay, where the decay falls within the step.
pub fn diffusion_time(decay_draw_s: u64, delta_t_s: u64) -> (span: u64)
    ensures
        span == diffusion_span(decay_draw_s, delta_t_s),
{
    if le(decay_draw_s, delta_t_s) {
        decay_draw_s
    } else {
        delta_t_s
    }
}

/// Whether a draw from the standard normal distribution is kept: its
/// magnitude is at most five. A draw beyond that is drawn again, which caps
/// a displacement at five standard deviations.
pub fn within_five_sigma(standard_normal_draw: u64) -> (kept: bool)
    ensures
        kept == at_most(magnitude(standard_normal_draw), FIVE),
{
    le(abs(standard_normal_draw), FIVE)
}

/// What the scheduler decides: from the pending excitation, the time from
/// which a collision is possible, the number of live excitons and their
/// radius.
pub open spec fn decision(
    pending: Option<Excitation2D>,
    collision_time_s: Option<u64>,
    n: nat,
    radius: u64,
) -> Result<CriticalEvent, ContractViolation> {
    match (pending, collision_time_s) {
        (None, None) => if n == 0 {
            Ok(CriticalEvent::NoExcitonsRemain)
        } else if n == 1 {
            Ok(CriticalEvent::OneExcitonRemains)
        } else if zero(radius) {
            Ok(CriticalEvent::ZeroRadiusExcitons)
        } else {
            Err(ContractViolation::NothingToWaitFor)
        },
        (Some(e), None) => Ok(CriticalEvent::NewExcitation(e)),
        (None, Some(t)) => Ok(CriticalEvent::ExcitonsCouldCollide(t)),
        (Some(e), Some(t)) => if below(t, e.time_bits()) {
            Ok(CriticalEvent::ExcitonsCouldCollide(t))
        } else {
            Ok(CriticalEvent::NewExcitation(e))
        },
    }
}

/// The excitation that a source would yield next.
pub open spec fn pending<T: ExcitationSource2D>(source: &T) -> Option<Excitation2D> {
    if source.consumed() < source.events().len() {
        Some(source.events()[source.consumed() as int])
    } else {
        None
    }
}

/// The positions that the steps move the excitons to, by index.
pub open spec fn moved(steps: Seq<ExcitonStep>) -> Seq<Coord2D> {
    Seq::new(steps.len(), |k: int| steps[k].moved_to)
}

/// The decay times of the steps, by index.
pub open spec fn decay_times(steps: Seq<ExcitonStep>) -> Seq<u64> {
    Seq::new(steps.len(), |k: int| steps[k].decay_time_s)
}

/// Which excitons decay within a step of `delta_t_s`: those whose waiting
/// time is at most the step.
pub open spec fn decayed(steps: Seq<ExcitonStep>, delta_t_s: u64) -> Seq<bool> {
    Seq::new(steps.len(), |k: int| at_most(steps[k].decay_draw_s, delta_t_s))
}

/// The population of live excitons: a dense array of positions whose order
/// carries no meaning.
pub struct ExcitonCollection {
    excitons: Vec<Coord2D>,
    cursor: usize,
    exciton_parameters: ExcitonParameters,
    rng: ThreadRng,
}

impl ExcitonCollection {
    /// The invariant of the collection.
    pub closed spec fn wf(&self) -> bool {
        self.cursor <= self.excitons.len()
    }

    /// The positions of the live excitons, by index.
    pub closed spec fn live(&self) -> Seq<Coord2D> {
        self.excitons@.take(self.cursor as int)
    }

    /// The parameters that the collection was made with.
    pub closed spec fn parameters(&self) -> ExcitonParameters {
        self.exciton_parameters
    }

    /// The centre-to-centre distance under which two excitons collide:
    /// twice the collision radius.
    pub open spec fn contact_distance(&self) -> u64 {
        twice(self.parameters().exciton_radius_m)
    }

    /// An empty population.
    pub fn from_parameters(exciton_parameters: ExcitonParameters) -> (r: Self)
        ensures
            r.wf(),
            r.live() == Seq::<Coord2D>::empty(),
            r.parameters() == exciton_parameters,
    {
        let r = Self { excitons: Vec::new(), cursor: 0, exciton_parameters, rng: thread_rng() };
        assert(r.excitons@.take(0) =~= Seq::<Coord2D>::empty());
        r
    }

    pub fn n_excitons(&self) -> (n: usize)
        requires
            self.wf(),
        ensures
            n == self.live().len(),
    {
        self.cursor
    }

    /// The position of the live exciton at `idx`.
    pub fn position(&self, idx: usize) -> (p: Coord2D)
        requires
            self.wf(),
            idx < self.live().len(),
        ensures
            p == self.live()[idx as int],
    {
        self.excitons[idx]
    }

    /// The positions of the live excitons, by index.
    pub fn positions(&self) -> (r: Vec<Coord2D>)
        requires
            self.wf(),
        ensures
            r@ == self.live(),
    {
        let mut r: Vec<Coord2D> = Vec::new();
        let mut i: usize = 0;
        while i < self.cursor
            invariant
                self.wf(),
                i <= self.cursor,
                r@ == self.excitons@.take(i as int),
            decreases self.cursor - i,
        {
            r.push(self.excitons[i]);
            assert(self.excitons@.take(i + 1) =~= self.excitons@.take(i as int).push(
                self.excitons@[i as int],
            ));
            i = i + 1;
        }
        r
    }

    /// Adds the exciton that `excitation_2d` creates, as the last of the live
    /// ones.
    pub fn add_exciton(&mut self, excitation_2d: Excitation2D)
        requires
            old(self).wf(),
            old(self).live().len() < usize::MAX,
        ensures
            final(self).wf(),
            final(self).live() == old(self).live().push(excitation_2d.place()),
            final(self).parameters() == old(self).parameters(),
    {
        if self.cursor >= self.excitons.len() {
            self.excitons.push(excitation_2d.into_coord());
        } else {
            self.excitons[self.cursor] = excitation_2d.into_coord();
        }
        self.cursor += 1;
        assert(self.excitons@.take(self.cursor as int) =~= old(self).excitons@.take(
            old(self).cursor as int,
        ).push(excitation_2d.place()));
    }

    /// Removes the live exciton at `idx` and gives its position. The last
    /// live exciton takes its index.
    pub fn remove_exciton(&mut self, idx: usize) -> (removed: Coord2D)
        requires
            old(self).wf(),
            idx < old(self).live().len(),
        ensures
            final(self).wf(),
            removed == old(self).live()[idx as int],
            final(self).live() == swap_removed(old(self).live(), idx as int),
            final(self).parameters() == old(self).parameters(),
    {
        let result = self.excitons[idx];
        let last = self.excitons[self.cursor - 1];
        self.excitons[self.cursor - 1] = result;
        self.excitons[idx] = last;
        self.cursor -= 1;
        assert(self.excitons@.take(self.cursor as int) =~= swap_removed(
            old(self).excitons@.take(old(self).cursor as int),
            idx as int,
        ));
        result
    }

    /// Removes the marked excitons, the highest index first, and gives one
    /// record for each: its position, and its time out of `times`.
    fn sweep_marked(&mut self, marked: &Vec<bool>, times: &Vec<u64>, radiative: bool) -> (records:
        Vec<ExcitonBiography>)
        requires
            old(self).wf(),
            marked@.len() == old(self).live().len(),
            times@.len() == old(self).live().len(),
        ensures
            final(self).wf(),
            final(self).live() == sweep(old(self).live(), marked@, 0),
            records@ == obituaries(old(self).live(), times@, marked@, radiative, 0),
            final(self).parameters() == old(self).parameters(),
    {
        let mut records: Vec<ExcitonBiography> = Vec::new();
        let mut idx: usize = self.cursor;
        while idx > 0
            invariant
                self.wf(),
                idx <= marked@.len(),
                marked@.len() == old(self).live().len(),
                times@.len() == old(self).live().len(),
                self.live() == sweep(old(self).live(), marked@, idx as int),
                records@ == obituaries(old(self).live(), times@, marked@, radiative, idx as int),
                self.parameters() == old(self).parameters(),
            decreases idx,
        {
            idx = idx - 1;
            if marked[idx] {
                proof {
                    sweep_keeps_prefix(old(self).live(), marked@, idx + 1);
                }
                let position = self.remove_exciton(idx);
                records.push(
                    ExcitonBiography {
                        destroyed_at_s: times[idx],
                        destroyed_at_position: position,
                        decayed_radiatively: radiative,
                    },
                );
            }
        }
        records
    }

    /// Destroys the excitons that are in contact, with the picks given.
    ///
    /// `distances` holds the centre-to-centre distance of every pair of live
    /// excitons, and `picks`, for every pair, whether it is the exciton of
    /// the higher index that goes where only one of a pair is destroyed.
    /// Nothing happens to fewer than two excitons, or where the collision
    /// radius is zero. Else every pair whose distance is below the contact
    /// distance marks both its excitons, or the one picked. The marked
    /// excitons are then removed, the highest index first, each leaving a
    /// record that is not radiative, at time `time_s` and at its position.
    pub fn annihilate_picked(
        &mut self,
        time_s: u64,
        distances: &Vec<Vec<u64>>,
        picks: &Vec<Vec<bool>>,
    ) -> (records: Vec<ExcitonBiography>)
        requires
            old(self).wf(),
            covers(table(distances), old(self).live().len()),
            picks_cover(pick_table(picks), old(self).live().len()),
        ensures
            final(self).wf(),
            final(self).parameters() == old(self).parameters(),
            annihilated_under(
                old(self).live(),
                old(self).parameters(),
                old(self).contact_distance(),
                table(distances),
                pick_table(picks),
                time_s,
                final(self).live(),
                records@,
            ),
    {
        let n: usize = self.cursor;
        if n < 2 || is_zero(self.exciton_parameters.exciton_radius_m) {
            return Vec::new();
        }
        let contact: u64 = doubled(self.exciton_parameters.exciton_radius_m);
        let outcome = self.exciton_parameters.annihilation_outcome;
        let ghost t = table(distances);
        let ghost p = pick_table(picks);
        let mut marked: Vec<bool> = Vec::new();
        let mut times: Vec<u64> = Vec::new();
        while marked.len() < n
            invariant
                marked@.len() <= n,
                times@.len() == marked@.len(),
                forall|k: int| 0 <= k < marked@.len() ==> !marked@[k],
                forall|k: int| 0 <= k < times@.len() ==> times@[k] == time_s,
            decreases n - marked@.len(),
        {
            marked.push(false);
            times.push(time_s);
        }
        assert forall|k: int| 0 <= k < n implies marked@[k] == marked_before(
            t,
            contact,
            outcome,
            p,
            1,
            0,
            k,
        ) by {
            marks_start(t, contact, outcome, p, k);
        }
        let mut idx_1: usize = 1;
        while idx_1 < n
            invariant
                1 <= idx_1 <= n,
                t == table(distances),
                p == pick_table(picks),
                covers(t, n as nat),
                picks_cover(p, n as nat),
                marked@.len() == n,
                forall|k: int|
                    0 <= k < n ==> marked@[k] == marked_before(
                        t,
                        contact,
                        outcome,
                        p,
                        idx_1 as int,
                        0,
                        k,
                    ),
            decreases n - idx_1,
        {
            let mut idx_2: usize = 0;
            while idx_2 < idx_1
                invariant
                    1 <= idx_1 < n,
                    idx_2 <= idx_1,
                    t == table(distances),
                    p == pick_table(picks),
                    covers(t, n as nat),
                    picks_cover(p, n as nat),
                    marked@.len() == n,
                    forall|k: int|
                        0 <= k < n ==> marked@[k] == marked_before(
                            t,
                            contact,
                            outcome,
                            p,
                            idx_1 as int,
                            idx_2 as int,
                            k,
                        ),
                decreases idx_1 - idx_2,
            {
                let ghost marked_then = marked@;
                assert(t[idx_1 as int] == distances@[idx_1 as int]@);
                assert(p[idx_1 as int] == picks@[idx_1 as int]@);
                if lt(distances[idx_1][idx_2], contact) {
                    match outcome {
                        AnnihilationOutcome::One => {
                            if picks[idx_1][idx_2] {
                                marked[idx_1] = true;
                            } else {
                                marked[idx_2] = true;
                            }
                        },
                        AnnihilationOutcome::Both => {
                            marked[idx_1] = true;
                            marked[idx_2] = true;
                        },
                    }
                }
                proof {
                    assert forall|k: int| 0 <= k < n implies marked@[k] == marked_before(
                        t,
                        contact,
                        outcome,
                        p,
                        idx_1 as int,
                        idx_2 + 1,
                        k,
                    ) by {
                        marks_step(t, contact, outcome, p, idx_1 as int, idx_2 as int, k);
                        assert(marked@[k] == (marked_then[k] || hit(
                            t,
                            contact,
                            outcome,
                            p,
                            idx_1 as int,
                            idx_2 as int,
                            k,
                        )));
                    }
                }
                idx_2 = idx_2 + 1;
            }
            proof {
                assert forall|k: int| 0 <= k < n implies marked@[k] == marked_before(
                    t,
                    contact,
                    outcome,
                    p,
                    idx_1 + 1,
                    0,
                    k,
                ) by {
                    marks_next_row(t, contact, outcome, p, idx_1 as int, k);
                }
            }
            idx_1 = idx_1 + 1;
        }
        proof {
            assert(times@ =~= Seq::new(n as nat, |k: int| time_s));
            assert(marked@ =~= marks(t, contact, outcome, p, n as nat));
        }
        self.sweep_marked(&marked, &times, false)
    }

    /// Destroys the excitons that are in contact.
    ///
    /// `distances` holds the centre-to-centre distance of every pair of live
    /// excitons. Nothing happens to fewer than two excitons, or where the
    /// collision radius is zero. Else every pair whose distance is below the
    /// contact distance marks both its excitons, or the one picked at random
    /// where only one of a pair is destroyed. The marked excitons are then
    /// removed, the highest index first, each leaving a record that is not
    /// radiative, at time `time_s` and at its position.
    pub fn annihilate(&mut self, time_s: u64, distances: &Vec<Vec<u64>>) -> (records: Vec<
        ExcitonBiography,
    >)
        requires
            old(self).wf(),
            covers(table(distances), old(self).live().len()),
        ensures
            final(self).wf(),
            final(self).parameters() == old(self).parameters(),
            annihilated(
                old(self).live(),
                old(self).parameters(),
                old(self).contact_distance(),
                table(distances),
                time_s,
                final(self).live(),
                records@,
            ),
    {
        let n: usize = self.cursor;
        if n < 2 || is_zero(self.exciton_parameters.exciton_radius_m) {
            return Vec::new();
        }
        let contact: u64 = doubled(self.exciton_parameters.exciton_radius_m);
        let outcome = self.exciton_parameters.annihilation_outcome;
        let mut picks: Vec<Vec<bool>> = Vec::new();
        let mut idx_1: usize = 0;
        while idx_1 < n
            invariant
                idx_1 <= n,
                n == self.cursor,
                self.wf(),
                self.excitons == old(self).excitons && self.cursor == old(self).cursor
                    && self.exciton_parameters == old(self).exciton_parameters,
                covers(table(distances), n as nat),
                picks@.len() == idx_1,
                forall|a: int| 0 <= a < idx_1 ==> (#[trigger] picks@[a])@.len() == a,
            decreases n - idx_1,
        {
            let mut row: Vec<bool> = Vec::new();
            let mut idx_2: usize = 0;
            while idx_2 < idx_1
                invariant
                    idx_1 < n,
                    idx_2 <= idx_1,
                    n == self.cursor,
                    self.wf(),
                    self.excitons == old(self).excitons && self.cursor == old(self).cursor
                        && self.exciton_parameters == old(self).exciton_parameters,
                    covers(table(distances), n as nat),
                    row@.len() == idx_2,
                decreases idx_1 - idx_2,
            {
                assert(table(distances)[idx_1 as int] == distances@[idx_1 as int]@);
                let picked_first: bool = match outcome {
                    AnnihilationOutcome::One => lt(distances[idx_1][idx_2], contact)
                        && choose_one(&mut self.rng, idx_1, idx_2) == idx_1,
                    AnnihilationOutcome::Both => false,
                };
                row.push(picked_first);
                idx_2 = idx_2 + 1;
            }
            picks.push(row);
            idx_1 = idx_1 + 1;
        }
        let records = self.annihilate_picked(time_s, distances, &picks);
        proof {
            annihilated_under_some_picks(
                old(self).live(),
                old(self).parameters(),
                old(self).contact_distance(),
                table(distances),
                pick_table(&picks),
                time_s,
                self.live(),
                records@,
            );
        }
        records
    }

    /// The least centre-to-centre distance among the live excitons, or `None`
    /// where fewer than two are alive. It is an error for that distance to
    /// be below the contact distance: collisions are resolved before the
    /// question is asked. Two excitons that just touch do not overlap.
    pub fn minimum_center_distance_m(&self, distances: &Vec<Vec<u64>>) -> (r: Result<
        Option<u64>,
        ContractViolation,
    >)
        requires
            self.wf(),
            covers(table(distances), self.live().len()),
        ensures
            self.live().len() < 2 ==> r == Ok::<Option<u64>, ContractViolation>(None),
            self.live().len() >= 2 ==> exists|least: u64|
                {
                    &&& #[trigger] is_least_distance(
                        table(distances),
                        self.live().len() as int,
                        least,
                    )
                    &&& r == if below(least, self.contact_distance()) {
                        Err::<Option<u64>, ContractViolation>(
                            ContractViolation::OverlappingExcitons,
                        )
                    } else {
                        Ok(Some(least))
                    }
                },
    {
        let n: usize = self.cursor;
        if n < 2 {
            return Ok(None);
        }
        let ghost t = table(distances);
        assert(t[1] == distances@[1]@);
        let mut min_distance: u64 = distances[1][0];
        let mut idx_1: usize = 1;
        while idx_1 < n
            invariant
                1 <= idx_1 <= n,
                t == table(distances),
                covers(t, n as nat),
                forall|a: int, b: int|
                    scanned(a, b, idx_1 as int, 0) ==> at_most(min_distance, #[trigger] t[a][b]),
                exists|a: int, b: int| 0 <= b < a < n && #[trigger] t[a][b] == min_distance,
            decreases n - idx_1,
        {
            let mut idx_2: usize = 0;
            while idx_2 < idx_1
                invariant
                    1 <= idx_1 < n,
                    idx_2 <= idx_1,
                    t == table(distances),
                    covers(t, n as nat),
                    forall|a: int, b: int|
                        scanned(a, b, idx_1 as int, idx_2 as int) ==> at_most(
                            min_distance,
                            #[trigger] t[a][b],
                        ),
                    exists|a: int, b: int| 0 <= b < a < n && #[trigger] t[a][b] == min_distance,
                decreases idx_1 - idx_2,
            {
                assert(t[idx_1 as int] == distances@[idx_1 as int]@);
                let distance: u64 = distances[idx_1][idx_2];
                assert(distance == t[idx_1 as int][idx_2 as int]);
                assert(scanned(idx_1 as int, idx_2 as int, idx_1 as int, idx_2 + 1));
                if lt(distance, min_distance) {
                    min_distance = distance;
                }
                idx_2 = idx_2 + 1;
            }
            idx_1 = idx_1 + 1;
        }
        assert forall|a: int, b: int| 0 <= b < a < n implies at_most(
            min_distance,
            #[trigger] t[a][b],
        ) by {
            assert(scanned(a, b, n as int, 0));
        }
        assert(is_least_distance(t, n as int, min_distance));
        if lt(min_distance, doubled(self.exciton_parameters.exciton_radius_m)) {
            Err(ContractViolation::OverlappingExcitons)
        } else {
            Ok(Some(min_distance))
        }
    }

    /// The least centre-to-centre distance among the live excitons, from
    /// which the time until a collision is possible follows. `None` where no
    /// collision is possible: the radius is zero, or fewer than two excitons
    /// are alive.
    pub fn closest_approach_m(&self, distances: &Vec<Vec<u64>>) -> (r: Result<
        Option<u64>,
        ContractViolation,
    >)
        requires
            self.wf(),
            covers(table(distances), self.live().len()),
        ensures
            zero(self.parameters().exciton_radius_m) || self.live().len() < 2 ==> r == Ok::<
                Option<u64>,
                ContractViolation,
            >(None),
            !zero(self.parameters().exciton_radius_m) && self.live().len() >= 2
                ==> exists|least: u64|
                {
                    &&& #[trigger] is_least_distance(
                        table(distances),
                        self.live().len() as int,
                        least,
                    )
                    &&& r == if below(least, self.contact_distance()) {
                        Err::<Option<u64>, ContractViolation>(
                            ContractViolation::OverlappingExcitons,
                        )
                    } else {
                        Ok(Some(least))
                    }
                },
    {
        if is_zero(self.exciton_parameters.exciton_radius_m) {
            return Ok(None);
        }
        self.minimum_center_distance_m(distances)
    }

    /// Moves every live exciton to where its step takes it, and removes those
    /// whose decay falls within the step.
    ///
    /// `steps` holds, for each live exciton by index, the waiting time drawn
    /// for its decay, its position after diffusing, and the time of its
    /// decay. An exciton decays where its waiting time is at most
    /// `delta_t_s`. The decayed excitons are removed, the highest index
    /// first, each leaving a radiative record at its decay time and its new
    /// position.
    pub fn diffuse_and_decay(&mut self, delta_t_s: u64, steps: &Vec<ExcitonStep>) -> (records:
        Vec<ExcitonBiography>)
        requires
            old(self).wf(),
            steps@.len() == old(self).live().len(),
        ensures
            final(self).wf(),
            final(self).parameters() == old(self).parameters(),
            final(self).live() == sweep(moved(steps@), decayed(steps@, delta_t_s), 0),
            records@ == obituaries(
                moved(steps@),
                decay_times(steps@),
                decayed(steps@, delta_t_s),
                true,
                0,
            ),
    {
        let n: usize = self.cursor;
        let mut marked: Vec<bool> = Vec::new();
        let mut times: Vec<u64> = Vec::new();
        let mut idx: usize = 0;
        while idx < n
            invariant
                idx <= n,
                n == self.cursor,
                n == steps@.len(),
                self.wf(),
                self.exciton_parameters == old(self).exciton_parameters,
                marked@ == decayed(steps@, delta_t_s).take(idx as int),
                times@ == decay_times(steps@).take(idx as int),
                self.excitons@.take(idx as int) == moved(steps@).take(idx as int),
            decreases n - idx,
        {
            let step = steps[idx];
            self.excitons[idx] = step.moved_to;
            marked.push(le(step.decay_draw_s, delta_t_s));
            times.push(step.decay_time_s);
            proof {
                assert(marked@ =~= decayed(steps@, delta_t_s).take(idx + 1));
                assert(times@ =~= decay_times(steps@).take(idx + 1));
                assert(self.excitons@.take(idx + 1) =~= moved(steps@).take(idx + 1));
            }
            idx = idx + 1;
        }
        proof {
            assert(marked@ =~= decayed(steps@, delta_t_s));
            assert(times@ =~= decay_times(steps@));
            assert(self.live() =~= moved(steps@));
        }
        self.sweep_marked(&marked, &times, true)
    }

    /// Decides what the simulation has to attend to next, and takes the next
    /// excitation out of the source where that is the decision.
    ///
    /// `collision_time_s` is the time from which two live excitons could
    /// touch, or `None` where no collision is possible. With an excitation
    /// pending and a collision time known, the earlier of the two wins, and
    /// the excitation where they are equal. With neither, the population
    /// decides: none left, one left, or excitons of radius zero, which
    /// cannot collide.
    pub fn next_critical_event<T: ExcitationSource2D>(
        &self,
        collision_time_s: Option<u64>,
        excitation_source: &mut T,
    ) -> (r: Result<CriticalEvent, ContractViolation>)
        requires
            self.wf(),
            old(excitation_source).wf(),
        ensures
            final(excitation_source).wf(),
            final(excitation_source).events() == old(excitation_source).events(),
            final(excitation_source).parameters() == old(excitation_source).parameters(),
            r == decision(
                pending(old(excitation_source)),
                collision_time_s,
                self.live().len(),
                self.parameters().exciton_radius_m,
            ),
            final(excitation_source).consumed() == if r is Ok
                && r->Ok_0 is NewExcitation {
                old(excitation_source).consumed() + 1
            } else {
                old(excitation_source).consumed()
            },
    {
        let next_time: Option<u64> = match excitation_source.peek() {
            Some(e) => Some(e.time_s()),
            None => None,
        };
        match (next_time, collision_time_s) {
            (None, None) => {
                if self.cursor == 0 {
                    Ok(CriticalEvent::NoExcitonsRemain)
                } else if self.cursor == 1 {
                    Ok(CriticalEvent::OneExcitonRemains)
                } else if is_zero(self.exciton_parameters.exciton_radius_m) {
                    Ok(CriticalEvent::ZeroRadiusExcitons)
                } else {
                    Err(ContractViolation::NothingToWaitFor)
                }
            },
            (None, Some(t)) => Ok(CriticalEvent::ExcitonsCouldCollide(t)),
            (Some(at), collision) => {
                let collision_first: bool = match collision {
                    Some(t) => lt(t, at),
                    None => false,
                };
                if collision_first {
                    Ok(CriticalEvent::ExcitonsCouldCollide(collision.unwrap()))
                } else {
                    match excitation_source.next() {
                        Some(e) => Ok(CriticalEvent::NewExcitation(e)),
                        None => Err(ContractViolation::NothingToWaitFor),
                    }
                }
            },
        }
    }

    /// The record of the last exciton, which decays radiatively at
    /// `destroyed_at_s`, having diffused to `destroyed_at_position`.
    pub fn final_decay_event(self, destroyed_at_s: u64, destroyed_at_position: Coord2D) -> (r:
        ExcitonBiography)
        requires
            self.wf(),
            self.live().len() == 1,
        ensures
            r == (ExcitonBiography {
                destroyed_at_s,
                destroyed_at_position,
                decayed_radiatively: true,
            }),
    {
        ExcitonBiography { destroyed_at_s, destroyed_at_position, decayed_radiatively: true }
    }
}

} // verus!
