//! One run of the simulation, from the first excitation to the end of the
//! last exciton, and what it puts out.
//!
//! The run keeps the clock, the source, the population and the records. Its
//! caller measures and draws what each step needs and hands it in; the run
//! decides and keeps the books.

use crate::binary64::{at_most, le, nan, push_bytes};
use crate::coord2d::Coord2D;
use crate::excitation_source2d::{
    sum_of, sum_of_prefix, ExcitationSource2D, SplittableExcitationParams,
};
use crate::exciton::{ExcitonBiography, ExcitonParameters};
use crate::contact::{annihilated, annihilation_balance, covers, table};
use crate::population::{
    decay_times, decayed, decision, moved, pending, ContractViolation, CriticalEvent,
    ExcitonCollection, ExcitonStep,
};
use crate::contact::{apart_stay, in_contact};
use crate::sweep::{all_radiative, obituaries, obituaries_carry_the_flag, sweep, sweep_balance};
use vstd::prelude::*;

verus! {

/// The records of a run, with the parameters of the source that fed it.
pub struct SimulationOutput<T: SplittableExcitationParams> {
    exciton_biographies: Vec<ExcitonBiography>,
    excitation_source_params: T,
}

/// The records of all the outputs, one output after the other.
pub open spec fn all_records<T: SplittableExcitationParams>(bits: Seq<SimulationOutput<T>>) -> Seq<
    ExcitonBiography,
>
    decreases bits.len(),
{
    if bits.len() == 0 {
        Seq::empty()
    } else {
        all_records(bits.drop_last()) + bits.last().records()
    }
}

/// The bytes of the emission stream: the encodings of the radiative
/// records, in order. Records that are not radiative are left out.
pub open spec fn emission_stream(records: Seq<ExcitonBiography>) -> Seq<u8>
    decreases records.len(),
{
    if records.len() == 0 {
        Seq::empty()
    } else if records.last().decayed_radiatively {
        emission_stream(records.drop_last()) + records.last().encoding()
    } else {
        emission_stream(records.drop_last())
    }
}

/// The outputs taken together hold as many records as they hold one by one.
pub proof fn all_records_count<T: SplittableExcitationParams>(bits: Seq<SimulationOutput<T>>)
    ensures
        all_records(bits).len() == sum_of(
            bits.map_values(|b: SimulationOutput<T>| b.records().len()),
        ),
    decreases bits.len(),
{
    let count = |b: SimulationOutput<T>| b.records().len();
    if bits.len() > 0 {
        all_records_count(bits.drop_last());
        assert(bits.map_values(count).drop_last() =~= bits.drop_last().map_values(count));
    }
}

/// The parameters of the sources of the outputs, in order.
pub open spec fn all_params<T: SplittableExcitationParams>(bits: Seq<SimulationOutput<T>>) -> Seq<
    T,
> {
    bits.map_values(|b: SimulationOutput<T>| b.source_params())
}

/// How many excitations the sources of the outputs yield in all.
pub open spec fn all_excitations<T: SplittableExcitationParams>(
    bits: Seq<SimulationOutput<T>>,
) -> nat {
    sum_of(all_params(bits).map_values(|p: T| p.excitation_count()))
}

/// However a simulation is divided into shards, the shards together put out
/// one record for each of its excitations. Where the outputs are those of
/// the `k` parts that the parameters `whole` divide into, and each holds one
/// record for each excitation of its part, they can be merged, and the
/// merged output holds one record for each excitation of the whole, under
/// parameters that count as many.
pub proof fn shards_account_for_every_excitation<T: SplittableExcitationParams>(
    whole: T,
    k: nat,
    bits: Seq<SimulationOutput<T>>,
)
    requires
        k > 0,
        whole.excitation_count() <= usize::MAX,
        bits.len() == k,
        forall|i: int|
            0 <= i < k ==> (#[trigger] bits[i]).source_params() == whole.split_into(k)[i],
        forall|i: int|
            0 <= i < k ==> (#[trigger] bits[i]).records().len()
                == bits[i].source_params().excitation_count(),
    ensures
        all_excitations(bits) == whole.excitation_count(),
        all_records(bits).len() == whole.excitation_count(),
        T::merged(all_params(bits)).excitation_count() == whole.excitation_count(),
{
    whole.split_shares_out(k);
    all_records_count(bits);
    assert(all_params(bits) =~= whole.split_into(k));
    assert(bits.map_values(|b: SimulationOutput<T>| b.records().len()) =~= all_params(
        bits,
    ).map_values(|p: T| p.excitation_count()));
    T::merged_counts_all(all_params(bits));
}

impl<T: SplittableExcitationParams> SimulationOutput<T> {
    /// The records, in the order in which they were emitted.
    pub closed spec fn records(&self) -> Seq<ExcitonBiography> {
        self.exciton_biographies@
    }

    /// The parameters of the source.
    pub closed spec fn source_params(&self) -> T {
        self.excitation_source_params
    }

    pub fn new(exciton_biographies: Vec<ExcitonBiography>, excitation_source_params: T) -> (r:
        Self)
        ensures
            r.records() == exciton_biographies@,
            r.source_params() == excitation_source_params,
    {
        Self { exciton_biographies, excitation_source_params }
    }

    /// The output of several runs taken together: their records one run
    /// after the other, under the merged parameters of their sources.
    pub fn merge(bits: Vec<Self>) -> (r: Self)
        requires
            bits@.len() > 0,
            all_excitations(bits@) <= usize::MAX,
        ensures
            r.records() == all_records(bits@),
            r.source_params() == T::merged(all_params(bits@)),
            r.source_params().excitation_count() == all_excitations(bits@),
    {
        let ghost all = bits@;
        let mut bits = bits;
        let mut reversed: Vec<Self> = Vec::new();
        while bits.len() > 0
            invariant
                bits@.len() + reversed@.len() == all.len(),
                forall|k: int| 0 <= k < bits@.len() ==> bits@[k] == all[k],
                forall|k: int|
                    0 <= k < reversed@.len() ==> reversed@[k] == all[all.len() - 1 - k],
            decreases bits@.len(),
        {
            match bits.pop() {
                Some(bit) => {
                    reversed.push(bit);
                },
                None => {},
            }
        }
        let mut exciton_biographies: Vec<ExcitonBiography> = Vec::new();
        let mut params: Vec<T> = Vec::new();
        assert(all.take(0) =~= Seq::<Self>::empty());
        assert(all_params(all.take(0)) =~= Seq::<T>::empty());
        while reversed.len() > 0
            invariant
                params@.len() + reversed@.len() == all.len(),
                forall|k: int|
                    0 <= k < reversed@.len() ==> reversed@[k] == all[all.len() - 1 - k],
                params@ == all_params(all.take(params@.len() as int)),
                exciton_biographies@ == all_records(all.take(params@.len() as int)),
            decreases reversed@.len(),
        {
            let ghost done = params@.len() as int;
            match reversed.pop() {
                Some(bit) => {
                    let SimulationOutput {
                        exciton_biographies: mut records,
                        excitation_source_params,
                    } = bit;
                    exciton_biographies.append(&mut records);
                    params.push(excitation_source_params);
                },
                None => {},
            }
            proof {
                assert(all.take(done + 1).drop_last() =~= all.take(done));
                assert(params@ =~= all_params(all.take(done + 1)));
            }
        }
        proof {
            assert(all.take(all.len() as int) =~= all);
            T::merged_counts_all(all_params(all));
        }
        let excitation_source_params = T::merge(params);
        Self { exciton_biographies, excitation_source_params }
    }

    /// The output of several runs taken together, or `None` where there is
    /// no run, or where the runs have more excitations in all than can be
    /// counted.
    pub fn try_merge(bits: Vec<Self>) -> (r: Option<Self>)
        ensures
            r is Some <==> bits@.len() > 0 && all_excitations(bits@) <= usize::MAX,
            r is Some ==> {
                &&& r->Some_0.records() == all_records(bits@)
                &&& r->Some_0.source_params() == T::merged(all_params(bits@))
                &&& r->Some_0.source_params().excitation_count() == all_excitations(bits@)
            },
    {
        if bits.len() == 0 {
            return None;
        }
        let ghost counts = all_params(bits@).map_values(|p: T| p.excitation_count());
        let mut total: usize = 0;
        let mut i: usize = 0;
        assert(counts.take(0) =~= Seq::<nat>::empty());
        while i < bits.len()
            invariant
                i <= bits@.len(),
                counts == all_params(bits@).map_values(|p: T| p.excitation_count()),
                total == sum_of(counts.take(i as int)),
            decreases bits@.len() - i,
        {
            let count: usize = bits[i].excitation_source_params.n_excitations();
            proof {
                sum_of_prefix(counts, i + 1);
                assert(counts.take(i + 1).drop_last() =~= counts.take(i as int));
                assert(counts[i as int] == count);
            }
            if count > usize::MAX - total {
                return None;
            }
            total = total + count;
            i = i + 1;
        }
        assert(counts.take(i as int) =~= counts);
        Some(Self::merge(bits))
    }

    pub fn len(&self) -> (n: usize)
        ensures
            n == self.records().len(),
    {
        self.exciton_biographies.len()
    }

    /// The parameters of the source.
    pub fn params(&self) -> (p: &T)
        ensures
            *p == self.source_params(),
    {
        &self.excitation_source_params
    }

    /// The record at index `i`.
    pub fn biography(&self, i: usize) -> (b: ExcitonBiography)
        requires
            i < self.records().len(),
        ensures
            b == self.records()[i as int],
    {
        self.exciton_biographies[i]
    }

    /// The bytes of the emission stream: the radiative records, twenty-four
    /// bytes each, in order.
    pub fn emission_bytes(&self) -> (bytes: Vec<u8>)
        ensures
            bytes@ == emission_stream(self.records()),
    {
        let mut bytes: Vec<u8> = Vec::new();
        let mut i: usize = 0;
        assert(self.exciton_biographies@.take(0) =~= Seq::<ExcitonBiography>::empty());
        while i < self.exciton_biographies.len()
            invariant
                i <= self.exciton_biographies@.len(),
                bytes@ == emission_stream(self.exciton_biographies@.take(i as int)),
            decreases self.exciton_biographies@.len() - i,
        {
            let record = self.exciton_biographies[i];
            if record.decayed_radiatively {
                let encoded: [u8; 24] = record.to_bytes();
                push_bytes(&mut bytes, encoded.as_slice());
            }
            assert(self.exciton_biographies@.take(i + 1).drop_last()
                =~= self.exciton_biographies@.take(i as int));
            i = i + 1;
        }
        assert(self.exciton_biographies@.take(i as int) =~= self.exciton_biographies@);
        bytes
    }
}

/// A simulation that has not started: the source of excitations and the
/// physical parameters, with the time scale that follows from them.
pub struct Simulation2D<T: ExcitationSource2D> {
    excitation_source: T,
    exciton_parameters: ExcitonParameters,
    minimum_time_step_s: u64,
}

impl<T: ExcitationSource2D> Simulation2D<T> {
    /// The source of excitations.
    pub closed spec fn source(&self) -> T {
        self.excitation_source
    }

    /// The physical parameters.
    pub closed spec fn parameters(&self) -> ExcitonParameters {
        self.exciton_parameters
    }

    /// The floor under the step towards a possible collision.
    pub closed spec fn minimum_time_step(&self) -> u64 {
        self.minimum_time_step_s
    }

    /// A simulation of excitons with the given parameters, fed by the given
    /// source. `minimum_time_step_s` is the floor under the step towards a
    /// possible collision.
    pub fn new(
        exciton_parameters: ExcitonParameters,
        excitation_source: T,
        minimum_time_step_s: u64,
    ) -> (r: Self)
        ensures
            r.source() == excitation_source,
            r.parameters() == exciton_parameters,
            r.minimum_time_step() == minimum_time_step_s,
    {
        Self { excitation_source, exciton_parameters, minimum_time_step_s }
    }

    /// Starts the run: an empty population, no record, and the clock at the
    /// time of the first pending excitation. `None` where the source has no
    /// excitation to give.
    pub fn start(self) -> (r: Option<SimulationRun<T>>)
        requires
            self.source().wf(),
        ensures
            r is Some <==> pending(&self.source()) is Some,
            r is Some ==> {
                let run = r->Some_0;
                &&& run.wf()
                &&& run.source() == self.source()
                &&& run.taken_before() == self.source().consumed()
                &&& run.population().parameters() == self.parameters()
                &&& run.population().live() == Seq::<Coord2D>::empty()
                &&& run.minimum_time_step() == self.minimum_time_step()
                &&& run.clock() == pending(&self.source())->Some_0.time_bits()
                &&& run.records() == Seq::<ExcitonBiography>::empty()
                &&& run.scheduled() is None
            },
    {
        let first: Option<u64> = match self.excitation_source.peek() {
            Some(e) => Some(e.time_s()),
            None => None,
        };
        match first {
            None => None,
            Some(time_s) => {
                let ghost taken = self.excitation_source.consumed();
                proof {
                    self.excitation_source.wf_bounds();
                }
                Some(
                    SimulationRun {
                        excitons: ExcitonCollection::from_parameters(self.exciton_parameters),
                        excitation_source: self.excitation_source,
                        minimum_time_step_s: self.minimum_time_step_s,
                        time_s,
                        biographies: Vec::new(),
                        scheduled: None,
                        taken_before: Ghost(taken),
                    },
                )
            },
        }
    }
}

/// How many excitations a scheduled event has taken out of the source
/// without their exciton being alive yet.
pub open spec fn arriving(scheduled: Option<CriticalEvent>) -> nat {
    if scheduled is Some && scheduled->Some_0 is NewExcitation {
        1
    } else {
        0
    }
}

/// Whether what is scheduled fits the clock, the population and the source.
pub open spec fn schedule_fits<T: ExcitationSource2D>(
    scheduled: Option<CriticalEvent>,
    clock: u64,
    n: nat,
    source: &T,
) -> bool {
    match scheduled {
        None => true,
        Some(CriticalEvent::NewExcitation(e)) => {
            &&& source.consumed() > 0
            &&& e == source.events()[source.consumed() - 1]
            &&& at_most(clock, e.time_bits())
        },
        Some(CriticalEvent::ExcitonsCouldCollide(t)) => {
            &&& at_most(clock, t)
            &&& pending(source) is Some ==> at_most(t, pending(source)->Some_0.time_bits())
        },
        Some(CriticalEvent::OneExcitonRemains) => n == 1 && pending(source) is None,
        Some(CriticalEvent::NoExcitonsRemain) => n == 0 && pending(source) is None,
        Some(CriticalEvent::ZeroRadiusExcitons) => pending(source) is None,
    }
}

/// A simulation under way: the clock, the source, the population of live
/// excitons, the records so far, and what was scheduled and is not carried
/// out yet.
pub struct SimulationRun<T: ExcitationSource2D> {
    excitation_source: T,
    minimum_time_step_s: u64,
    excitons: ExcitonCollection,
    time_s: u64,
    biographies: Vec<ExcitonBiography>,
    scheduled: Option<CriticalEvent>,
    taken_before: Ghost<nat>,
}

/// Whether the state `after` can follow the state `before` in a run: it is
/// a state of the same run, over the same source, its clock is not earlier,
/// and it has all the records of before, in their places.
pub open spec fn follows<T: ExcitationSource2D>(
    before: SimulationRun<T>,
    after: SimulationRun<T>,
) -> bool {
    &&& after.wf()
    &&& after.taken_before() == before.taken_before()
    &&& after.minimum_time_step() == before.minimum_time_step()
    &&& after.population().parameters() == before.population().parameters()
    &&& after.source().events() == before.source().events()
    &&& after.source().parameters() == before.source().parameters()
    &&& before.source().consumed() <= after.source().consumed()
    &&& at_most(before.clock(), after.clock())
    &&& before.records().is_prefix_of(after.records())
}

/// Whether `after` follows `before` with no record added but of radiative
/// decays.
pub open spec fn follows_quietly<T: ExcitationSource2D>(
    before: SimulationRun<T>,
    after: SimulationRun<T>,
) -> bool {
    follows(before, after) && all_radiative(after.records().skip(before.records().len() as int))
}

/// Whether the states are those of a run, one after the other.
pub open spec fn is_run<T: ExcitationSource2D>(states: Seq<SimulationRun<T>>) -> bool {
    &&& states.len() > 0
    &&& states[0].wf()
    &&& forall|i: int| 0 <= i < states.len() - 1 ==> follows(#[trigger] states[i], states[i + 1])
}

/// Whether the states are those of a run in which no record is added but of
/// radiative decays.
pub open spec fn is_quiet_run<T: ExcitationSource2D>(states: Seq<SimulationRun<T>>) -> bool {
    &&& states.len() > 0
    &&& states[0].wf()
    &&& forall|i: int|
        0 <= i < states.len() - 1 ==> follows_quietly(#[trigger] states[i], states[i + 1])
}

impl<T: ExcitationSource2D> SimulationRun<T> {
    /// The source of excitations.
    pub closed spec fn source(&self) -> T {
        self.excitation_source
    }

    /// How many excitations the source had given when the run started.
    pub closed spec fn taken_before(&self) -> nat {
        self.taken_before@
    }

    /// The population of live excitons.
    pub closed spec fn population(&self) -> ExcitonCollection {
        self.excitons
    }

    /// The time that the run has reached.
    pub closed spec fn clock(&self) -> u64 {
        self.time_s
    }

    /// The floor under the step towards a possible collision.
    pub closed spec fn minimum_time_step(&self) -> u64 {
        self.minimum_time_step_s
    }

    /// The records so far, in the order in which they were emitted.
    pub closed spec fn records(&self) -> Seq<ExcitonBiography> {
        self.biographies@
    }

    /// What was decided last and is not carried out yet.
    pub closed spec fn scheduled(&self) -> Option<CriticalEvent> {
        self.scheduled
    }

    /// How many excitations the run has taken out of its source.
    pub open spec fn created(&self) -> int {
        self.source().consumed() - self.taken_before()
    }

    /// The invariant of the run. Every excitation taken out of the source
    /// is accounted for: its exciton is alive, or has left a record, or is
    /// about to arrive. The clock is a number, and no pending excitation
    /// lies before it.
    pub open spec fn wf(&self) -> bool {
        &&& self.source().wf()
        &&& self.population().wf()
        &&& !nan(self.clock())
        &&& self.records().len() + self.population().live().len() + arriving(self.scheduled())
            == self.created()
        &&& pending(&self.source()) is Some ==> at_most(
            self.clock(),
            pending(&self.source())->Some_0.time_bits(),
        )
        &&& schedule_fits(
            self.scheduled(),
            self.clock(),
            self.population().live().len(),
            &self.source(),
        )
    }

    pub fn time_s(&self) -> (t: u64)
        ensures
            t == self.clock(),
    {
        self.time_s
    }

    pub fn minimum_time_step_s(&self) -> (t: u64)
        ensures
            t == self.minimum_time_step(),
    {
        self.minimum_time_step_s
    }

    /// The population of live excitons.
    pub fn excitons(&self) -> (p: &ExcitonCollection)
        ensures
            *p == self.population(),
    {
        &self.excitons
    }

    /// How many records the run has emitted.
    pub fn n_records(&self) -> (n: usize)
        ensures
            n == self.records().len(),
    {
        self.biographies.len()
    }

    /// Resolves the collisions at the time that the run has reached, and
    /// keeps the records of the excitons that were destroyed.
    pub fn annihilate(&mut self, distances: &Vec<Vec<u64>>)
        requires
            old(self).wf(),
            old(self).scheduled() is None,
            covers(table(distances), old(self).population().live().len()),
        ensures
            final(self).wf(),
            final(self).scheduled() is None,
            final(self).source() == old(self).source(),
            final(self).taken_before() == old(self).taken_before(),
            final(self).clock() == old(self).clock(),
            final(self).minimum_time_step() == old(self).minimum_time_step(),
            final(self).population().parameters() == old(self).population().parameters(),
            follows(*old(self), *final(self)),
            old(self).records().is_prefix_of(final(self).records()),
            annihilated(
                old(self).population().live(),
                old(self).population().parameters(),
                old(self).population().contact_distance(),
                table(distances),
                old(self).clock(),
                final(self).population().live(),
                final(self).records().skip(old(self).records().len() as int),
            ),
    {
        let mut records = self.excitons.annihilate(self.time_s, distances);
        proof {
            annihilation_balance(
                old(self).excitons.live(),
                old(self).excitons.parameters(),
                old(self).excitons.contact_distance(),
                table(distances),
                self.time_s,
                self.excitons.live(),
                records@,
            );
        }
        let ghost new_records = records@;
        self.biographies.append(&mut records);
        proof {
            assert(self.biographies@.skip(old(self).biographies@.len() as int) =~= new_records);
        }
    }

    /// Decides what the run has to attend to next, and schedules it.
    ///
    /// `collision_time_s` is the time from which two live excitons could
    /// touch, or `None` where no collision is possible. A collision time
    /// that is no number, or that lies before the clock, is refused, and so
    /// is a population of interacting excitons with nothing to wait for.
    /// Else the decision is that of the population's scheduler.
    pub fn next_critical_event(&mut self, collision_time_s: Option<u64>) -> (r: Result<
        CriticalEvent,
        ContractViolation,
    >)
        requires
            old(self).wf(),
            old(self).scheduled() is None,
        ensures
            final(self).wf(),
            r == if collision_time_s is Some && !at_most(
                old(self).clock(),
                collision_time_s->Some_0,
            ) {
                Err::<CriticalEvent, ContractViolation>(ContractViolation::TimeReversal)
            } else {
                decision(
                    pending(&old(self).source()),
                    collision_time_s,
                    old(self).population().live().len(),
                    old(self).population().parameters().exciton_radius_m,
                )
            },
            final(self).scheduled() == match r {
                Ok(event) => Some(event),
                Err(_) => None,
            },
            follows_quietly(*old(self), *final(self)),
            match r {
                Ok(CriticalEvent::NewExcitation(e)) => at_most(old(self).clock(), e.time_bits()),
                Ok(CriticalEvent::ExcitonsCouldCollide(t)) => at_most(old(self).clock(), t),
                _ => true,
            },
            final(self).source().events() == old(self).source().events(),
            final(self).source().parameters() == old(self).source().parameters(),
            final(self).source().consumed() == old(self).source().consumed() + arriving(
                final(self).scheduled(),
            ),
            final(self).taken_before() == old(self).taken_before(),
            final(self).clock() == old(self).clock(),
            final(self).minimum_time_step() == old(self).minimum_time_step(),
            final(self).population() == old(self).population(),
            final(self).records() == old(self).records(),
    {
        match collision_time_s {
            Some(t) => {
                if !le(self.time_s, t) {
                    return Err(ContractViolation::TimeReversal);
                }
            },
            None => {},
        }
        proof {
            self.excitation_source.wf_bounds();
        }
        let r = self.excitons.next_critical_event(collision_time_s, &mut self.excitation_source);
        match r {
            Ok(event) => {
                self.scheduled = Some(event);
            },
            Err(_) => {},
        }
        proof {
            self.excitation_source.wf_bounds();
        }
        r
    }

    /// Carries out a scheduled excitation or a scheduled step to a possible
    /// collision: every exciton diffuses and may decay, the clock moves to
    /// the time of the event, and the exciton of a new excitation joins the
    /// population.
    ///
    /// `delta_t_s` is the time of the event less the clock, and `steps` what
    /// that step does to each live exciton.
    pub fn advance(&mut self, delta_t_s: u64, steps: &Vec<ExcitonStep>)
        requires
            old(self).wf(),
            old(self).scheduled() is Some,
            old(self).scheduled()->Some_0 is NewExcitation || old(
                self,
            ).scheduled()->Some_0 is ExcitonsCouldCollide,
            steps@.len() == old(self).population().live().len(),
        ensures
            final(self).wf(),
            final(self).scheduled() is None,
            final(self).source() == old(self).source(),
            final(self).taken_before() == old(self).taken_before(),
            final(self).minimum_time_step() == old(self).minimum_time_step(),
            final(self).population().parameters() == old(self).population().parameters(),
            at_most(old(self).clock(), final(self).clock()),
            follows_quietly(*old(self), *final(self)),
            final(self).records() == old(self).records() + obituaries(
                moved(steps@),
                decay_times(steps@),
                decayed(steps@, delta_t_s),
                true,
                0,
            ),
            match old(self).scheduled()->Some_0 {
                CriticalEvent::NewExcitation(e) => {
                    &&& final(self).clock() == e.time_bits()
                    &&& final(self).population().live() == sweep(
                        moved(steps@),
                        decayed(steps@, delta_t_s),
                        0,
                    ).push(e.place())
                },
                CriticalEvent::ExcitonsCouldCollide(t) => {
                    &&& final(self).clock() == t
                    &&& final(self).population().live() == sweep(
                        moved(steps@),
                        decayed(steps@, delta_t_s),
                        0,
                    )
                },
                _ => true,
            },
    {
        proof {
            self.excitation_source.wf_bounds();
            sweep_balance(
                moved(steps@),
                decay_times(steps@),
                decayed(steps@, delta_t_s),
                true,
                0,
            );
        }
        let mut records = self.excitons.diffuse_and_decay(delta_t_s, steps);
        proof {
            obituaries_carry_the_flag(
                moved(steps@),
                decay_times(steps@),
                decayed(steps@, delta_t_s),
                true,
                0,
            );
        }
        let ghost emitted = records@;
        self.biographies.append(&mut records);
        proof {
            assert(self.biographies@.skip(old(self).biographies@.len() as int) =~= emitted);
        }
        match self.scheduled {
            Some(CriticalEvent::NewExcitation(e)) => {
                self.time_s = e.time_s();
                self.excitons.add_exciton(e);
            },
            Some(CriticalEvent::ExcitonsCouldCollide(t)) => {
                self.time_s = t;
            },
            _ => {},
        }
        self.scheduled = None;
    }

    /// Carries out a scheduled step of excitons that cannot collide: every
    /// exciton diffuses and may decay, and the clock moves to `time_s`.
    ///
    /// `delta_t_s` is the mean radiative lifetime, `time_s` the clock plus
    /// that, and `steps` what the step does to each live exciton. A time
    /// that is no number, or that lies before the clock, is refused, and
    /// nothing changes.
    pub fn advance_by_lifetime(&mut self, delta_t_s: u64, steps: &Vec<ExcitonStep>, time_s: u64)
        -> (r: Result<(), ContractViolation>)
        requires
            old(self).wf(),
            old(self).scheduled() == Some(CriticalEvent::ZeroRadiusExcitons),
            steps@.len() == old(self).population().live().len(),
        ensures
            final(self).wf(),
            r == if at_most(old(self).clock(), time_s) {
                Ok::<(), ContractViolation>(())
            } else {
                Err(ContractViolation::TimeReversal)
            },
            r is Err ==> *final(self) == *old(self),
            at_most(old(self).clock(), final(self).clock()),
            follows_quietly(*old(self), *final(self)),
            r is Ok ==> {
                &&& final(self).scheduled() is None
                &&& final(self).source() == old(self).source()
                &&& final(self).taken_before() == old(self).taken_before()
                &&& final(self).minimum_time_step() == old(self).minimum_time_step()
                &&& final(self).population().parameters() == old(
                    self,
                ).population().parameters()
                &&& final(self).clock() == time_s
                &&& final(self).records() == old(self).records() + obituaries(
                    moved(steps@),
                    decay_times(steps@),
                    decayed(steps@, delta_t_s),
                    true,
                    0,
                )
                &&& final(self).population().live() == sweep(
                    moved(steps@),
                    decayed(steps@, delta_t_s),
                    0,
                )
            },
    {
        if !le(self.time_s, time_s) {
            return Err(ContractViolation::TimeReversal);
        }
        proof {
            sweep_balance(
                moved(steps@),
                decay_times(steps@),
                decayed(steps@, delta_t_s),
                true,
                0,
            );
        }
        let mut records = self.excitons.diffuse_and_decay(delta_t_s, steps);
        proof {
            obituaries_carry_the_flag(
                moved(steps@),
                decay_times(steps@),
                decayed(steps@, delta_t_s),
                true,
                0,
            );
        }
        let ghost emitted = records@;
        self.biographies.append(&mut records);
        proof {
            assert(self.biographies@.skip(old(self).biographies@.len() as int) =~= emitted);
        }
        self.time_s = time_s;
        self.scheduled = None;
        Ok(())
    }

    /// Ends the run with the decay of the one exciton that is left: it
    /// decays radiatively at `destroyed_at_s`, having diffused to
    /// `destroyed_at_position`. The output holds one record for every
    /// excitation that the run took out of its source.
    pub fn final_decay(self, destroyed_at_s: u64, destroyed_at_position: Coord2D) -> (r:
        SimulationOutput<T::Params>)
        requires
            self.wf(),
            self.scheduled() == Some(CriticalEvent::OneExcitonRemains),
        ensures
            r.records() == self.records().push(
                ExcitonBiography {
                    destroyed_at_s,
                    destroyed_at_position,
                    decayed_radiatively: true,
                },
            ),
            r.records().len() == self.created(),
            r.records().len() == self.source().events().len() - self.taken_before(),
            r.records().len() + self.taken_before() == r.source_params().excitation_count(),
            all_radiative(self.records()) ==> all_radiative(r.records()),
            r.source_params() == self.source().parameters(),
            self.source().consumed() == self.source().events().len(),
    {
        proof {
            self.excitation_source.wf_bounds();
        }
        let SimulationRun { excitation_source, excitons, mut biographies, .. } = self;
        biographies.push(excitons.final_decay_event(destroyed_at_s, destroyed_at_position));
        SimulationOutput::new(biographies, excitation_source.params())
    }

    /// Ends the run when no exciton is left and none will come. The output
    /// holds one record for every excitation that the run took out of its
    /// source.
    pub fn finish(self) -> (r: SimulationOutput<T::Params>)
        requires
            self.wf(),
            self.scheduled() == Some(CriticalEvent::NoExcitonsRemain),
        ensures
            r.records() == self.records(),
            r.records().len() == self.created(),
            r.records().len() == self.source().events().len() - self.taken_before(),
            r.records().len() + self.taken_before() == r.source_params().excitation_count(),
            r.source_params() == self.source().parameters(),
            self.source().consumed() == self.source().events().len(),
    {
        proof {
            self.excitation_source.wf_bounds();
        }
        let SimulationRun { excitation_source, biographies, .. } = self;
        SimulationOutput::new(biographies, excitation_source.params())
    }
}

/// Mass balance: in a run, every excitation taken out of the source is
/// accounted for exactly once. Its exciton is alive, or has left one record,
/// or is scheduled to arrive.
pub proof fn every_excitation_is_accounted_for<T: ExcitationSource2D>(run: SimulationRun<T>)
    requires
        run.wf(),
    ensures
        run.records().len() + run.population().live().len() + arriving(run.scheduled())
            == run.source().consumed() - run.taken_before(),
        run.scheduled() == Some(CriticalEvent::NoExcitonsRemain) ==> run.records().len()
            == run.source().events().len() - run.taken_before(),
{
    run.source().wf_bounds();
}

/// The clock of a run is a number, and no excitation that the source has yet
/// to give lies before it.
pub proof fn clock_never_passes_an_excitation<T: ExcitationSource2D>(
    run: SimulationRun<T>,
    i: int,
)
    requires
        run.wf(),
        run.source().consumed() <= i < run.source().events().len(),
    ensures
        at_most(run.clock(), run.source().events()[i].time_bits()),
{
    run.source().wf_bounds();
    let events = run.source().events();
    let next = run.source().consumed() as int;
    assert(at_most(run.clock(), events[next].time_bits()));
    assert(at_most(events[next].time_bits(), events[i].time_bits()));
}

/// Clock monotonicity: across a run the clock never runs backwards, and
/// nothing that was recorded is lost or changed. Of two states of a run, the
/// later one is well-formed, its clock is not earlier, and its records begin
/// with those of the earlier one.
pub proof fn a_run_keeps_its_course<T: ExcitationSource2D>(
    states: Seq<SimulationRun<T>>,
    i: int,
    j: int,
)
    requires
        is_run(states),
        0 <= i <= j < states.len(),
    ensures
        states[i].wf(),
        follows(states[i], states[j]),
    decreases j,
{
    if j == 0 {
        assert(states[0].records().is_prefix_of(states[0].records()));
    } else if i == j {
        a_run_keeps_its_course(states, j - 1, j - 1);
        assert(follows(states[j - 1], states[j]));
        assert(states[j].records().is_prefix_of(states[j].records()));
    } else {
        a_run_keeps_its_course(states, i, j - 1);
        assert(follows(states[j - 1], states[j]));
        assert(states[i].records().is_prefix_of(states[j].records()));
    }
}

/// Mass balance of a whole run: a run that starts with no exciton and no
/// record, and ends when none is left and none will come, has emitted one
/// record for each excitation that its source had to give.
pub proof fn a_finished_run_has_a_record_for_each_excitation<T: ExcitationSource2D>(
    states: Seq<SimulationRun<T>>,
)
    requires
        is_run(states),
        states[0].records().len() == 0,
        states[0].population().live().len() == 0,
        states[0].scheduled() is None,
        states.last().scheduled() == Some(CriticalEvent::NoExcitonsRemain),
    ensures
        states.last().records().len() == states[0].source().events().len()
            - states[0].source().consumed(),
{
    a_run_keeps_its_course(states, 0, states.len() - 1);
    states.last().source().wf_bounds();
}

/// Mass balance of a whole run that ends with one exciton left: all but one
/// of the excitations that its source had to give have left a record, and
/// the last one's exciton is the one alive.
pub proof fn a_run_down_to_one_lacks_one_record<T: ExcitationSource2D>(
    states: Seq<SimulationRun<T>>,
)
    requires
        is_run(states),
        states[0].records().len() == 0,
        states[0].population().live().len() == 0,
        states[0].scheduled() is None,
        states.last().scheduled() == Some(CriticalEvent::OneExcitonRemains),
    ensures
        states.last().records().len() + 1 == states[0].source().events().len()
            - states[0].source().consumed(),
        states.last().created() == states[0].source().events().len()
            - states[0].source().consumed(),
{
    a_run_keeps_its_course(states, 0, states.len() - 1);
    states.last().source().wf_bounds();
}

/// A quiet run is a run.
pub proof fn a_quiet_run_is_a_run<T: ExcitationSource2D>(states: Seq<SimulationRun<T>>)
    requires
        is_quiet_run(states),
    ensures
        is_run(states),
{
    assert forall|i: int| 0 <= i < states.len() - 1 implies follows(
        #[trigger] states[i],
        states[i + 1],
    ) by {
        assert(follows_quietly(states[i], states[i + 1]));
    }
}

/// A run in which no record is added but of radiative decays has only
/// records of radiative decays.
pub proof fn a_quiet_run_has_only_radiative_records<T: ExcitationSource2D>(
    states: Seq<SimulationRun<T>>,
    j: int,
)
    requires
        is_quiet_run(states),
        all_radiative(states[0].records()),
        0 <= j < states.len(),
    ensures
        all_radiative(states[j].records()),
    decreases j,
{
    if j > 0 {
        a_quiet_run_has_only_radiative_records(states, j - 1);
        assert(follows_quietly(states[j - 1], states[j]));
        let before = states[j - 1].records();
        let after = states[j].records();
        assert forall|i: int| 0 <= i < after.len() implies (#[trigger] after[i]).decayed_radiatively by {
            if i < before.len() {
                assert(after[i] == before[i]);
            } else {
                assert(after.skip(before.len() as int)[i - before.len()] == after[i]);
            }
        }
    }
}

/// An annihilation pass that finds no two excitons in contact adds no
/// record: where all passes are such, the run is a quiet one.
pub proof fn annihilation_without_contact_is_quiet<T: ExcitationSource2D>(
    before: SimulationRun<T>,
    after: SimulationRun<T>,
    table: Seq<Seq<u64>>,
)
    requires
        follows(before, after),
        annihilated(
            before.population().live(),
            before.population().parameters(),
            before.population().contact_distance(),
            table,
            before.clock(),
            after.population().live(),
            after.records().skip(before.records().len() as int),
        ),
        forall|a: int, b: int|
            0 <= b < a < before.population().live().len() ==> !in_contact(
                table,
                before.population().contact_distance(),
                a,
                b,
            ),
    ensures
        follows_quietly(before, after),
        after.records() == before.records(),
        after.population().live() == before.population().live(),
{
    apart_stay(
        before.population().live(),
        before.population().parameters(),
        before.population().contact_distance(),
        table,
        before.clock(),
        after.population().live(),
        after.records().skip(before.records().len() as int),
    );
    let kept = before.records().len() as int;
    assert(before.records().is_prefix_of(after.records()));
    assert(after.records().skip(kept).len() == after.records().len() - kept);
    assert(after.records() =~= before.records());
}

/// A run in which no two excitons ever come into contact: where it starts
/// with no exciton and no record, adds no record but of radiative decays,
/// and ends when no exciton is left and none will come, it has emitted one
/// record for each excitation that its source had to give, each of a
/// radiative decay.
pub proof fn a_quiet_finished_run_has_a_radiative_record_for_each_excitation<
    T: ExcitationSource2D,
>(states: Seq<SimulationRun<T>>)
    requires
        is_quiet_run(states),
        states[0].records().len() == 0,
        states[0].population().live().len() == 0,
        states[0].scheduled() is None,
        states.last().scheduled() == Some(CriticalEvent::NoExcitonsRemain),
    ensures
        states.last().records().len() == states[0].source().events().len()
            - states[0].source().consumed(),
        all_radiative(states.last().records()),
{
    a_quiet_run_is_a_run(states);
    a_finished_run_has_a_record_for_each_excitation(states);
    a_quiet_run_has_only_radiative_records(states, states.len() - 1);
}

} // verus!
