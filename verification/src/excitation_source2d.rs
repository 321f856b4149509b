//! Excitation events and the sources that yield them in time order.

use crate::binary64::{
    at_most, be_byte, be_bytes, from_be_bytes, is_nan, le, nan, order_key, push_bytes, rank,
    read_be_bytes, same_number,
};
use crate::coord2d::{Coord2D, FloatIsNan};
use vstd::prelude::*;
use vstd::slice::slice_subrange;
use vstd::std_specs::cmp::PartialEqSpecImpl;

verus! {

/// The creation of one exciton: when and where. The time is the bit pattern
/// of a binary64 number and never a NaN.
#[derive(Debug, Clone, Copy, Eq)]
pub struct Excitation2D {
    coord: Coord2D,
    time: u64,
}

impl PartialEq for Excitation2D {
    /// Two events are equal when their times and their places are equal as
    /// numbers.
    fn eq(&self, other: &Self) -> (r: bool) {
        self.coord == other.coord && crate::binary64::eq(self.time, other.time)
    }
}

impl PartialEqSpecImpl for Excitation2D {
    open spec fn obeys_eq_spec() -> bool {
        true
    }

    open spec fn eq_spec(&self, other: &Self) -> bool {
        self.same_event(*other)
    }
}

impl Excitation2D {
    /// Whether two events have times and places that are equal as numbers.
    pub open spec fn same_event(self, other: Self) -> bool {
        &&& same_number(self.place().x_bits(), other.place().x_bits())
        &&& same_number(self.place().y_bits(), other.place().y_bits())
        &&& same_number(self.time_bits(), other.time_bits())
    }

    #[verifier::type_invariant]
    spec fn no_nan(self) -> bool {
        !nan(self.time)
    }

    /// The pattern of the creation time.
    pub closed spec fn time_bits(self) -> u64 {
        self.time
    }

    /// The place of creation.
    pub closed spec fn place(self) -> Coord2D {
        self.coord
    }

    /// The event at the given time and place.
    pub closed spec fn from_parts(time: u64, coord: Coord2D) -> Self {
        Excitation2D { coord, time }
    }

    /// What every event that executable code can hold satisfies.
    pub open spec fn wf(self) -> bool {
        !nan(self.time_bits()) && self.place().wf()
    }

    /// The event at time `time` and place (`x`, `y`), unless one of the
    /// three is a NaN.
    pub fn new(time: u64, x: u64, y: u64) -> (r: Result<Self, FloatIsNan>)
        ensures
            r == if nan(time) || nan(x) || nan(y) {
                Err::<Self, FloatIsNan>(FloatIsNan)
            } else {
                Ok(Self::from_parts(time, Coord2D::from_bits(x, y)))
            },
    {
        match Coord2D::new(x, y) {
            Err(e) => Err(e),
            Ok(coord) => if is_nan(time) {
                Err(FloatIsNan)
            } else {
                Ok(Self { coord, time })
            },
        }
    }

    /// The event at the given time and place, unless the time is a NaN.
    pub fn at(time: u64, coord: Coord2D) -> (r: Result<Self, FloatIsNan>)
        ensures
            r == if nan(time) {
                Err::<Self, FloatIsNan>(FloatIsNan)
            } else {
                Ok(Self::from_parts(time, coord))
            },
    {
        if is_nan(time) {
            Err(FloatIsNan)
        } else {
            Ok(Self { coord, time })
        }
    }

    pub fn time_s(&self) -> (r: u64)
        ensures
            r == self.time_bits(),
            !nan(r),
    {
        proof {
            use_type_invariant(self);
        }
        self.time
    }

    pub fn into_coord(self) -> (r: Coord2D)
        ensures
            r == self.place(),
    {
        self.coord
    }

    /// The twenty-four bytes that encode the event: the time, then the
    /// place.
    pub open spec fn encoding(self) -> Seq<u8> {
        be_bytes(self.time_bits()) + self.place().encoding()
    }

    /// The event that twenty-four bytes spell.
    pub open spec fn decoding(bytes: Seq<u8>) -> Self {
        Self::from_parts(from_be_bytes(bytes.subrange(0, 8)), Coord2D::decoding(bytes.subrange(8, 24)))
    }

    /// Whether `bytes` are the encoding of an event: twenty-four bytes, none
    /// of the three numbers a NaN.
    pub open spec fn encodes_event(bytes: Seq<u8>) -> bool {
        &&& bytes.len() == 24
        &&& !nan(from_be_bytes(bytes.subrange(0, 8)))
        &&& Coord2D::encodes_point(bytes.subrange(8, 24))
    }

    /// The twenty-four bytes of the event: the time, then the place.
    pub fn to_bytes(self) -> (bytes: [u8; 24])
        ensures
            bytes@ == self.encoding(),
    {
        let coord_bytes: [u8; 16] = self.coord.to_bytes();
        let mut result: [u8; 24] = [0; 24];
        let mut i: usize = 0;
        while i < 8
            invariant
                i <= 8,
                forall|k: int| 0 <= k < i ==> result@[k] == be_bytes(self.time)[k],
            decreases 8 - i,
        {
            result[i] = be_byte(self.time, i);
            i = i + 1;
        }
        let mut j: usize = 0;
        while j < 16
            invariant
                j <= 16,
                forall|k: int| 0 <= k < 8 ==> result@[k] == be_bytes(self.time)[k],
                forall|k: int| 0 <= k < j ==> result@[8 + k] == coord_bytes@[k],
            decreases 16 - j,
        {
            result[j + 8] = coord_bytes[j];
            j = j + 1;
        }
        assert(result@ =~= self.encoding());
        result
    }

    /// The event that twenty-four bytes encode.
    pub fn from_bytes(time_coord: &[u8]) -> (r: Self)
        requires
            Self::encodes_event(time_coord@),
        ensures
            r == Self::decoding(time_coord@),
            r.wf(),
    {
        let time: u64 = read_be_bytes(time_coord, 0);
        let coord = Coord2D::from_bytes(slice_subrange(time_coord, 8, 24));
        Self { coord, time }
    }

    /// The event that `bytes` encode, or `None` where they encode none.
    pub fn try_from_bytes(bytes: &[u8]) -> (r: Option<Self>)
        ensures
            r == if Self::encodes_event(bytes@) {
                Some(Self::decoding(bytes@))
            } else {
                None
            },
    {
        if bytes.len() != 24 {
            return None;
        }
        let time: u64 = read_be_bytes(bytes, 0);
        if is_nan(time) {
            return None;
        }
        match Coord2D::try_from_bytes(slice_subrange(bytes, 8, 24)) {
            None => None,
            Some(coord) => Some(Self { coord, time }),
        }
    }

    /// The parts of an event are the time and place it was made of.
    pub proof fn from_parts_components(time: u64, coord: Coord2D)
        ensures
            Self::from_parts(time, coord).time_bits() == time,
            Self::from_parts(time, coord).place() == coord,
    {
    }

    /// Decoding the bytes of an event gives the event back, bit for bit.
    pub proof fn decoding_inverts_encoding(e: Self)
        requires
            e.wf(),
        ensures
            Self::encodes_event(e.encoding()),
            Self::decoding(e.encoding()) == e,
    {
        let bytes = e.encoding();
        crate::binary64::be_bytes_round_trip(e.time);
        Coord2D::decoding_inverts_encoding(e.coord);
        assert(bytes.subrange(0, 8) =~= be_bytes(e.time));
        assert(bytes.subrange(8, 24) =~= e.coord.encoding());
    }
}

/// Whether the events come in non-decreasing order of time.
pub open spec fn time_ordered(events: Seq<Excitation2D>) -> bool {
    forall|i: int, j: int|
        0 <= i <= j < events.len() ==> at_most(
            #[trigger] events[i].time_bits(),
            #[trigger] events[j].time_bits(),
        )
}

/// A producer of excitation events in non-decreasing order of time, read by
/// looking at the next event and by taking it.
pub trait ExcitationSource2D {
    type Params: SplittableExcitationParams;

    /// Every event of the source, consumed or not, in the order of yield.
    spec fn events(&self) -> Seq<Excitation2D>;

    /// How many events have been taken.
    spec fn consumed(&self) -> nat;

    /// The parameters that the source was made with.
    spec fn parameters(&self) -> Self::Params;

    /// The invariant of the source.
    spec fn wf(&self) -> bool;

    /// A well-formed source has taken no more events than it holds, holds
    /// as many as its parameters count, and holds them in non-decreasing
    /// order of time.
    proof fn wf_bounds(&self)
        requires
            self.wf(),
        ensures
            self.consumed() <= self.events().len() <= usize::MAX,
            self.events().len() == self.parameters().excitation_count(),
            time_ordered(self.events()),
    ;

    /// The event at index `n`, if there is one.
    fn nth(&self, n: usize) -> (r: Option<&Excitation2D>)
        requires
            self.wf(),
        ensures
            r == if n < self.events().len() {
                Some(&self.events()[n as int])
            } else {
                None
            },
    ;

    /// The next event, which stays in the source.
    fn peek(&self) -> (r: Option<&Excitation2D>)
        requires
            self.wf(),
        ensures
            r == if self.consumed() < self.events().len() {
                Some(&self.events()[self.consumed() as int])
            } else {
                None
            },
    ;

    /// Takes the next event out of the source.
    fn next(&mut self) -> (r: Option<Excitation2D>)
        requires
            old(self).wf(),
        ensures
            final(self).wf(),
            final(self).events() == old(self).events(),
            final(self).parameters() == old(self).parameters(),
            r == if old(self).consumed() < old(self).events().len() {
                Some(old(self).events()[old(self).consumed() as int])
            } else {
                None
            },
            final(self).consumed() == if old(self).consumed() < old(self).events().len() {
                old(self).consumed() + 1
            } else {
                old(self).consumed()
            },
    ;

    /// The parameters that the source was made with.
    fn params(&self) -> (r: Self::Params)
        requires
            self.wf(),
        ensures
            r == self.parameters(),
    ;
}

/// The sum of the counts.
pub open spec fn sum_of(counts: Seq<nat>) -> nat
    decreases counts.len(),
{
    if counts.len() == 0 {
        0
    } else {
        sum_of(counts.drop_last()) + counts.last()
    }
}

/// Parameters of a source that can be divided among independent runs and
/// put together again.
pub trait SplittableExcitationParams: Sized {
    /// How many excitations a source with these parameters yields.
    spec fn excitation_count(&self) -> nat;

    /// The parameters of the `n` parts that these divide into.
    spec fn split_into(&self, n: nat) -> Seq<Self>;

    /// The parameters of the parts taken together.
    spec fn merged(parts: Seq<Self>) -> Self;

    /// The parts that parameters divide into are as many as asked for, and
    /// together they yield as many excitations as the whole.
    proof fn split_shares_out(&self, n: nat)
        ensures
            self.split_into(n).len() == n,
            n > 0 ==> sum_of(self.split_into(n).map_values(|p: Self| p.excitation_count()))
                == self.excitation_count(),
    ;

    /// The parts taken together yield as many excitations as the parts do
    /// in all, where that many can be counted.
    proof fn merged_counts_all(parts: Seq<Self>)
        requires
            parts.len() > 0,
            sum_of(parts.map_values(|p: Self| p.excitation_count())) <= usize::MAX,
        ensures
            Self::merged(parts).excitation_count() == sum_of(
                parts.map_values(|p: Self| p.excitation_count()),
            ),
    ;

    /// How many excitations a source with these parameters yields.
    fn n_excitations(&self) -> (n: usize)
        ensures
            n == self.excitation_count(),
    ;

    /// Parameters for `n` independent runs.
    fn split(&self, n: usize) -> (parts: Vec<Self>)
        ensures
            parts@ == self.split_into(n as nat),
    ;

    /// The parameters of the runs taken together.
    fn merge(parts: Vec<Self>) -> (merged: Self)
        requires
            parts@.len() > 0,
            sum_of(parts@.map_values(|p: Self| p.excitation_count())) <= usize::MAX,
        ensures
            merged == Self::merged(parts@),
    ;
}

/// The first `k` counts sum to no more than all of them.
pub proof fn sum_of_prefix(counts: Seq<nat>, k: int)
    requires
        0 <= k <= counts.len(),
    ensures
        sum_of(counts.take(k)) <= sum_of(counts),
    decreases counts.len(),
{
    if k == counts.len() {
        assert(counts.take(k) =~= counts);
    } else {
        sum_of_prefix(counts.drop_last(), k);
        assert(counts.drop_last().take(k) =~= counts.take(k));
    }
}

/// A pulsed excitation with Gaussian profiles in space and in time. The
/// three widths and rates are bit patterns of binary64 numbers.
#[derive(Debug, Clone, Copy)]
pub struct PulsedExcitationGaussian2DParams {
    pub spot_fwhm_m: u64,
    pub repetition_rate_hz: u64,
    pub pulse_fwhm_s: u64,
    pub n_excitations: usize,
    pub n_pulses: usize,
}

impl PartialEq for PulsedExcitationGaussian2DParams {
    /// Parameters are equal when their counts are equal and their three
    /// quantities are equal as numbers.
    fn eq(&self, other: &Self) -> (r: bool) {
        crate::binary64::eq(self.spot_fwhm_m, other.spot_fwhm_m) && crate::binary64::eq(
            self.repetition_rate_hz,
            other.repetition_rate_hz,
        ) && crate::binary64::eq(self.pulse_fwhm_s, other.pulse_fwhm_s) && self.n_excitations
            == other.n_excitations && self.n_pulses == other.n_pulses
    }
}

impl PartialEqSpecImpl for PulsedExcitationGaussian2DParams {
    open spec fn obeys_eq_spec() -> bool {
        true
    }

    open spec fn eq_spec(&self, other: &Self) -> bool {
        self.same_params(*other)
    }
}

impl PulsedExcitationGaussian2DParams {
    /// Whether two sets of parameters have equal counts and quantities that
    /// are equal as numbers.
    pub open spec fn same_params(self, other: Self) -> bool {
        &&& same_number(self.spot_fwhm_m, other.spot_fwhm_m)
        &&& same_number(self.repetition_rate_hz, other.repetition_rate_hz)
        &&& same_number(self.pulse_fwhm_s, other.pulse_fwhm_s)
        &&& self.n_excitations == other.n_excitations
        &&& self.n_pulses == other.n_pulses
    }
}

/// The share of part `i` when `total` excitations are divided among `n`
/// parts: the quotient, and one more for as many of the first parts as the
/// remainder counts.
pub open spec fn share(total: nat, n: nat, i: int) -> nat
    recommends
        n > 0,
        0 <= i < n,
{
    if i < total % n {
        total / n + 1
    } else {
        total / n
    }
}

/// The first `k` shares of `total` among `n` parts, in all.
pub open spec fn shares_before(total: nat, n: nat, k: int) -> int
    recommends
        n > 0,
        0 <= k <= n,
{
    k * (total / n) + if k <= total % n {
        k
    } else {
        (total % n) as int
    }
}

impl PulsedExcitationGaussian2DParams {
    /// These parameters with another count of excitations.
    pub open spec fn with_count(self, n_excitations: usize) -> Self {
        PulsedExcitationGaussian2DParams { n_excitations, ..self }
    }
}

/// The counts of the first `k` shares of `total` among `n` parts.
pub open spec fn shares(total: nat, n: nat, k: nat) -> Seq<nat> {
    Seq::new(k, |i: int| share(total, n, i))
}

/// All the shares of `total` among `n` parts sum to `total`.
pub proof fn shares_sum_all(total: nat, n: nat)
    requires
        n > 0,
    ensures
        sum_of(shares(total, n, n)) == total,
{
    shares_sum_upto(total, n, n);
    vstd::arithmetic::div_mod::lemma_fundamental_div_mod(total as int, n as int);
}

/// The first `k` shares of `total` among `n` parts sum to `k` quotients and
/// as many ones as the remainder allows.
proof fn shares_sum_upto(total: nat, n: nat, k: nat)
    requires
        n > 0,
        k <= n,
    ensures
        sum_of(shares(total, n, k)) == shares_before(total, n, k as int),
    decreases k,
{
    let quotient = total / n;
    if k > 0 {
        shares_sum_upto(total, n, (k - 1) as nat);
        assert(shares(total, n, k).drop_last() =~= shares(total, n, (k - 1) as nat));
        assert(k * quotient == (k - 1) * quotient + quotient) by (nonlinear_arith);
    }
}

impl SplittableExcitationParams for PulsedExcitationGaussian2DParams {
    open spec fn excitation_count(&self) -> nat {
        self.n_excitations as nat
    }

    /// Each part is as the whole, with its share of the excitations.
    open spec fn split_into(&self, n: nat) -> Seq<Self> {
        Seq::new(n, |i: int| self.with_count(share(self.n_excitations as nat, n, i) as usize))
    }

    /// The parameters of the first part, with the excitations of all parts.
    open spec fn merged(parts: Seq<Self>) -> Self {
        parts[0].with_count(sum_of(parts.map_values(|p: Self| p.excitation_count())) as usize)
    }

    proof fn split_shares_out(&self, n: nat) {
        if n > 0 {
            let total = self.n_excitations as nat;
            shares_sum_all(total, n);
            shares_fit(total, n);
            assert(self.split_into(n).map_values(|p: Self| p.excitation_count()) =~= shares(
                total,
                n,
                n,
            ));
        }
    }

    proof fn merged_counts_all(parts: Seq<Self>) {
    }

    fn n_excitations(&self) -> (n: usize) {
        self.n_excitations
    }

    fn split(&self, n: usize) -> (parts: Vec<Self>) {
        let mut parts: Vec<Self> = Vec::new();
        if n == 0 {
            assert(parts@ =~= self.split_into(0));
            return parts;
        }
        let quotient: usize = self.n_excitations / n;
        let remainder: usize = self.n_excitations % n;
        let mut i: usize = 0;
        proof {
            shares_fit(self.n_excitations as nat, n as nat);
            if remainder > 0 {
                assert(share(self.n_excitations as nat, n as nat, 0) == quotient + 1);
            }
        }
        while i < n
            invariant
                0 < n,
                i <= n,
                quotient == self.n_excitations / n,
                remainder == self.n_excitations % n,
                remainder > 0 ==> quotient < usize::MAX,
                parts@.len() == i,
                forall|k: int|
                    0 <= k < i ==> #[trigger] parts@[k] == self.with_count(
                        share(self.n_excitations as nat, n as nat, k) as usize,
                    ),
            decreases n - i,
        {
            let count: usize = if i < remainder {
                quotient + 1
            } else {
                quotient
            };
            parts.push(
                PulsedExcitationGaussian2DParams {
                    spot_fwhm_m: self.spot_fwhm_m,
                    repetition_rate_hz: self.repetition_rate_hz,
                    pulse_fwhm_s: self.pulse_fwhm_s,
                    n_excitations: count,
                    n_pulses: self.n_pulses,
                },
            );
            i = i + 1;
        }
        assert(parts@ =~= self.split_into(n as nat));
        parts
    }

    fn merge(parts: Vec<Self>) -> (merged: Self) {
        let mut total: usize = 0;
        let mut i: usize = 0;
        let ghost counts = parts@.map_values(|p: Self| p.excitation_count());
        assert(counts.take(0) =~= Seq::<nat>::empty());
        while i < parts.len()
            invariant
                i <= parts@.len(),
                counts == parts@.map_values(|p: Self| p.excitation_count()),
                sum_of(counts) <= usize::MAX,
                total == sum_of(counts.take(i as int)),
            decreases parts@.len() - i,
        {
            proof {
                sum_of_prefix(counts, i + 1);
                assert(counts.take(i + 1).drop_last() =~= counts.take(i as int));
            }
            total = total + parts[i].n_excitations;
            i = i + 1;
        }
        assert(counts.take(i as int) =~= counts);
        let first = parts[0];
        PulsedExcitationGaussian2DParams {
            spot_fwhm_m: first.spot_fwhm_m,
            repetition_rate_hz: first.repetition_rate_hz,
            pulse_fwhm_s: first.pulse_fwhm_s,
            n_excitations: total,
            n_pulses: first.n_pulses,
        }
    }
}

/// No share of `total` is more than `total`.
pub proof fn shares_fit(total: nat, n: nat)
    requires
        n > 0,
    ensures
        forall|i: int| 0 <= i < n ==> #[trigger] share(total, n, i) <= total,
{
    vstd::arithmetic::div_mod::lemma_fundamental_div_mod(total as int, n as int);
    let quotient = total / n;
    assert(quotient <= n * quotient) by (nonlinear_arith)
        requires
            n >= 1,
            quotient >= 0,
    ;
}

/// Merging the parts that a split gives restores the parameters.
pub proof fn merge_undoes_split(whole: PulsedExcitationGaussian2DParams, n: nat)
    requires
        n > 0,
    ensures
        PulsedExcitationGaussian2DParams::merged(whole.split_into(n)) == whole,
{
    whole.split_shares_out(n);
    shares_fit(whole.n_excitations as nat, n);
}

/// Why a source could not be made.
#[derive(Debug, Clone, Copy, PartialEq, Eq, Structural)]
pub enum SourceError {
    /// The bytes are not a whole number of twenty-four-byte events.
    Malformed,
    /// A time or a coordinate is a NaN.
    NotANumber,
    /// There are not as many events as the parameters say.
    CountMismatch,
    /// A later event has an earlier time.
    NotTimeOrdered,
}

/// The bytes that persist the events: their encodings, one after the other.
pub open spec fn encoded_events(events: Seq<Excitation2D>) -> Seq<u8>
    decreases events.len(),
{
    if events.len() == 0 {
        Seq::empty()
    } else {
        encoded_events(events.drop_last()) + events.last().encoding()
    }
}

/// The `i`-th run of twenty-four bytes.
pub open spec fn event_chunk(bytes: Seq<u8>, i: int) -> Seq<u8> {
    bytes.subrange(24 * i, 24 * i + 24)
}

/// Whether `bytes` persist events: a whole number of runs of twenty-four
/// bytes, each the encoding of an event.
pub open spec fn encode_events(bytes: Seq<u8>) -> bool {
    &&& bytes.len() % 24 == 0
    &&& forall|i: int|
        0 <= i < bytes.len() / 24 ==> Excitation2D::encodes_event(#[trigger] event_chunk(bytes, i))
}

/// The events that the bytes persist, in order.
pub open spec fn decoded_events(bytes: Seq<u8>) -> Seq<Excitation2D> {
    Seq::new((bytes.len() / 24) as nat, |i: int| Excitation2D::decoding(event_chunk(bytes, i)))
}

/// The bytes that persist `events` are twenty-four for each, and the run of
/// bytes at place `i` is the encoding of the event at `i`.
pub proof fn encoded_events_chunks(events: Seq<Excitation2D>)
    ensures
        encoded_events(events).len() == 24 * events.len(),
        forall|i: int|
            0 <= i < events.len() ==> #[trigger] event_chunk(encoded_events(events), i)
                == events[i].encoding(),
    decreases events.len(),
{
    if events.len() > 0 {
        let front = events.drop_last();
        let last = events.last();
        encoded_events_chunks(front);
        crate::binary64::be_bytes_round_trip(last.time_bits());
        crate::binary64::be_bytes_round_trip(last.place().x_bits());
        crate::binary64::be_bytes_round_trip(last.place().y_bits());
        assert(last.encoding().len() == 24);
        let all = encoded_events(events);
        assert forall|i: int| 0 <= i < events.len() implies #[trigger] event_chunk(all, i)
            == events[i].encoding() by {
            if i < front.len() {
                assert(event_chunk(all, i) =~= event_chunk(encoded_events(front), i));
                assert(front[i] == events[i]);
            } else {
                assert(event_chunk(all, i) =~= last.encoding());
            }
        }
    }
}

/// Decoding the bytes that persist events gives the events back, bit for
/// bit.
pub proof fn saved_events_round_trip(events: Seq<Excitation2D>)
    requires
        forall|i: int| 0 <= i < events.len() ==> (#[trigger] events[i]).wf(),
    ensures
        encode_events(encoded_events(events)),
        decoded_events(encoded_events(events)) == events,
{
    encoded_events_chunks(events);
    let bytes = encoded_events(events);
    assert(bytes.len() / 24 == events.len());
    assert forall|i: int| 0 <= i < bytes.len() / 24 implies Excitation2D::encodes_event(
        #[trigger] event_chunk(bytes, i),
    ) && Excitation2D::decoding(event_chunk(bytes, i)) == events[i] by {
        Excitation2D::decoding_inverts_encoding(events[i]);
    }
    assert(decoded_events(bytes) =~= events);
}

/// The source of a pulsed excitation: its events, already drawn, and how
/// many of them were taken.
#[derive(Debug, Clone)]
pub struct PulsedExcitationGaussian2D {
    params: PulsedExcitationGaussian2DParams,
    cursor: usize,
    excitations: Vec<Excitation2D>,
}

impl PartialEq for PulsedExcitationGaussian2D {
    /// Two sources are equal when their parameters are equal, they have
    /// given as many events, and they hold equal events in the same order.
    fn eq(&self, other: &Self) -> (r: bool) {
        if !(self.params == other.params) || self.cursor != other.cursor
            || self.excitations.len() != other.excitations.len() {
            return false;
        }
        let mut i: usize = 0;
        while i < self.excitations.len()
            invariant
                i <= self.excitations@.len(),
                self.excitations@.len() == other.excitations@.len(),
                forall|k: int|
                    0 <= k < i ==> (#[trigger] self.excitations@[k]).same_event(
                        other.excitations@[k],
                    ),
            decreases self.excitations@.len() - i,
        {
            if !(self.excitations[i] == other.excitations[i]) {
                return false;
            }
            i = i + 1;
        }
        true
    }
}

impl PartialEqSpecImpl for PulsedExcitationGaussian2D {
    open spec fn obeys_eq_spec() -> bool {
        true
    }

    open spec fn eq_spec(&self, other: &Self) -> bool {
        &&& self.parameters().same_params(other.parameters())
        &&& self.consumed() == other.consumed()
        &&& self.events().len() == other.events().len()
        &&& forall|k: int|
            0 <= k < self.events().len() ==> (#[trigger] self.events()[k]).same_event(
                other.events()[k],
            )
    }
}

impl PulsedExcitationGaussian2D {
    /// Whether `r` is what making a source of the given places and times
    /// gives. It fails unless there are as many places and as many times as
    /// the parameters count excitations, and no time is a NaN. Else the
    /// source holds the events that pair the places, in the order given,
    /// with the times, in non-decreasing order.
    pub open spec fn made_of(
        params: PulsedExcitationGaussian2DParams,
        coords: Seq<Coord2D>,
        times: Seq<u64>,
        r: Result<Self, SourceError>,
    ) -> bool {
        &&& r is Ok <==> {
            &&& coords.len() == params.n_excitations
            &&& times.len() == params.n_excitations
            &&& forall|i: int| 0 <= i < times.len() ==> !nan(#[trigger] times[i])
        }
        &&& r is Err ==> r->Err_0 == if coords.len() != params.n_excitations || times.len()
            != params.n_excitations {
            SourceError::CountMismatch
        } else {
            SourceError::NotANumber
        }
        &&& r is Ok ==> exists|sorted: Seq<u64>|
            {
                &&& #[trigger] in_order_of_number(times, sorted)
                &&& r->Ok_0.events() == paired(coords, sorted)
                &&& r->Ok_0.wf()
                &&& r->Ok_0.consumed() == 0
                &&& r->Ok_0.parameters() == params
            }
    }

    /// The source over the events that pair the places, in the order given,
    /// with the times, in non-decreasing order. There must be as many places
    /// and as many times as the parameters count excitations, and no time
    /// may be a NaN.
    pub fn new(
        params: PulsedExcitationGaussian2DParams,
        coords: Vec<Coord2D>,
        times: Vec<u64>,
    ) -> (r: Result<Self, SourceError>)
        ensures
            Self::made_of(params, coords@, times@, r),
    {
        if coords.len() != params.n_excitations || times.len() != params.n_excitations {
            return Err(SourceError::CountMismatch);
        }
        let mut sorted = times;
        sort_by_number(&mut sorted);
        proof {
            times@.to_multiset_ensures();
            sorted@.to_multiset_ensures();
            assert forall|a: u64| sorted@.contains(a) <==> times@.contains(a) by {
                assert(sorted@.to_multiset().count(a) == times@.to_multiset().count(a));
            }
        }
        let mut excitations: Vec<Excitation2D> = Vec::new();
        let mut i: usize = 0;
        while i < sorted.len()
            invariant
                i <= sorted@.len(),
                coords@.len() == params.n_excitations,
                sorted@.len() == params.n_excitations,
                times@.len() == params.n_excitations,
                forall|a: u64| sorted@.contains(a) <==> times@.contains(a),
                forall|k: int| 0 <= k < i ==> !nan(#[trigger] sorted@[k]),
                excitations@ == paired(coords@, sorted@).take(i as int),
            decreases sorted@.len() - i,
        {
            match Excitation2D::at(sorted[i], coords[i]) {
                Err(_) => {
                    proof {
                        assert(sorted@.contains(sorted@[i as int]));
                        let at = choose|at: int|
                            0 <= at < times@.len() && times@[at] == sorted@[i as int];
                        assert(nan(times@[at]));
                    }
                    return Err(SourceError::NotANumber);
                },
                Ok(e) => {
                    excitations.push(e);
                },
            }
            assert(excitations@ =~= paired(coords@, sorted@).take(i + 1));
            i = i + 1;
        }
        proof {
            assert(excitations@ =~= paired(coords@, sorted@));
            assert forall|k: int| 0 <= k < times@.len() implies !nan(#[trigger] times@[k]) by {
                assert(times@.contains(times@[k]));
                let at = choose|at: int| 0 <= at < sorted@.len() && sorted@[at] == times@[k];
            }
            assert(in_order_of_number(times@, sorted@));
            assert forall|a: int, b: int| 0 <= a <= b < excitations@.len() implies at_most(
                #[trigger] excitations@[a].time_bits(),
                #[trigger] excitations@[b].time_bits(),
            ) by {
                assert(at_most(sorted@[a], sorted@[b]));
            }
        }
        Ok(Self { params, cursor: 0, excitations })
    }

    /// The source over the events that `bytes` persist.
    pub fn from_saved(params: PulsedExcitationGaussian2DParams, bytes: &[u8]) -> (r: Result<
        Self,
        SourceError,
    >)
        ensures
            r is Ok <==> {
                &&& encode_events(bytes@)
                &&& decoded_events(bytes@).len() == params.n_excitations
                &&& time_ordered(decoded_events(bytes@))
            },
            r is Err ==> r->Err_0 == if bytes@.len() % 24 != 0 {
                SourceError::Malformed
            } else if !encode_events(bytes@) {
                SourceError::NotANumber
            } else if decoded_events(bytes@).len() != params.n_excitations {
                SourceError::CountMismatch
            } else {
                SourceError::NotTimeOrdered
            },
            r is Ok ==> {
                &&& r->Ok_0.wf()
                &&& r->Ok_0.events() == decoded_events(bytes@)
                &&& r->Ok_0.consumed() == 0
                &&& r->Ok_0.parameters() == params
            },
    {
        if bytes.len() % 24 != 0 {
            return Err(SourceError::Malformed);
        }
        let count: usize = bytes.len() / 24;
        let mut excitations: Vec<Excitation2D> = Vec::new();
        let mut i: usize = 0;
        while i < count
            invariant
                i <= count,
                count == bytes@.len() / 24,
                bytes@.len() == 24 * count,
                bytes@.len() <= usize::MAX,
                forall|k: int|
                    0 <= k < i ==> Excitation2D::encodes_event(#[trigger] event_chunk(bytes@, k)),
                excitations@ == decoded_events(bytes@).take(i as int),
            decreases count - i,
        {
            let chunk = slice_subrange(bytes, 24 * i, 24 * i + 24);
            assert(chunk@ == event_chunk(bytes@, i as int));
            match Excitation2D::try_from_bytes(chunk) {
                None => {
                    assert(!Excitation2D::encodes_event(event_chunk(bytes@, i as int)));
                    return Err(SourceError::NotANumber);
                },
                Some(e) => {
                    excitations.push(e);
                },
            }
            assert(excitations@ =~= decoded_events(bytes@).take(i + 1));
            i = i + 1;
        }
        assert(excitations@ =~= decoded_events(bytes@));
        Self::assemble(params, excitations)
    }

    /// The source over the given events, where they are as many as the
    /// parameters say and come in non-decreasing order of time.
    fn assemble(params: PulsedExcitationGaussian2DParams, excitations: Vec<Excitation2D>) -> (r:
        Result<Self, SourceError>)
        ensures
            r is Ok <==> excitations@.len() == params.n_excitations && time_ordered(
                excitations@,
            ),
            r is Err ==> r->Err_0 == if excitations@.len() != params.n_excitations {
                SourceError::CountMismatch
            } else {
                SourceError::NotTimeOrdered
            },
            r is Ok ==> {
                &&& r->Ok_0.wf()
                &&& r->Ok_0.events() == excitations@
                &&& r->Ok_0.consumed() == 0
                &&& r->Ok_0.parameters() == params
            },
    {
        if excitations.len() != params.n_excitations {
            return Err(SourceError::CountMismatch);
        }
        if excitations.len() == 0 {
            assert(time_ordered(excitations@));
            return Ok(Self { params, cursor: 0, excitations });
        }
        let first: u64 = excitations[0].time_s();
        let mut i: usize = 1;
        while i < excitations.len()
            invariant
                1 <= i <= excitations@.len(),
                excitations@.len() == params.n_excitations,
                forall|k: int|
                    0 <= k < i ==> !nan((#[trigger] excitations@[k]).time_bits()),
                forall|k: int|
                    0 < k < i && k < excitations@.len() ==> at_most(
                        excitations@[k - 1].time_bits(),
                        (#[trigger] excitations@[k]).time_bits(),
                    ),
            decreases excitations@.len() - i,
        {
            let earlier: u64 = excitations[i - 1].time_s();
            let later: u64 = excitations[i].time_s();
            if !le(earlier, later) {
                assert(!time_ordered(excitations@)) by {
                    if time_ordered(excitations@) {
                        assert(at_most(
                            excitations@[i - 1].time_bits(),
                            excitations@[i as int].time_bits(),
                        ));
                    }
                }
                return Err(SourceError::NotTimeOrdered);
            }
            i = i + 1;
        }
        proof {
            adjacent_order_is_order(excitations@);
        }
        Ok(Self { params, cursor: 0, excitations })
    }

    /// The bytes that persist the events of the source, consumed or not.
    pub fn excitation_bytes(&self) -> (bytes: Vec<u8>)
        requires
            self.wf(),
        ensures
            bytes@ == encoded_events(self.events()),
    {
        let mut bytes: Vec<u8> = Vec::new();
        let mut i: usize = 0;
        assert(self.excitations@.take(0) =~= Seq::<Excitation2D>::empty());
        while i < self.excitations.len()
            invariant
                i <= self.excitations@.len(),
                bytes@ == encoded_events(self.excitations@.take(i as int)),
            decreases self.excitations@.len() - i,
        {
            let encoded: [u8; 24] = self.excitations[i].to_bytes();
            push_bytes(&mut bytes, encoded.as_slice());
            assert(self.excitations@.take(i + 1).drop_last() =~= self.excitations@.take(i as int));
            i = i + 1;
        }
        assert(self.excitations@.take(i as int) =~= self.excitations@);
        bytes
    }
}

/// Whether `sorted` holds the patterns of `times`, each as often, in
/// non-decreasing order of their numbers.
pub open spec fn in_order_of_number(times: Seq<u64>, sorted: Seq<u64>) -> bool {
    &&& sorted.len() == times.len()
    &&& sorted.to_multiset() == times.to_multiset()
    &&& forall|i: int, j: int|
        0 <= i <= j < sorted.len() ==> at_most(#[trigger] sorted[i], #[trigger] sorted[j])
}

/// `slice::sort_by_key` with the rank of a pattern for its key: the vector
/// holds afterwards what it held before, each pattern as often, in
/// non-decreasing order of rank.
#[verifier::external_body]
fn sort_by_number(times: &mut Vec<u64>)
    ensures
        final(times)@.len() == old(times)@.len(),
        final(times)@.to_multiset() == old(times)@.to_multiset(),
        forall|i: int, j: int|
            0 <= i <= j < final(times)@.len() ==> rank(#[trigger] final(times)@[i]) <= rank(
                #[trigger] final(times)@[j],
            ),
{
    times.sort_by_key(|t| order_key(*t));
}

/// The events that pair each place with the time at the same index.
pub open spec fn paired(coords: Seq<Coord2D>, times: Seq<u64>) -> Seq<Excitation2D> {
    Seq::new(times.len(), |i: int| Excitation2D::from_parts(times[i], coords[i]))
}

/// Events of which none has a NaN for its time, and each is no earlier than
/// the one before it, are in non-decreasing order of time.
pub proof fn adjacent_order_is_order(events: Seq<Excitation2D>)
    requires
        forall|k: int|
            0 < k < events.len() ==> at_most(
                events[k - 1].time_bits(),
                (#[trigger] events[k]).time_bits(),
            ),
        forall|k: int| 0 <= k < events.len() ==> !nan((#[trigger] events[k]).time_bits()),
    ensures
        time_ordered(events),
{
    assert forall|i: int, j: int| 0 <= i <= j < events.len() implies at_most(
        #[trigger] events[i].time_bits(),
        #[trigger] events[j].time_bits(),
    ) by {
        ordered_from(events, i, j);
    }
}

/// Of events each no earlier than the one before it, a later one is no
/// earlier than an earlier one.
proof fn ordered_from(events: Seq<Excitation2D>, i: int, j: int)
    requires
        forall|k: int|
            0 < k < events.len() ==> at_most(
                events[k - 1].time_bits(),
                (#[trigger] events[k]).time_bits(),
            ),
        forall|k: int| 0 <= k < events.len() ==> !nan((#[trigger] events[k]).time_bits()),
        0 <= i <= j < events.len(),
    ensures
        at_most(events[i].time_bits(), events[j].time_bits()),
    decreases j - i,
{
    if i < j {
        ordered_from(events, i, j - 1);
        assert(at_most(events[j - 1].time_bits(), events[j].time_bits()));
    }
}

impl ExcitationSource2D for PulsedExcitationGaussian2D {
    type Params = PulsedExcitationGaussian2DParams;

    closed spec fn events(&self) -> Seq<Excitation2D> {
        self.excitations@
    }

    closed spec fn consumed(&self) -> nat {
        self.cursor as nat
    }

    closed spec fn parameters(&self) -> PulsedExcitationGaussian2DParams {
        self.params
    }

    closed spec fn wf(&self) -> bool {
        &&& self.excitations@.len() == self.params.n_excitations
        &&& self.cursor <= self.excitations@.len()
        &&& time_ordered(self.excitations@)
    }

    proof fn wf_bounds(&self) {
    }

    fn nth(&self, n: usize) -> (r: Option<&Excitation2D>) {
        if n >= self.params.n_excitations {
            None
        } else {
            Some(&self.excitations[n])
        }
    }

    fn peek(&self) -> (r: Option<&Excitation2D>) {
        if self.cursor >= self.params.n_excitations {
            None
        } else {
            Some(&self.excitations[self.cursor])
        }
    }

    fn next(&mut self) -> (r: Option<Excitation2D>) {
        if self.cursor >= self.params.n_excitations {
            None
        } else {
            let result = Some(self.excitations[self.cursor]);
            self.cursor += 1;
            result
        }
    }

    fn params(&self) -> (r: Self::Params) {
        self.params
    }
}

} // verus!
