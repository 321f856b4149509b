use experiment::coord2d::Coord2D;
use experiment::excitation_source2d::{
    ExcitationSource2D, PulsedExcitationGaussian2D, PulsedExcitationGaussian2DParams,
    SplittableExcitationParams,
};
use experiment::exciton::{AnnihilationOutcome, ExcitonBiography, ExcitonParameters};
use experiment::population::{
    diffusion_time, time_step, within_five_sigma, ContractViolation, CriticalEvent,
    ExcitonCollection, ExcitonStep,
};
use experiment::simulation::{Simulation2D, SimulationOutput, SimulationRun};
use rand::rngs::ThreadRng;
use rand::Rng;
use rand_distr::{Distribution, Exp, Normal, StandardNormal, Uniform};

fn bits(x: f64) -> u64 {
    x.to_bits()
}

fn num(bits: u64) -> f64 {
    f64::from_bits(bits)
}

fn parameters(radius: f64, outcome: AnnihilationOutcome) -> ExcitonParameters {
    ExcitonParameters {
        diffusivity_m2_per_s: bits(6.0e-6),
        radiative_decay_rate_per_s: bits(1.0e8),
        non_radiative_decay_rate_per_s: bits(0.0),
        exciton_radius_m: bits(radius),
        annihilation_outcome: outcome,
    }
}

fn source_params(n_excitations: usize) -> PulsedExcitationGaussian2DParams {
    PulsedExcitationGaussian2DParams {
        spot_fwhm_m: bits(1.0e-6),
        repetition_rate_hz: bits(1.0e6),
        pulse_fwhm_s: bits(100.0e-15),
        n_excitations,
        n_pulses: 10,
    }
}

fn source_of(events: &[(f64, f64, f64)]) -> PulsedExcitationGaussian2D {
    let coords =
        events.iter().map(|&(_, x, y)| Coord2D::new(bits(x), bits(y)).unwrap()).collect();
    let times = events.iter().map(|&(t, _, _)| bits(t)).collect();
    PulsedExcitationGaussian2D::new(source_params(events.len()), coords, times).unwrap()
}

fn drawn_source(params: &PulsedExcitationGaussian2DParams) -> PulsedExcitationGaussian2D {
    let mut rng = rand::rng();
    let spot = Normal::new(0.0, num(params.spot_fwhm_m) / 2.355).unwrap();
    let coords = (0..params.n_excitations)
        .map(|_| Coord2D::new(bits(spot.sample(&mut rng)), bits(spot.sample(&mut rng))).unwrap())
        .collect();
    let offset = Normal::new(0.0, num(params.pulse_fwhm_s) / 2.355).unwrap();
    let period = 1.0 / num(params.repetition_rate_hz);
    let times: Vec<f64> = (0..params.n_excitations)
        .map(|_| {
            let pulse = if params.n_pulses == 0 {
                0
            } else {
                rng.sample(Uniform::try_from(0..params.n_pulses).unwrap())
            };
            (pulse as f64) * period + offset.sample(&mut rng)
        })
        .collect();
    let times = times.into_iter().map(bits).collect();
    PulsedExcitationGaussian2D::new(*params, coords, times).unwrap()
}

fn simulation(
    parameters: ExcitonParameters,
    source: PulsedExcitationGaussian2D,
) -> Simulation2D<PulsedExcitationGaussian2D> {
    let radius = num(parameters.exciton_radius_m);
    let minimum_time_step =
        (radius / 5.0).powi(2) * (1.0 / (2.0 * num(parameters.diffusivity_m2_per_s)));
    Simulation2D::new(parameters, source, bits(minimum_time_step))
}

fn distances(excitons: &ExcitonCollection) -> Vec<Vec<u64>> {
    let positions = excitons.positions();
    (0..positions.len())
        .map(|a| {
            (0..a)
                .map(|b| {
                    let dx = num(positions[a].x()) - num(positions[b].x());
                    let dy = num(positions[a].y()) - num(positions[b].y());
                    let d = f64::sqrt(dx.powi(2) + dy.powi(2));
                    assert!(!d.is_nan());
                    bits(d)
                })
                .collect()
        })
        .collect()
}

fn collision_time(
    run: &SimulationRun<PulsedExcitationGaussian2D>,
    parameters: &ExcitonParameters,
) -> Option<u64> {
    let table = distances(run.excitons());
    match run.excitons().closest_approach_m(&table).unwrap() {
        None => None,
        Some(least) => {
            let gap = f64::abs(num(least) - 2.0 * num(parameters.exciton_radius_m));
            let delta_t = (gap / 5.0).powi(2) / (2.0 * num(parameters.diffusivity_m2_per_s));
            let step = time_step(bits(delta_t), run.minimum_time_step_s());
            Some(bits(num(run.time_s()) + num(step)))
        }
    }
}

fn steps(
    run: &SimulationRun<PulsedExcitationGaussian2D>,
    parameters: &ExcitonParameters,
    delta_t: u64,
    rng: &mut ThreadRng,
) -> Vec<ExcitonStep> {
    let decay = Exp::new(num(parameters.radiative_decay_rate_per_s)).unwrap();
    let angle = Uniform::new(0.0, std::f64::consts::PI).unwrap();
    run.excitons()
        .positions()
        .iter()
        .map(|position| {
            let draw: f64 = decay.sample(rng);
            let span = num(diffusion_time(bits(draw), delta_t));
            let normal = loop {
                let attempt: f64 = rng.sample(StandardNormal);
                if within_five_sigma(bits(attempt)) {
                    break attempt;
                }
            };
            let dist = normal * (0.5 * num(parameters.diffusivity_m2_per_s) * span).sqrt();
            let theta: f64 = angle.sample(rng);
            ExcitonStep {
                decay_draw_s: bits(draw),
                moved_to: Coord2D::new(
                    bits(num(position.x()) + theta.cos() * dist),
                    bits(num(position.y()) + theta.sin() * dist),
                )
                .unwrap(),
                decay_time_s: bits(num(run.time_s()) + draw),
            }
        })
        .collect()
}

fn run_to_the_end(
    parameters: ExcitonParameters,
    source: PulsedExcitationGaussian2D,
) -> (SimulationOutput<PulsedExcitationGaussian2DParams>, Vec<f64>) {
    let mut rng = rand::rng();
    let mut clock = Vec::new();
    let mut run = simulation(parameters, source).start().unwrap();
    let mut created = 0;
    loop {
        let table = distances(run.excitons());
        run.annihilate(&table);
        assert_eq!(run.n_records() + run.excitons().n_excitons(), created);
        let horizon = collision_time(&run, &parameters);
        let now = run.time_s();
        match run.next_critical_event(horizon).unwrap() {
            CriticalEvent::NewExcitation(e) => {
                created += 1;
                let delta_t = bits(num(e.time_s()) - num(now));
                clock.push(num(now));
                let steps = steps(&run, &parameters, delta_t, &mut rng);
                run.advance(delta_t, &steps);
                assert_eq!(run.time_s(), e.time_s());
            }
            CriticalEvent::ExcitonsCouldCollide(t) => {
                let delta_t = bits(num(t) - num(now));
                clock.push(num(now));
                let steps = steps(&run, &parameters, delta_t, &mut rng);
                run.advance(delta_t, &steps);
                assert_eq!(run.time_s(), t);
            }
            CriticalEvent::OneExcitonRemains => {
                let last = steps(&run, &parameters, bits(f64::INFINITY), &mut rng)[0];
                return (run.final_decay(last.decay_time_s, last.moved_to), clock);
            }
            CriticalEvent::NoExcitonsRemain => {
                return (run.finish(), clock);
            }
            CriticalEvent::ZeroRadiusExcitons => {
                let lifetime = num(parameters.radiative_decay_rate_per_s).powi(-1);
                clock.push(num(now));
                let steps = steps(&run, &parameters, bits(lifetime), &mut rng);
                run.advance_by_lifetime(bits(lifetime), &steps, bits(num(now) + lifetime))
                    .unwrap();
            }
        }
        assert_eq!(run.n_records() + run.excitons().n_excitons(), created);
    }
}

fn records(output: &SimulationOutput<PulsedExcitationGaussian2DParams>) -> Vec<ExcitonBiography> {
    (0..output.len()).map(|i| output.biography(i)).collect()
}

#[test]
fn test_simulation() {
    let parameters = parameters(1.0e-9, AnnihilationOutcome::One);
    let excitation_source_params = source_params(10);
    let excitation_source = drawn_source(&excitation_source_params);

    let (simulation_output, _) = run_to_the_end(parameters, excitation_source);
    assert_eq!(simulation_output.len(), excitation_source_params.n_excitations); // all excitations are accounted for

    let emitted = simulation_output.emission_bytes();
    assert_eq!(emitted.len() % 24, 0);
}

#[test]
fn every_excitation_leaves_one_record() {
    for outcome in [AnnihilationOutcome::Both, AnnihilationOutcome::One] {
        for n in [1usize, 2, 5, 40] {
            let mut params = source_params(n);
            // a narrow spot, so that excitons meet
            params.spot_fwhm_m = bits(2.0e-8);
            params.n_pulses = 2;
            let (output, _) = run_to_the_end(parameters(1.0e-9, outcome), drawn_source(&params));
            assert_eq!(output.len(), n);
            assert_eq!(*output.params(), params);
        }
    }
}

#[test]
fn the_clock_never_runs_backwards() {
    let mut params = source_params(30);
    params.spot_fwhm_m = bits(2.0e-8);
    for radius in [1.0e-9, 0.0] {
        let (_, clock) = run_to_the_end(
            parameters(radius, AnnihilationOutcome::One),
            drawn_source(&params),
        );
        assert!(!clock.is_empty());
        for pair in clock.windows(2) {
            assert!(pair[0] <= pair[1]);
        }
    }
}

#[test]
fn excitons_far_apart_all_decay_radiatively() {
    let radius = 1.0e-9;
    // ten excitations in one instant, a millimetre apart: no two can meet
    // within any lifetime
    let events: Vec<(f64, f64, f64)> =
        (0..10).map(|k| (1.0e-9, 1.0e-3 * k as f64, 0.0)).collect();
    let (output, _) =
        run_to_the_end(parameters(radius, AnnihilationOutcome::Both), source_of(&events));
    assert_eq!(output.len(), 10);
    assert!(records(&output).iter().all(|r| r.decayed_radiatively));
    assert_eq!(output.emission_bytes().len(), 240);
}

#[test]
fn two_excitations_at_one_place_annihilate_in_the_run() {
    let parameters = parameters(1.0e-9, AnnihilationOutcome::Both);
    let source = source_of(&[(1.0, 0.5, 0.5), (1.0, 0.5, 0.5)]);
    let mut run = simulation(parameters, source).start().unwrap();
    assert_eq!(run.time_s(), bits(1.0));
    let still = |run: &SimulationRun<PulsedExcitationGaussian2D>| -> Vec<ExcitonStep> {
        run.excitons()
            .positions()
            .iter()
            .map(|&p| ExcitonStep {
                decay_draw_s: bits(1.0),
                moved_to: p,
                decay_time_s: bits(2.0),
            })
            .collect()
    };
    for _ in 0..2 {
        run.annihilate(&distances(run.excitons()));
        let event = run.next_critical_event(None).unwrap();
        assert!(matches!(event, CriticalEvent::NewExcitation(_)));
        let steps = still(&run);
        run.advance(bits(0.0), &steps);
    }
    assert_eq!(run.excitons().n_excitons(), 2);
    assert_eq!(run.n_records(), 0);
    run.annihilate(&distances(run.excitons()));
    assert_eq!(run.excitons().n_excitons(), 0);
    assert_eq!(run.n_records(), 2);
    assert!(matches!(run.next_critical_event(None).unwrap(), CriticalEvent::NoExcitonsRemain));
    let output = run.finish();
    assert_eq!(output.len(), 2);
    for record in records(&output) {
        assert_eq!(record.destroyed_at_s, bits(1.0));
        assert_eq!(record.destroyed_at_position, Coord2D::new(bits(0.5), bits(0.5)).unwrap());
        assert!(!record.decayed_radiatively);
    }
    assert!(output.emission_bytes().is_empty());
}

#[test]
fn excitons_of_radius_zero_only_decay() {
    let mut params = source_params(25);
    params.spot_fwhm_m = bits(0.0);
    let (output, _) =
        run_to_the_end(parameters(0.0, AnnihilationOutcome::Both), drawn_source(&params));
    assert_eq!(output.len(), 25);
    assert!(records(&output).iter().all(|r| r.decayed_radiatively));
}

#[test]
fn shards_together_account_for_every_excitation() {
    let parameters = parameters(1.0e-9, AnnihilationOutcome::One);
    for n in [0usize, 1, 7, 20] {
        for k in 1..5 {
            let whole = source_params(n);
            let shards: Vec<SimulationOutput<PulsedExcitationGaussian2DParams>> = whole
                .split(k)
                .into_iter()
                .map(|part| {
                    if part.n_excitations == 0 {
                        SimulationOutput::new(Vec::new(), part)
                    } else {
                        run_to_the_end(parameters, drawn_source(&part)).0
                    }
                })
                .collect();
            let merged = SimulationOutput::merge(shards);
            assert_eq!(merged.len(), n);
            assert_eq!(*merged.params(), whole);
        }
    }
}

#[test]
fn merging_nothing_gives_nothing() {
    let none: Vec<SimulationOutput<PulsedExcitationGaussian2DParams>> = Vec::new();
    assert!(SimulationOutput::try_merge(none).is_none());
    let too_many = vec![
        SimulationOutput::new(Vec::new(), source_params(usize::MAX)),
        SimulationOutput::new(Vec::new(), source_params(1)),
    ];
    assert!(SimulationOutput::try_merge(too_many).is_none());
    let just_enough = vec![
        SimulationOutput::new(Vec::new(), source_params(usize::MAX - 1)),
        SimulationOutput::new(Vec::new(), source_params(1)),
    ];
    let merged = SimulationOutput::try_merge(just_enough).unwrap();
    assert_eq!(merged.params().n_excitations, usize::MAX);
    assert_eq!(merged.len(), 0);
}

#[test]
fn merged_parameters_are_those_of_the_first_with_all_excitations() {
    let mut first = source_params(2);
    first.spot_fwhm_m = bits(1.0);
    first.n_pulses = 7;
    let mut second = source_params(3);
    second.spot_fwhm_m = bits(5.0);
    let merged = SimulationOutput::try_merge(vec![
        SimulationOutput::new(Vec::new(), first),
        SimulationOutput::new(Vec::new(), second),
    ])
    .unwrap();
    assert_eq!(merged.params().spot_fwhm_m, bits(1.0));
    assert_eq!(merged.params().n_pulses, 7);
    assert_eq!(merged.params().n_excitations, 5);
    let alone = SimulationOutput::merge(vec![SimulationOutput::new(Vec::new(), first)]);
    assert_eq!(*alone.params(), first);
}

#[test]
fn merge_keeps_the_records_in_order() {
    let record = |t: f64, radiative: bool| ExcitonBiography {
        destroyed_at_s: bits(t),
        destroyed_at_position: Coord2D::new(bits(t), bits(-t)).unwrap(),
        decayed_radiatively: radiative,
    };
    let first = SimulationOutput::new(vec![record(1.0, true), record(2.0, false)], source_params(2));
    let second = SimulationOutput::new(vec![], source_params(0));
    let third = SimulationOutput::new(vec![record(3.0, true)], source_params(1));
    let merged = SimulationOutput::merge(vec![first, second, third]);
    let times: Vec<f64> = records(&merged).iter().map(|r| num(r.destroyed_at_s)).collect();
    assert_eq!(times, vec![1.0, 2.0, 3.0]);
    assert_eq!(merged.params().n_excitations, 3);

    let emitted = merged.emission_bytes();
    let mut expected = record(1.0, true).to_bytes().to_vec();
    expected.extend_from_slice(&record(3.0, true).to_bytes());
    assert_eq!(emitted, expected);
}

#[test]
fn a_run_does_not_start_without_excitations() {
    let parameters = parameters(1.0e-9, AnnihilationOutcome::Both);
    assert!(simulation(parameters, source_of(&[])).start().is_none());
    let mut spent = source_of(&[(1.0, 0.0, 0.0)]);
    spent.next();
    assert!(simulation(parameters, spent).start().is_none());
}

#[test]
fn a_collision_time_before_the_clock_is_refused() {
    let parameters = parameters(1.0e-9, AnnihilationOutcome::Both);
    let source = source_of(&[(1.0, 0.0, 0.0), (2.0, 1.0, 0.0)]);
    let mut run = simulation(parameters, source).start().unwrap();
    assert_eq!(
        run.next_critical_event(Some(bits(0.5))).unwrap_err(),
        ContractViolation::TimeReversal
    );
    assert_eq!(
        run.next_critical_event(Some(bits(f64::NAN))).unwrap_err(),
        ContractViolation::TimeReversal
    );
    // nothing was taken from the source
    let event = run.next_critical_event(Some(bits(1.0))).unwrap();
    match event {
        CriticalEvent::NewExcitation(e) => assert_eq!(e.time_s(), bits(1.0)),
        _ => panic!("the first excitation was due"),
    }
}

#[test]
fn a_step_of_ghosts_back_in_time_is_refused() {
    let parameters = parameters(0.0, AnnihilationOutcome::Both);
    let source = source_of(&[(1.0, 0.0, 0.0), (1.0, 1.0, 0.0)]);
    let mut run = simulation(parameters, source).start().unwrap();
    for _ in 0..2 {
        run.next_critical_event(None).unwrap();
        let steps: Vec<ExcitonStep> = run
            .excitons()
            .positions()
            .iter()
            .map(|&p| ExcitonStep {
                decay_draw_s: bits(9.0),
                moved_to: p,
                decay_time_s: bits(10.0),
            })
            .collect();
        run.advance(bits(0.0), &steps);
    }
    assert!(matches!(run.next_critical_event(None).unwrap(), CriticalEvent::ZeroRadiusExcitons));
    let steps: Vec<ExcitonStep> = run
        .excitons()
        .positions()
        .iter()
        .map(|&p| ExcitonStep { decay_draw_s: bits(0.5), moved_to: p, decay_time_s: bits(1.5) })
        .collect();
    assert_eq!(
        run.advance_by_lifetime(bits(1.0), &steps, bits(0.5)).unwrap_err(),
        ContractViolation::TimeReversal
    );
    assert_eq!(run.excitons().n_excitons(), 2);
    assert_eq!(run.time_s(), bits(1.0));
    run.advance_by_lifetime(bits(1.0), &steps, bits(2.0)).unwrap();
    assert_eq!(run.time_s(), bits(2.0));
    assert_eq!(run.excitons().n_excitons(), 0);
    assert_eq!(run.n_records(), 2);
    assert!(matches!(run.next_critical_event(None).unwrap(), CriticalEvent::NoExcitonsRemain));
    assert_eq!(run.finish().len(), 2);
}

#[test]
fn the_last_exciton_ends_the_run() {
    let parameters = parameters(1.0e-9, AnnihilationOutcome::Both);
    let source = source_of(&[(1.0, 0.0, 0.0)]);
    let mut run = simulation(parameters, source).start().unwrap();
    run.annihilate(&distances(run.excitons()));
    assert!(matches!(run.next_critical_event(None).unwrap(), CriticalEvent::NewExcitation(_)));
    run.advance(bits(0.0), &vec![]);
    assert!(matches!(run.next_critical_event(None).unwrap(), CriticalEvent::OneExcitonRemains));
    let end = Coord2D::new(bits(0.25), bits(0.75)).unwrap();
    let output = run.final_decay(bits(1.5), end);
    assert_eq!(output.len(), 1);
    let record = output.biography(0);
    assert_eq!(record.destroyed_at_s, bits(1.5));
    assert_eq!(record.destroyed_at_position, end);
    assert!(record.decayed_radiatively);
    assert_eq!(output.params().n_excitations, 1);
}
