use vcid_spice::general::circuit::{Circuit, InvalidInput};
use vcid_spice::general::component::Component::{CurrentDc, Diode, Resistor, VoltageDc};
use vcid_spice::general::scalar::Scalar;
use vcid_spice::simulation::compiler::compile;
use vcid_spice::simulation::op::{
    simulate_op, solve, OperatingPoint, Progress, Relaxation, MAX_ITERATIONS,
};

#[derive(Clone, Copy, Debug, PartialEq)]
struct Real(f64);

impl Scalar for Real {
    fn from_int(value: i64) -> Self {
        Real(value as f64)
    }

    fn plus(self, rhs: Self) -> Self {
        Real(self.0 + rhs.0)
    }

    fn minus(self, rhs: Self) -> Self {
        Real(self.0 - rhs.0)
    }

    fn times(self, rhs: Self) -> Self {
        Real(self.0 * rhs.0)
    }

    fn over(self, rhs: Self) -> Self {
        Real(self.0 / rhs.0)
    }

    fn negated(self) -> Self {
        Real(-self.0)
    }

    fn magnitude(self) -> Self {
        Real(self.0.abs())
    }

    fn exp(self) -> Self {
        Real(std::f64::consts::E.powf(self.0))
    }

    fn less_than(self, rhs: Self) -> bool {
        self.0 < rhs.0
    }
}

fn reals(values: &[f64]) -> Vec<Real> {
    values.iter().map(|v| Real(*v)).collect()
}

fn plain(values: &[Real]) -> Vec<f64> {
    values.iter().map(|v| v.0).collect()
}

fn bridge_with_diode() -> Circuit<Real> {
    let mut circuit = Circuit::new(3, 0);
    circuit.add_component(CurrentDc { anode: 2, cathode: 0, current: Real(1.0) });
    circuit.add_component(Resistor { pin1: 0, pin2: 1, r: Real(5.0) });
    circuit.add_component(Diode { anode: 2, cathode: 1, i_s: Real(170e-9), n: Real(2.0) });
    circuit.add_component(Resistor { pin1: 0, pin2: 2, r: Real(5.0) });
    circuit
}

fn resistor_triangle() -> Circuit<Real> {
    let mut circuit = Circuit::new(3, 0);
    circuit.add_component(CurrentDc { anode: 2, cathode: 0, current: Real(1.0) });
    circuit.add_component(Resistor { pin1: 0, pin2: 1, r: Real(5.0) });
    circuit.add_component(Resistor { pin1: 1, pin2: 2, r: Real(10.0) });
    circuit.add_component(Resistor { pin1: 0, pin2: 2, r: Real(20.0) });
    circuit
}

fn lone_diode(current: f64) -> Circuit<Real> {
    let mut circuit = Circuit::new(2, 0);
    circuit.add_component(CurrentDc { anode: 1, cathode: 0, current: Real(current) });
    circuit.add_component(Diode { anode: 1, cathode: 0, i_s: Real(170e-9), n: Real(2.0) });
    circuit
}

fn run(
    circuit: &Circuit<Real>,
    t_vir: f64,
    tolerance: f64,
    initial: Option<Vec<f64>>,
) -> OperatingPoint<Real> {
    match simulate_op(circuit, Real(t_vir), Real(tolerance), initial.map(|v| reals(&v))) {
        Ok(point) => point,
        Err(e) => panic!("refused: {:?}", e),
    }
}

#[test]
fn circuit_op_nonlinear() {
    let n = 3;
    let mut circuit = Circuit::new(n, 0);

    circuit.add_component(CurrentDc { anode: 2, cathode: 0, current: Real(1.) });
    circuit.add_component(Resistor { pin1: 0, pin2: 1, r: Real(5.) });
    circuit.add_component(Diode { anode: 2, cathode: 1, i_s: Real(170e-9), n: Real(2.0) });
    circuit.add_component(Resistor { pin1: 0, pin2: 2, r: Real(5.) });

    let voltages = simulate_op(&circuit, Real(0.05), Real(1e-3), None).unwrap().voltages;

    println!("{:?}", voltages);
    assert_eq!(voltages.len(), 3);
}

#[test]
fn bridge_with_diode_converges_forward_biased() {
    let point = run(&bridge_with_diode(), 0.05, 1e-3, None);
    assert!(point.converged);
    assert!(point.iterations >= 1 && point.iterations <= MAX_ITERATIONS);
    assert_eq!(point.voltages.len(), 3);
    assert_eq!(point.voltages[0].0, 0.0);
    assert!(point.voltages[2].0 > point.voltages[1].0);
    assert_eq!(point.iterations, 25);
    assert!((point.voltages[1].0 - 1.286336677420139).abs() < 1e-12);
    assert!((point.voltages[2].0 - 2.0481129909211675).abs() < 1e-12);
    assert!((point.final_damper.0 - 0.016746787578125012).abs() < 1e-15);
}

#[test]
fn same_inputs_give_the_same_bits() {
    let first = run(&bridge_with_diode(), 0.05, 1e-3, None);
    let second = run(&bridge_with_diode(), 0.05, 1e-3, None);
    assert_eq!(first.iterations, second.iterations);
    assert_eq!(first.converged, second.converged);
    assert_eq!(first.final_damper.0.to_bits(), second.final_damper.0.to_bits());
    for i in 0..3 {
        assert_eq!(first.voltages[i].0.to_bits(), second.voltages[i].0.to_bits());
    }
}

#[test]
fn zero_tolerance_runs_into_the_ceiling() {
    let point = run(&bridge_with_diode(), 0.05, 0.0, None);
    assert!(!point.converged);
    assert_eq!(point.iterations, 10_000);
    assert_eq!(point.iterations, MAX_ITERATIONS);
    assert_eq!(point.voltages.len(), 3);
    assert_eq!(point.voltages[0].0, 0.0);
}

#[test]
fn ground_reads_exactly_zero() {
    for ground in 0..3 {
        let mut circuit = bridge_with_diode();
        circuit.ground_node = ground;
        let point = run(&circuit, 0.05, 1e-3, None);
        assert_eq!(point.voltages[ground].0, 0.0);
    }
    let point = run(&resistor_triangle(), 0.05, 1e-7, Some(vec![3.0, -4.0, 100.0]));
    assert_eq!(point.voltages[0].0, 0.0);
    let single: Circuit<Real> = Circuit::new(1, 0);
    let point = run(&single, 0.05, 1e-3, Some(vec![7.5]));
    assert_eq!(plain(&point.voltages), vec![0.0]);
}

#[test]
fn voltages_are_reported_relative_to_ground() {
    let at_zero = run(&resistor_triangle(), 0.05, 1e-7, None);
    let mut circuit = resistor_triangle();
    circuit.ground_node = 2;
    let at_two = run(&circuit, 0.05, 1e-7, None);
    assert_eq!(at_two.voltages[2].0, 0.0);
    for i in 0..3 {
        let shifted = at_zero.voltages[i].0 - at_zero.voltages[2].0;
        assert!((at_two.voltages[i].0 - shifted).abs() < 1e-12);
    }
}

#[test]
fn linear_network_matches_the_analytic_solution() {
    // 1 A into node 2; 5 + 10 in series from node 2 over node 1 to ground, 20 in parallel.
    let v2 = 15.0 * 20.0 / 35.0;
    let v1 = v2 * 5.0 / 15.0;
    let point = run(&resistor_triangle(), 0.05, 1e-7, None);
    assert!(point.converged);
    assert_eq!(point.voltages[0].0, 0.0);
    assert!((point.voltages[1].0 - v1).abs() < 1e-5);
    assert!((point.voltages[2].0 - v2).abs() < 1e-5);

    let mut pair = Circuit::new(2, 0);
    pair.add_component(CurrentDc { anode: 1, cathode: 0, current: Real(1.0) });
    pair.add_component(Resistor { pin1: 0, pin2: 1, r: Real(5.0) });
    let point = run(&pair, 0.05, 1e-6, None);
    assert!(point.converged);
    assert!((point.voltages[1].0 - 5.0).abs() < 1e-4);
}

#[test]
fn superposition_of_two_sources() {
    let mut first = Circuit::new(3, 0);
    first.add_component(CurrentDc { anode: 2, cathode: 0, current: Real(1.0) });
    let mut second = Circuit::new(3, 0);
    second.add_component(CurrentDc { anode: 1, cathode: 0, current: Real(0.5) });
    let mut both = Circuit::new(3, 0);
    both.add_component(CurrentDc { anode: 2, cathode: 0, current: Real(1.0) });
    both.add_component(CurrentDc { anode: 1, cathode: 0, current: Real(0.5) });
    for circuit in [&mut first, &mut second, &mut both] {
        circuit.add_component(Resistor { pin1: 0, pin2: 1, r: Real(5.0) });
        circuit.add_component(Resistor { pin1: 1, pin2: 2, r: Real(10.0) });
        circuit.add_component(Resistor { pin1: 0, pin2: 2, r: Real(20.0) });
    }
    let a = run(&first, 0.05, 1e-8, None);
    let b = run(&second, 0.05, 1e-8, None);
    let sum = run(&both, 0.05, 1e-8, None);
    assert!(a.converged && b.converged && sum.converged);
    for i in 0..3 {
        assert!((a.voltages[i].0 + b.voltages[i].0 - sum.voltages[i].0).abs() < 1e-5);
    }
}

#[test]
fn solving_again_from_the_result_takes_one_iteration() {
    let tolerance = 1e-7;
    let first = run(&resistor_triangle(), 0.05, tolerance, None);
    assert!(first.converged);
    assert!(first.iterations > 1);
    let again = run(&resistor_triangle(), 0.05, tolerance, Some(plain(&first.voltages)));
    assert!(again.converged);
    assert_eq!(again.iterations, 1);
    // One more update moves every node by less than the tolerance, so a voltage
    // relative to ground moves by less than twice that.
    for i in 0..3 {
        assert!((again.voltages[i].0 - first.voltages[i].0).abs() < 2.0 * tolerance);
    }
}

#[test]
fn damper_drops_after_an_overshoot_and_never_exceeds_one() {
    let circuit = bridge_with_diode();
    let tables = compile(&circuit, Real(0.05));
    let mut state = Relaxation::start(3, Some(reals(&[0.0, 5.0, 0.0]))).unwrap();
    let mut dampers = vec![state.damper.0];
    let mut rejected = 0;
    let progress = loop {
        let before = state.voltages.clone();
        let progress = state.step(&tables, Real(1e-3));
        dampers.push(state.damper.0);
        if state.voltages == before {
            rejected += 1;
        }
        if progress != Progress::Continue {
            break progress;
        }
    };
    assert_eq!(progress, Progress::Converged);
    assert_eq!(state.iteration, 35);
    assert_eq!(rejected, 1);
    assert!(dampers.iter().all(|d| *d <= 1.0 && *d > 0.0));
    assert!(dampers.windows(2).any(|w| w[1] < w[0]));
    assert_eq!(dampers[0], 1.0);
}

#[test]
fn damper_halves_on_a_grown_error_and_grows_by_a_tenth_otherwise() {
    let circuit = bridge_with_diode();
    let tables = compile(&circuit, Real(0.05));
    let mut state: Relaxation<Real> = Relaxation::start(3, None).unwrap();
    assert_eq!(state.damper.0, 1.0);
    assert_eq!(state.iteration, 0);
    assert!(state.accepted_error.is_none());
    assert_eq!(plain(&state.voltages), vec![0.0, 0.0, 0.0]);

    // The first proposal is always accepted, and a damper of one stays at one.
    assert_eq!(state.step(&tables, Real(1e-3)), Progress::Continue);
    assert_eq!(state.damper.0, 1.0);
    assert_eq!(state.iteration, 1);
    // The charges are [-0.05, 0, 0.05]; every link and junction side moves its
    // node by the difference to the charge of its neighbor.
    assert!((state.accepted_error.unwrap().0 - 0.15).abs() < 1e-15);
    assert!((state.voltages[0].0 + 0.15).abs() < 1e-15);
    assert!(state.voltages[1].0.abs() < 1e-15);
    assert!((state.voltages[2].0 - 0.15).abs() < 1e-15);

    for _ in 1..10 {
        assert_eq!(state.step(&tables, Real(1e-3)), Progress::Continue);
        assert_eq!(state.damper.0, 1.0);
    }
    // The eleventh update overshoots: it is discarded and the damper halves.
    let kept = state.voltages.clone();
    let kept_error = state.accepted_error;
    assert_eq!(state.step(&tables, Real(1e-3)), Progress::Continue);
    assert_eq!(state.iteration, 11);
    assert_eq!(state.voltages, kept);
    assert_eq!(state.accepted_error, kept_error);
    assert_eq!(state.damper.0, 0.5);
    // The next one is accepted: the damper grows by a tenth.
    assert_eq!(state.step(&tables, Real(1e-3)), Progress::Continue);
    assert!(state.voltages != kept);
    assert_eq!(state.damper.0, 0.5 * 1.1);
    assert_eq!(state.step(&tables, Real(1e-3)), Progress::Continue);
    assert_eq!(state.damper.0, 0.5 * 1.1 * 1.1);
}

#[test]
fn lone_diode_is_forward_biased_and_follows_the_current() {
    let mut previous = 0.0;
    for current in [1e-3, 2e-3, 1e-2] {
        let point = run(&lone_diode(current), 1.0, 1e-9, None);
        assert!(point.converged);
        let forward = point.voltages[1].0 - point.voltages[0].0;
        assert!(forward > 0.0);
        assert!(forward > previous);
        let analytic = 2.0 * 0.025852 * (current / 170e-9 + 1.0).ln();
        assert!((forward - analytic).abs() < 1e-6);
        previous = forward;
    }
}

#[test]
fn diode_polarity_follows_the_terminals() {
    let mut circuit = Circuit::new(2, 0);
    circuit.add_component(CurrentDc { anode: 0, cathode: 1, current: Real(1e-3) });
    circuit.add_component(Diode { anode: 0, cathode: 1, i_s: Real(170e-9), n: Real(2.0) });
    circuit.ground_node = 1;
    let point = run(&circuit, 1.0, 1e-9, None);
    assert!(point.converged);
    assert!(point.voltages[0].0 > point.voltages[1].0);
    assert!((point.voltages[0].0 - 0.4487846).abs() < 1e-6);
}

#[test]
fn voltage_sources_are_left_out() {
    let mut circuit = Circuit::new(2, 0);
    circuit.add_component(VoltageDc { anode: 1, cathode: 0, v: Real(12.0) });
    let tables = compile(&circuit, Real(0.05));
    assert!(tables.constants.target_nodes.is_empty());
    assert!(tables.linears.target_nodes.is_empty());
    assert!(tables.exponentials.target_nodes.is_empty());
    let point = run(&circuit, 0.05, 1e-3, None);
    assert!(point.converged);
    assert_eq!(point.iterations, 1);
    assert_eq!(plain(&point.voltages), vec![0.0, 0.0]);
}

#[test]
fn initial_voltages_are_the_starting_point() {
    let circuit: Circuit<Real> = Circuit::new(3, 1);
    let point = run(&circuit, 0.05, 1e-3, Some(vec![1.0, 2.5, -4.0]));
    assert!(point.converged);
    assert_eq!(point.iterations, 1);
    assert_eq!(plain(&point.voltages), vec![-1.5, 0.0, -6.5]);
    assert_eq!(point.final_damper.0, 1.0);
}

#[test]
fn malformed_input_is_refused() {
    let none: Circuit<Real> = Circuit::new(0, 0);
    assert_eq!(simulate_op(&none, Real(0.05), Real(1e-3), None).err(), Some(InvalidInput::NoNodes));
    assert_eq!(none.validate(), Err(InvalidInput::NoNodes));

    let adrift: Circuit<Real> = Circuit::new(3, 3);
    assert_eq!(
        simulate_op(&adrift, Real(0.05), Real(1e-3), None).err(),
        Some(InvalidInput::GroundOutOfRange)
    );

    let mut dangling = bridge_with_diode();
    dangling.add_component(Resistor { pin1: 1, pin2: 3, r: Real(1.0) });
    dangling.add_component(Resistor { pin1: 7, pin2: 0, r: Real(1.0) });
    assert_eq!(dangling.validate(), Err(InvalidInput::PinOutOfRange(4)));
    assert_eq!(
        simulate_op(&dangling, Real(0.05), Real(1e-3), None).err(),
        Some(InvalidInput::PinOutOfRange(4))
    );

    let mut source = Circuit::new(2, 0);
    source.add_component(VoltageDc { anode: 0, cathode: 2, v: Real(1.0) });
    assert_eq!(source.validate(), Err(InvalidInput::PinOutOfRange(0)));

    let circuit = bridge_with_diode();
    assert_eq!(circuit.validate(), Ok(()));
    assert_eq!(
        simulate_op(&circuit, Real(0.05), Real(1e-3), Some(reals(&[0.0, 0.0]))).err(),
        Some(InvalidInput::InitialLengthMismatch)
    );
    assert_eq!(
        simulate_op(&circuit, Real(0.05), Real(1e-3), Some(reals(&[0.0; 4]))).err(),
        Some(InvalidInput::InitialLengthMismatch)
    );
    assert!(simulate_op(&circuit, Real(0.05), Real(1e-3), Some(reals(&[0.0; 3]))).is_ok());
    assert_eq!(
        Relaxation::<Real>::start(2, Some(reals(&[1.0]))).err(),
        Some(InvalidInput::InitialLengthMismatch)
    );

    // The circuit is looked at before the initial voltages.
    assert_eq!(
        simulate_op(&adrift, Real(0.05), Real(1e-3), Some(reals(&[0.0]))).err(),
        Some(InvalidInput::GroundOutOfRange)
    );
}

#[test]
fn a_discarded_update_can_still_converge() {
    let mut state = Relaxation::start(2, Some(reals(&[1.0, 2.0]))).unwrap();
    let progress = state.settle(reals(&[3.0, 4.0]), Real(0.5), false, false, Real(1.0));
    assert_eq!(progress, Progress::Continue);
    assert_eq!(plain(&state.voltages), vec![3.0, 4.0]);
    assert_eq!(state.accepted_error, Some(Real(0.5)));
    assert_eq!(state.iteration, 1);

    let progress = state.settle(reals(&[9.0, 9.0]), Real(0.75), true, true, Real(0.5));
    assert_eq!(progress, Progress::Converged);
    assert_eq!(plain(&state.voltages), vec![3.0, 4.0]);
    assert_eq!(state.accepted_error, Some(Real(0.5)));
    assert_eq!(state.damper, Real(0.5));
    assert_eq!(state.iteration, 2);
}

#[test]
fn the_ceiling_ends_the_run() {
    let mut state = Relaxation::start(1, Some(reals(&[0.0]))).unwrap();
    state.iteration = MAX_ITERATIONS - 2;
    assert_eq!(state.settle(reals(&[1.0]), Real(1.0), false, false, Real(1.0)), Progress::Continue);
    assert_eq!(state.iteration, MAX_ITERATIONS - 1);
    assert_eq!(state.settle(reals(&[2.0]), Real(1.0), false, false, Real(1.0)), Progress::Exhausted);
    assert_eq!(state.iteration, MAX_ITERATIONS);
    assert_eq!(plain(&state.voltages), vec![2.0]);

    let mut last = Relaxation::start(1, Some(reals(&[0.0]))).unwrap();
    last.iteration = MAX_ITERATIONS - 1;
    assert_eq!(last.settle(reals(&[1.0]), Real(1.0), true, true, Real(1.0)), Progress::Converged);
}

#[test]
fn an_overflowed_estimate_is_reported_as_it_is() {
    // With so small an emission coefficient the clamped exponential overflows:
    // the first update sends both nodes to infinity, and infinity minus
    // infinity is not a number, at ground too.
    let mut circuit = Circuit::new(2, 0);
    circuit.add_component(CurrentDc { anode: 1, cathode: 0, current: Real(1e-4) });
    circuit.add_component(Diode { anode: 1, cathode: 0, i_s: Real(170e-9), n: Real(0.1) });
    let point = run(&circuit, 1.0, 1e-3, Some(vec![0.0, 5.0]));
    assert!(point.converged);
    assert_eq!(point.iterations, 2);
    assert!(point.voltages[0].0.is_nan());
    assert_eq!(point.voltages[1].0, f64::NEG_INFINITY);
}

#[test]
fn relaxation_runs_over_compiled_tables() {
    let mut circuit = resistor_triangle();
    circuit.ground_node = 1;
    let tables = compile(&circuit, Real(0.05));
    let direct = solve(&tables, 3, 1, Real(1e-7), None).unwrap();
    let whole = run(&circuit, 0.05, 1e-7, None);
    assert!(direct.converged);
    assert_eq!(direct.iterations, whole.iterations);
    assert_eq!(direct.voltages, whole.voltages);
    assert_eq!(direct.voltages[1].0, 0.0);
    assert_eq!(direct.final_damper, whole.final_damper);

    assert_eq!(
        solve(&tables, 3, 1, Real(1e-7), Some(reals(&[0.0]))).err(),
        Some(InvalidInput::InitialLengthMismatch)
    );
    let unreachable = solve(&tables, 3, 0, Real(0.0), Some(reals(&[1.0, 2.0, 3.0]))).unwrap();
    assert!(!unreachable.converged);
    assert_eq!(unreachable.iterations, MAX_ITERATIONS);
}

#[test]
fn source_and_resistor_settle_in_two_iterations() {
    let mut circuit = Circuit::new(2, 0);
    circuit.add_component(CurrentDc { anode: 1, cathode: 0, current: Real(2.0) });
    circuit.add_component(Resistor { pin1: 0, pin2: 1, r: Real(1.0) });
    let point = run(&circuit, 0.25, 1e-3, None);
    assert!(point.converged);
    assert_eq!(point.iterations, 2);
    assert_eq!(plain(&point.voltages), vec![0.0, 2.0]);
    assert_eq!(point.final_damper.0, 1.0);

    let tables = compile(&circuit, Real(0.25));
    let mut state: Relaxation<Real> = Relaxation::start(2, None).unwrap();
    assert_eq!(state.step(&tables, Real(1e-3)), Progress::Continue);
    assert_eq!(plain(&state.voltages), vec![-1.0, 1.0]);
    assert_eq!(state.accepted_error, Some(Real(1.0)));
    assert_eq!(state.step(&tables, Real(1e-3)), Progress::Converged);
    assert_eq!(plain(&state.voltages), vec![-1.0, 1.0]);
    assert_eq!(state.accepted_error, Some(Real(0.0)));
}

#[test]
fn an_overshoot_is_taken_back_twice() {
    let mut circuit = Circuit::new(2, 0);
    circuit.add_component(Resistor { pin1: 0, pin2: 1, r: Real(1.0) });
    let tables = compile(&circuit, Real(1.0));
    let mut state = Relaxation::start(2, Some(reals(&[0.0, 1.0]))).unwrap();

    assert_eq!(state.step(&tables, Real(1e-3)), Progress::Continue);
    assert_eq!(plain(&state.voltages), vec![2.0, -1.0]);
    assert_eq!(state.accepted_error, Some(Real(2.0)));
    assert_eq!(state.damper.0, 1.0);

    // The next update would be 6, then 3: both grow against 2 and are discarded.
    assert_eq!(state.step(&tables, Real(1e-3)), Progress::Continue);
    assert_eq!(plain(&state.voltages), vec![2.0, -1.0]);
    assert_eq!(state.accepted_error, Some(Real(2.0)));
    assert_eq!(state.damper.0, 0.5);
    assert_eq!(state.step(&tables, Real(1e-3)), Progress::Continue);
    assert_eq!(plain(&state.voltages), vec![2.0, -1.0]);
    assert_eq!(state.damper.0, 0.25);

    // At a quarter the update is 1.5 and is accepted; it lands on the solution.
    assert_eq!(state.step(&tables, Real(1e-3)), Progress::Continue);
    assert_eq!(plain(&state.voltages), vec![0.5, 0.5]);
    assert_eq!(state.accepted_error, Some(Real(1.5)));
    assert_eq!(state.damper.0, 0.25 * 1.1);
    assert_eq!(state.step(&tables, Real(1e-3)), Progress::Converged);
    assert_eq!(state.iteration, 5);
    assert_eq!(state.damper.0, 0.25 * 1.1 * 1.1);

    let point = run(&circuit, 1.0, 1e-3, Some(vec![0.0, 1.0]));
    assert!(point.converged);
    assert_eq!(point.iterations, 5);
    assert_eq!(plain(&point.voltages), vec![0.0, 0.0]);
    assert_eq!(point.final_damper.0, 0.25 * 1.1 * 1.1);
    assert!(point.final_damper.0 <= 1.0);
}
