use vstd::prelude::*;
use crate::general::circuit::{defect_is_unique, Circuit, InvalidInput};
use crate::general::role::{charges_at, delta_v_impact, q_vir_impact, updates_at};
use crate::general::scalar::{
    below, capped, capped_of, difference_of, filled, larger, larger_of, magnitude_of, number_of,
    product_of, quotient_of, sum_of, Scalar,
};
use crate::simulation::compiler::{compile, Contributions};

verus! {

/// The number of iterations after which the relaxation gives up.
pub const MAX_ITERATIONS: u32 = 10_000;

/// What the relaxation does after an iteration.
#[derive(Clone, Copy, Debug, PartialEq, Eq, Structural)]
pub enum Progress {
    /// Neither converged nor out of iterations: iterate again.
    Continue,
    /// The last update stayed below the tolerance.
    Converged,
    /// The iteration ceiling is reached without convergence.
    Exhausted,
}

/// The decision after the iteration that brought the count to `iteration`:
/// convergence is looked at first, the ceiling second.
pub open spec fn progress_after(iteration: nat, within: bool) -> Progress {
    if within {
        Progress::Converged
    } else if iteration >= MAX_ITERATIONS {
        Progress::Exhausted
    } else {
        Progress::Continue
    }
}

/// The state that the relaxation carries from one iteration to the next.
pub struct Relaxation<S> {
    /// The estimate after the last accepted update, one voltage per node.
    pub voltages: Vec<S>,
    /// The largest voltage change of the last accepted update. `None` until an
    /// update was accepted; against `None` no error counts as grown.
    pub accepted_error: Option<S>,
    /// The factor applied to every voltage update.
    pub damper: S,
    /// The number of iterations made so far, rejected ones included.
    pub iteration: u32,
}

/// The outcome of a solve.
pub struct OperatingPoint<S> {
    /// One voltage per node, relative to ground.
    pub voltages: Vec<S>,
    /// Whether the last update stayed below the tolerance.
    pub converged: bool,
    /// The number of iterations made, rejected ones included.
    pub iterations: u32,
    /// The damping factor after the last iteration.
    pub final_damper: S,
}

/// `r` is `damper` times `half`, the quotient of the numbers `one` and `two`.
pub open spec fn halved<S: Scalar>(damper: S, one: S, two: S, half: S, r: S) -> bool {
    &&& number_of(1, one)
    &&& number_of(2, two)
    &&& quotient_of(one, two, half)
    &&& product_of(damper, half, r)
}

/// `r` is `grown` limited from above by the number `one`, where `grown` is
/// `damper` times `rate`, the quotient of the numbers `eleven` and `ten`.
pub open spec fn grown_and_capped<S: Scalar>(
    damper: S,
    eleven: S,
    ten: S,
    rate: S,
    grown: S,
    one: S,
    r: S,
) -> bool {
    &&& number_of(11, eleven)
    &&& number_of(10, ten)
    &&& quotient_of(eleven, ten, rate)
    &&& product_of(damper, rate, grown)
    &&& number_of(1, one)
    &&& capped_of(grown, one, r)
}

/// `r` is the damping factor that follows `damper`: half of it when the error
/// grew, otherwise eleven tenths of it, limited to one.
pub open spec fn adapted_damper<S: Scalar>(damper: S, grew: bool, r: S) -> bool {
    if grew {
        exists|one: S, two: S, half: S| halved(damper, one, two, half, r)
    } else {
        exists|eleven: S, ten: S, rate: S, grown: S, one: S|
            grown_and_capped(damper, eleven, ten, rate, grown, one, r)
    }
}

/// `r` is the largest magnitude among `deltas`, taken in order and starting
/// from the number zero, which it is when there are none: with `earlier` the
/// largest magnitude among all but the last of them and `last` the magnitude
/// of the last, `r` is the larger of the two.
pub open spec fn largest_magnitude_of<S: Scalar>(deltas: Seq<S>, r: S) -> bool
    decreases deltas.len(),
{
    if deltas.len() == 0 {
        number_of(0, r)
    } else {
        exists|earlier: S, last: S|
            #![trigger larger_of(earlier, last, r)]
            {
                &&& largest_magnitude_of(deltas.drop_last(), earlier)
                &&& magnitude_of(deltas.last(), last)
                &&& larger_of(earlier, last, r)
            }
    }
}

/// The damping factor after an update: halved when the error grew, otherwise
/// grown by a tenth and limited to one.
fn adapt_damper<S: Scalar>(damper: S, grew: bool) -> (r: S)
    ensures
        adapted_damper(damper, grew, r),
{
    if grew {
        let one = S::from_int(1);
        let two = S::from_int(2);
        let half = one.over(two);
        let r = damper.times(half);
        assert(halved(damper, one, two, half, r));
        r
    } else {
        let eleven = S::from_int(11);
        let ten = S::from_int(10);
        let rate = eleven.over(ten);
        let grown = damper.times(rate);
        let one = S::from_int(1);
        let r = capped(grown, one);
        assert(grown_and_capped(damper, eleven, ten, rate, grown, one, r));
        r
    }
}

/// The largest magnitude among `deltas`, and the number that stands for zero
/// when there is none.
fn largest_magnitude<S: Scalar>(deltas: &Vec<S>) -> (largest: S)
    ensures
        largest_magnitude_of(deltas@, largest),
{
    let mut largest = S::from_int(0);
    let mut i: usize = 0;
    while i < deltas.len()
        invariant
            i <= deltas@.len(),
            largest_magnitude_of(deltas@.take(i as int), largest),
        decreases deltas@.len() - i,
    {
        let earlier = largest;
        let last = deltas[i].magnitude();
        largest = larger(earlier, last);
        proof {
            let next = deltas@.take(i + 1);
            assert(next.drop_last() =~= deltas@.take(i as int));
            assert(next.last() == deltas@[i as int]);
            assert(larger_of(earlier, last, largest));
        }
        i = i + 1;
    }
    assert(deltas@.take(i as int) =~= deltas@);
    largest
}

/// `proposal` holds, for every node, the sum of its voltage and its update.
pub open spec fn advanced_by<S: Scalar>(voltages: Seq<S>, deltas: Seq<S>, proposal: Seq<S>) -> bool {
    &&& proposal.len() == voltages.len()
    &&& forall|i: int|
        0 <= i < proposal.len() ==> sum_of(voltages[i], deltas[i], #[trigger] proposal[i])
}

/// `relative` holds, for every node, its voltage less the voltage of node `ground`.
pub open spec fn relative_to<S: Scalar>(voltages: Seq<S>, ground: int, relative: Seq<S>) -> bool {
    &&& relative.len() == voltages.len()
    &&& forall|i: int|
        0 <= i < relative.len() ==> difference_of(
            voltages[i],
            voltages[ground],
            #[trigger] relative[i],
        )
}

/// `voltages[i] + deltas[i]` for every node, all from the same `voltages`.
fn advanced<S: Scalar>(voltages: &Vec<S>, deltas: &Vec<S>) -> (proposal: Vec<S>)
    requires
        deltas@.len() == voltages@.len(),
    ensures
        advanced_by(voltages@, deltas@, proposal@),
{
    let mut proposal: Vec<S> = Vec::new();
    let mut i: usize = 0;
    while i < voltages.len()
        invariant
            i <= voltages@.len(),
            deltas@.len() == voltages@.len(),
            proposal@.len() == i,
            forall|j: int|
                0 <= j < i ==> sum_of(voltages@[j], deltas@[j], #[trigger] proposal@[j]),
        decreases voltages@.len() - i,
    {
        proposal.push(voltages[i].plus(deltas[i]));
        i = i + 1;
    }
    proposal
}

/// `voltages[i] - voltages[ground]` for every node.
fn ground_relative<S: Scalar>(voltages: &Vec<S>, ground: usize) -> (relative: Vec<S>)
    requires
        ground < voltages@.len(),
    ensures
        relative_to(voltages@, ground as int, relative@),
{
    let base = voltages[ground];
    let mut relative: Vec<S> = Vec::new();
    let mut i: usize = 0;
    while i < voltages.len()
        invariant
            i <= voltages@.len(),
            ground < voltages@.len(),
            base == voltages@[ground as int],
            relative@.len() == i,
            forall|j: int|
                0 <= j < i ==> difference_of(voltages@[j], base, #[trigger] relative@[j]),
        decreases voltages@.len() - i,
    {
        relative.push(voltages[i].minus(base));
        i = i + 1;
    }
    relative
}

impl<S: Copy> Relaxation<S> {
    /// Settles one proposed update, given its largest voltage change `error`,
    /// whether that error grew against the last accepted one, whether it is
    /// within the tolerance, and the damping factor to go on with.
    ///
    /// A grown error discards the proposal and keeps the accepted estimate and
    /// its error; any other makes the proposal the accepted estimate. Either
    /// way the iteration counts, and convergence is judged on `within` alone.
    pub fn settle(
        &mut self,
        proposal: Vec<S>,
        error: S,
        grew: bool,
        within: bool,
        damper: S,
    ) -> (progress: Progress)
        requires
            old(self).iteration < u32::MAX,
        ensures
            final(self).iteration == old(self).iteration + 1,
            final(self).damper == damper,
            final(self).voltages@ == (if grew {
                old(self).voltages@
            } else {
                proposal@
            }),
            final(self).accepted_error == (if grew {
                old(self).accepted_error
            } else {
                Some(error)
            }),
            progress == progress_after(final(self).iteration as nat, within),
    {
        if !grew {
            self.voltages = proposal;
            self.accepted_error = Some(error);
        }
        self.damper = damper;
        self.iteration = self.iteration + 1;
        if within {
            Progress::Converged
        } else if self.iteration >= MAX_ITERATIONS {
            Progress::Exhausted
        } else {
            Progress::Continue
        }
    }
}

impl<S: Scalar> Relaxation<S> {
    /// `self` is a state before the first iteration over `nodes_count` nodes:
    /// the given voltages, or the number zero at every node (the same one at
    /// all of them) when none are given; the number one as damping factor; no
    /// accepted error; no iteration made.
    pub open spec fn starts(&self, nodes_count: usize, initial_voltages: Option<Vec<S>>) -> bool {
        &&& self.voltages@.len() == nodes_count
        &&& self.accepted_error is None
        &&& self.iteration == 0
        &&& number_of(1, self.damper)
        &&& match initial_voltages {
            Some(given) => self.voltages@ == given@,
            None => {
                &&& forall|a: int|
                    0 <= a < nodes_count ==> number_of(0, #[trigger] self.voltages@[a])
                &&& forall|a: int, b: int|
                    0 <= a < nodes_count && 0 <= b < nodes_count ==> self.voltages@[a]
                        == self.voltages@[b]
            },
        }
    }

    /// The values that one iteration goes through from the state `self` to
    /// the state `after` and the decision `progress`:
    /// `charges` are the virtual charges at the voltages of `self`, `deltas`
    /// the voltage updates at these charges and the damping factor of `self`,
    /// `proposal` the voltages with their updates added, and `error` the
    /// largest magnitude among the updates; `grew` tells whether the last
    /// accepted error is below `error` (never, while none is accepted),
    /// `within` whether `error` is below `tolerance`. With these, `after` is as
    /// `settle` leaves the state, with the damping factor adapted to `grew`.
    pub open spec fn iterates(
        self,
        tables: &Contributions<S>,
        tolerance: S,
        charges: Seq<S>,
        deltas: Seq<S>,
        proposal: Seq<S>,
        error: S,
        grew: bool,
        within: bool,
        after: Self,
        progress: Progress,
    ) -> bool {
        &&& charges_at(
            &tables.constants,
            &tables.linears,
            &tables.exponentials,
            self.voltages@,
            charges,
        )
        &&& updates_at(&tables.linears, &tables.exponentials, charges, self.damper, deltas)
        &&& advanced_by(self.voltages@, deltas, proposal)
        &&& largest_magnitude_of(deltas, error)
        &&& match self.accepted_error {
            Some(accepted) => below(accepted, error, grew),
            None => !grew,
        }
        &&& below(error, tolerance, within)
        &&& adapted_damper(self.damper, grew, after.damper)
        &&& after.iteration == self.iteration + 1
        &&& after.voltages@ == (if grew {
            self.voltages@
        } else {
            proposal
        })
        &&& after.accepted_error == (if grew {
            self.accepted_error
        } else {
            Some(error)
        })
        &&& progress == progress_after(after.iteration as nat, within)
    }

    /// One iteration leads from the state `self` to the state `after` and the
    /// decision `progress`.
    pub open spec fn steps_to(
        self,
        tables: &Contributions<S>,
        tolerance: S,
        after: Self,
        progress: Progress,
    ) -> bool {
        exists|
            charges: Seq<S>,
            deltas: Seq<S>,
            proposal: Seq<S>,
            error: S,
            grew: bool,
            within: bool,
        |
            self.iterates(
                tables,
                tolerance,
                charges,
                deltas,
                proposal,
                error,
                grew,
                within,
                after,
                progress,
            )
    }

    /// `steps` iterations, at least one, lead from the state `self` to the
    /// state `last`: the last of them ends with the decision `progress`, and
    /// every one before it with `Continue`.
    pub open spec fn relaxes_to(
        self,
        tables: &Contributions<S>,
        tolerance: S,
        steps: nat,
        last: Self,
        progress: Progress,
    ) -> bool
        decreases steps,
    {
        if steps == 0 {
            false
        } else if steps == 1 {
            self.steps_to(tables, tolerance, last, progress)
        } else {
            exists|previous: Self|
                #![trigger previous.steps_to(tables, tolerance, last, progress)]
                {
                    &&& self.relaxes_to(
                        tables,
                        tolerance,
                        (steps - 1) as nat,
                        previous,
                        Progress::Continue,
                    )
                    &&& previous.steps_to(tables, tolerance, last, progress)
                }
        }
    }

    /// The state before the first iteration: the given voltages, or the number
    /// that stands for zero at every node when none are given; a damping factor
    /// of one; no accepted error; no iteration made.
    ///
    /// Given voltages are refused exactly when they do not have one entry per node.
    pub fn start(nodes_count: usize, initial_voltages: Option<Vec<S>>) -> (r: Result<
        Self,
        InvalidInput,
    >)
        ensures
            r is Err <==> (initial_voltages matches Some(given) && given@.len() != nodes_count),
            r matches Err(e) ==> e == InvalidInput::InitialLengthMismatch,
            r matches Ok(state) ==> state.starts(nodes_count, initial_voltages),
    {
        let voltages = match initial_voltages {
            Some(given) => {
                if given.len() != nodes_count {
                    return Err(InvalidInput::InitialLengthMismatch);
                }
                given
            },
            None => filled(S::from_int(0), nodes_count),
        };
        Ok(Relaxation { voltages, accepted_error: None, damper: S::from_int(1), iteration: 0 })
    }

    /// One iteration: evaluates the charges at the present voltages, derives
    /// the update of every node from them, proposes the updated voltages, and
    /// settles the proposal on how its largest change compares with the last
    /// accepted one and with `tolerance`.
    ///
    /// Whatever the arithmetic returns: the iteration counts; the estimate keeps
    /// one entry per node; it is either left as it was, together with the
    /// accepted error, or replaced with an error recorded; and the first
    /// proposal is never discarded.
    pub fn step(&mut self, tables: &Contributions<S>, tolerance: S) -> (progress: Progress)
        requires
            old(self).iteration < u32::MAX,
            tables.well_formed(old(self).voltages@.len()),
        ensures
            old(self).steps_to(tables, tolerance, *final(self), progress),
            final(self).iteration == old(self).iteration + 1,
            final(self).voltages@.len() == old(self).voltages@.len(),
            (final(self).voltages@ == old(self).voltages@ && final(self).accepted_error == old(
                self,
            ).accepted_error) || final(self).accepted_error is Some,
            old(self).accepted_error is None ==> final(self).accepted_error is Some,
            progress == Progress::Continue ==> final(self).iteration < MAX_ITERATIONS,
            progress == Progress::Exhausted ==> final(self).iteration >= MAX_ITERATIONS,
    {
        let charges = q_vir_impact(
            self.voltages.as_slice(),
            &tables.constants,
            &tables.linears,
            &tables.exponentials,
        );
        let deltas = delta_v_impact(
            charges.as_slice(),
            self.damper,
            &tables.constants,
            &tables.linears,
            &tables.exponentials,
        );
        let proposal = advanced(&self.voltages, &deltas);
        let error = largest_magnitude(&deltas);
        let grew = match self.accepted_error {
            Some(accepted) => accepted.less_than(error),
            None => false,
        };
        let within = error.less_than(tolerance);
        let damper = adapt_damper(self.damper, grew);
        let ghost tried = proposal@;
        let progress = self.settle(proposal, error, grew, within, damper);
        assert(old(self).iterates(
            tables,
            tolerance,
            charges@,
            deltas@,
            tried,
            error,
            grew,
            within,
            *self,
            progress,
        ));
        progress
    }
}

/// `r` is some voltage less itself: zero wherever the number type subtracts
/// a value from itself to zero.
pub open spec fn less_itself<S: Scalar>(r: S) -> bool {
    exists|voltage: S| difference_of(voltage, voltage, r)
}

/// The run behind the outcome `point` of a solve: it starts in the state
/// `first`, makes `point.iterations` iterations up to the state `last`, and
/// stops there because the decision `progress` is no longer `Continue`. The
/// outcome reports the voltages of `last` less that of node `ground`, its
/// damping factor, and convergence exactly when the last decision is
/// `Converged`, that is when the last error was below the tolerance.
pub open spec fn solve_run<S: Scalar>(
    tables: &Contributions<S>,
    nodes_count: usize,
    ground: usize,
    tolerance: S,
    initial_voltages: Option<Vec<S>>,
    first: Relaxation<S>,
    last: Relaxation<S>,
    progress: Progress,
    point: OperatingPoint<S>,
) -> bool {
    &&& first.starts(nodes_count, initial_voltages)
    &&& first.relaxes_to(tables, tolerance, point.iterations as nat, last, progress)
    &&& progress != Progress::Continue
    &&& point.converged == (progress == Progress::Converged)
    &&& point.final_damper == last.damper
    &&& relative_to(last.voltages@, ground as int, point.voltages@)
}

/// `point` is an outcome of the relaxation over `tables` from
/// `initial_voltages`.
pub open spec fn solved<S: Scalar>(
    tables: &Contributions<S>,
    nodes_count: usize,
    ground: usize,
    tolerance: S,
    initial_voltages: Option<Vec<S>>,
    point: OperatingPoint<S>,
) -> bool {
    exists|first: Relaxation<S>, last: Relaxation<S>, progress: Progress|
        solve_run(
            tables,
            nodes_count,
            ground,
            tolerance,
            initial_voltages,
            first,
            last,
            progress,
            point,
        )
}

/// `point` is an outcome of the relaxation over `tables`, which hold the
/// roles of the circuit's components scaled by `t_vir`.
pub open spec fn simulated_over<S: Scalar>(
    circuit: &Circuit<S>,
    t_vir: S,
    tolerance: S,
    initial_voltages: Option<Vec<S>>,
    tables: Contributions<S>,
    point: OperatingPoint<S>,
) -> bool {
    &&& tables.lowers(circuit.components@, t_vir)
    &&& solved(
        &tables,
        circuit.nodes_count,
        circuit.ground_node,
        tolerance,
        initial_voltages,
        point,
    )
}

/// Runs the relaxation over compiled role tables.
///
/// Starting from `initial_voltages`, or from zero everywhere when none are
/// given, iterations are made until the largest voltage change of one is below
/// `tolerance` or `MAX_ITERATIONS` of them are made; the voltages are then
/// reported relative to node `ground`.
///
/// Running out of iterations is no error: the last estimate is returned with
/// `converged` false. Given voltages are refused exactly when they do not have
/// one entry per node.
pub fn solve<S: Scalar>(
    tables: &Contributions<S>,
    nodes_count: usize,
    ground: usize,
    tolerance: S,
    initial_voltages: Option<Vec<S>>,
) -> (r: Result<OperatingPoint<S>, InvalidInput>)
    requires
        tables.well_formed(nodes_count as nat),
        ground < nodes_count,
    ensures
        r is Err <==> (initial_voltages matches Some(given) && given@.len() != nodes_count),
        r matches Err(e) ==> e == InvalidInput::InitialLengthMismatch,
        r matches Ok(point) ==> {
            &&& solved(tables, nodes_count, ground, tolerance, initial_voltages, point)
            &&& less_itself(point.voltages@[ground as int])
            &&& point.voltages@.len() == nodes_count
            &&& 1 <= point.iterations <= MAX_ITERATIONS
            &&& !point.converged ==> point.iterations == MAX_ITERATIONS
        },
{
    let mut state = match Relaxation::start(nodes_count, initial_voltages) {
        Err(e) => {
            return Err(e);
        },
        Ok(state) => state,
    };
    let ghost first = state;
    let mut progress = state.step(tables, tolerance);
    while progress == Progress::Continue
        invariant
            tables.well_formed(nodes_count as nat),
            state.voltages@.len() == nodes_count,
            1 <= state.iteration <= MAX_ITERATIONS,
            progress == Progress::Continue ==> state.iteration < MAX_ITERATIONS,
            progress == Progress::Exhausted ==> state.iteration == MAX_ITERATIONS,
            first.relaxes_to(tables, tolerance, state.iteration as nat, state, progress),
        decreases MAX_ITERATIONS - state.iteration,
    {
        let ghost previous = state;
        progress = state.step(tables, tolerance);
        assert(previous.steps_to(tables, tolerance, state, progress));
    }
    let point = OperatingPoint {
        voltages: ground_relative(&state.voltages, ground),
        converged: progress == Progress::Converged,
        iterations: state.iteration,
        final_damper: state.damper,
    };
    assert(difference_of(
        state.voltages@[ground as int],
        state.voltages@[ground as int],
        point.voltages@[ground as int],
    ));
    assert(solve_run(
        tables,
        nodes_count,
        ground,
        tolerance,
        initial_voltages,
        first,
        state,
        progress,
        point,
    ));
    Ok(point)
}

/// Whether a solve of `circuit` from `initial_voltages` is refused with `e`:
/// with the circuit's first defect if it has one, otherwise with a length
/// mismatch if the given voltages do not have one entry per node.
pub open spec fn refused<S>(
    circuit: &Circuit<S>,
    initial_voltages: Option<Vec<S>>,
    e: InvalidInput,
) -> bool {
    ||| circuit.defect(e)
    ||| {
        &&& circuit.well_formed()
        &&& e == InvalidInput::InitialLengthMismatch
        &&& initial_voltages matches Some(given)
        &&& given@.len() != circuit.nodes_count
    }
}

/// Whether a solve of `circuit` from `initial_voltages` is carried out.
pub open spec fn solvable<S>(circuit: &Circuit<S>, initial_voltages: Option<Vec<S>>) -> bool {
    &&& circuit.well_formed()
    &&& initial_voltages matches Some(given) ==> given@.len() == circuit.nodes_count
}

/// A solve is refused with at most one error, and a refused solve is not
/// carried out.
pub proof fn refusal_is_unique<S>(
    circuit: &Circuit<S>,
    initial_voltages: Option<Vec<S>>,
    a: InvalidInput,
    b: InvalidInput,
)
    requires
        refused(circuit, initial_voltages, a),
        refused(circuit, initial_voltages, b),
    ensures
        a == b,
        !solvable(circuit, initial_voltages),
{
    if circuit.defect(a) && circuit.defect(b) {
        defect_is_unique(*circuit, a, b);
    } else if circuit.defect(a) {
        defect_is_unique(*circuit, a, a);
    } else if circuit.defect(b) {
        defect_is_unique(*circuit, b, b);
    }
}

/// Computes the operating point of `circuit` by damped relaxation: the
/// components are lowered into roles scaled by `t_vir`, and the relaxation is
/// run over them with the circuit's ground node.
///
/// Running out of iterations is no error: the last estimate is returned with
/// `converged` false. Only a malformed circuit or initial voltages of the wrong
/// length are refused, and then nothing is computed.
pub fn simulate_op<S: Scalar>(
    circuit: &Circuit<S>,
    t_vir: S,
    tolerance: S,
    initial_voltages: Option<Vec<S>>,
) -> (r: Result<OperatingPoint<S>, InvalidInput>)
    ensures
        r is Ok <==> solvable(circuit, initial_voltages),
        r matches Err(e) ==> refused(circuit, initial_voltages, e),
        r matches Ok(point) ==> {
            &&& exists|tables: Contributions<S>|
                simulated_over(circuit, t_vir, tolerance, initial_voltages, tables, point)
            &&& less_itself(point.voltages@[circuit.ground_node as int])
            &&& point.voltages@.len() == circuit.nodes_count
            &&& 1 <= point.iterations <= MAX_ITERATIONS
            &&& !point.converged ==> point.iterations == MAX_ITERATIONS
        },
{
    match circuit.validate() {
        Err(e) => Err(e),
        Ok(()) => {
            let tables = compile(circuit, t_vir);
            let r = solve(
                &tables,
                circuit.nodes_count,
                circuit.ground_node,
                tolerance,
                initial_voltages,
            );
            proof {
                if r is Ok {
                    assert(simulated_over(
                        circuit,
                        t_vir,
                        tolerance,
                        initial_voltages,
                        tables,
                        r->Ok_0,
                    ));
                }
            }
            r
        },
    }
}

} // verus!
