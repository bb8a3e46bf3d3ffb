use vstd::prelude::*;
use crate::general::scalar::{
    clamp_between, clamped, difference_of, exponential_of, filled, negation_of, number_of,
    product_of, quotient_of, signed, signed_of, sum_of, Scalar, Sign,
};

verus! {

/// One component's contribution to one node.
#[derive(Debug)]
pub enum Role<S> {
    /// A fixed injection into the node, whatever the voltages are.
    ConstantCharge(S),
    /// An ohmic link to a neighbor node.
    Linear { conductance: S, neighbor: usize },
    /// One side of a junction. Both sides carry the same `anode`, `cathode`,
    /// `i_s` and `n`; `flip` tells the two sides apart.
    Exponential { i_s: S, n: S, neighbor: usize, anode: usize, cathode: usize, flip: Sign },
}

impl<S: Copy> Clone for Role<S> {
    fn clone(&self) -> (r: Self)
        ensures
            r == *self,
    {
        match self {
            Role::ConstantCharge(current) => Role::ConstantCharge(*current),
            Role::Linear { conductance, neighbor } => Role::Linear {
                conductance: *conductance,
                neighbor: *neighbor,
            },
            Role::Exponential { i_s, n, neighbor, anode, cathode, flip } => Role::Exponential {
                i_s: *i_s,
                n: *n,
                neighbor: *neighbor,
                anode: *anode,
                cathode: *cathode,
                flip: *flip,
            },
        }
    }
}

impl<S> Role<S> {
    /// Every node index the role holds names one of `nodes` nodes.
    pub open spec fn within(self, nodes: nat) -> bool {
        match self {
            Role::ConstantCharge(_) => true,
            Role::Linear { neighbor, .. } => neighbor < nodes,
            Role::Exponential { neighbor, anode, cathode, .. } => neighbor < nodes && anode < nodes
                && cathode < nodes,
        }
    }

    /// Tells whether every node index the role holds names one of `nodes_count` nodes.
    pub fn fits(&self, nodes_count: usize) -> (b: bool)
        ensures
            b == self.within(nodes_count as nat),
    {
        match self {
            Role::ConstantCharge(_) => true,
            Role::Linear { neighbor, .. } => *neighbor < nodes_count,
            Role::Exponential { neighbor, anode, cathode, .. } => *neighbor < nodes_count && *anode
                < nodes_count && *cathode < nodes_count,
        }
    }
}

/// `r` is the quotient of `numerator`, the number 25852, and `denominator`,
/// the number 1000000.
pub open spec fn thermal_ratio<S: Scalar>(numerator: S, denominator: S, r: S) -> bool {
    &&& number_of(25852, numerator)
    &&& number_of(1_000_000, denominator)
    &&& quotient_of(numerator, denominator, r)
}

/// `r` is the thermal voltage: 25852 divided by 1000000.
pub open spec fn is_thermal_voltage<S: Scalar>(r: S) -> bool {
    exists|numerator: S, denominator: S| thermal_ratio(numerator, denominator, r)
}

/// The steps from the terminal voltages of a junction to the current `r` of
/// its side with sign `flip`, each with the value it gives:
/// the anode-to-cathode voltage `raw` is clamped to `[low, limit]`, which is
/// `[-5, 5]`; the clamped voltage `v_diff` is divided by `scale`, the emission
/// coefficient times the thermal voltage; `growth` is the exponential of that
/// `ratio`; and `r` is `i_s * (growth - 1)` with the sign applied.
pub open spec fn junction_steps<S: Scalar>(
    i_s: S,
    n: S,
    v_anode: S,
    v_cathode: S,
    flip: Sign,
    limit: S,
    low: S,
    raw: S,
    v_diff: S,
    thermal: S,
    scale: S,
    ratio: S,
    growth: S,
    one: S,
    excess: S,
    magnitude: S,
    r: S,
) -> bool {
    &&& number_of(5, limit)
    &&& negation_of(limit, low)
    &&& difference_of(v_anode, v_cathode, raw)
    &&& clamped(raw, low, limit, v_diff)
    &&& is_thermal_voltage(thermal)
    &&& product_of(n, thermal, scale)
    &&& quotient_of(v_diff, scale, ratio)
    &&& exponential_of(ratio, growth)
    &&& number_of(1, one)
    &&& difference_of(growth, one, excess)
    &&& product_of(i_s, excess, magnitude)
    &&& signed_of(flip, magnitude, r)
}

/// `r` is the current of a junction seen from the side with sign `flip`:
/// `flip * i_s * (exp(d / (n * thermal voltage)) - 1)`, where `d` is the
/// anode-to-cathode voltage clamped to `[-5, 5]` before it is exponentiated.
pub open spec fn junction_current_of<S: Scalar>(
    i_s: S,
    n: S,
    v_anode: S,
    v_cathode: S,
    flip: Sign,
    r: S,
) -> bool {
    exists|
        limit: S,
        low: S,
        raw: S,
        v_diff: S,
        thermal: S,
        scale: S,
        ratio: S,
        growth: S,
        one: S,
        excess: S,
        magnitude: S,
    |
        junction_steps(
            i_s,
            n,
            v_anode,
            v_cathode,
            flip,
            limit,
            low,
            raw,
            v_diff,
            thermal,
            scale,
            ratio,
            growth,
            one,
            excess,
            magnitude,
            r,
        )
}

/// The thermal voltage in volts: 25852 millionths.
fn thermal_voltage<S: Scalar>() -> (r: S)
    ensures
        is_thermal_voltage(r),
{
    let numerator = S::from_int(25852);
    let denominator = S::from_int(1_000_000);
    let r = numerator.over(denominator);
    assert(thermal_ratio(numerator, denominator, r));
    r
}

/// Current of a junction seen from the side with sign `flip`:
/// `flip * i_s * (exp(d / (n * thermal voltage)) - 1)`, where `d` is the
/// anode-to-cathode voltage clamped to `[-5, 5]` before it is exponentiated.
fn junction_current<S: Scalar>(i_s: S, n: S, v_anode: S, v_cathode: S, flip: Sign) -> (r: S)
    ensures
        junction_current_of(i_s, n, v_anode, v_cathode, flip, r),
{
    let limit = S::from_int(5);
    let low = limit.negated();
    let raw = v_anode.minus(v_cathode);
    let v_diff = clamp_between(raw, low, limit);
    let thermal = thermal_voltage();
    let scale = n.times(thermal);
    let ratio = v_diff.over(scale);
    let growth = ratio.exp();
    let one = S::from_int(1);
    let excess = growth.minus(one);
    let magnitude = i_s.times(excess);
    let r = signed(flip, magnitude);
    assert(junction_steps(
        i_s,
        n,
        v_anode,
        v_cathode,
        flip,
        limit,
        low,
        raw,
        v_diff,
        thermal,
        scale,
        ratio,
        growth,
        one,
        excess,
        magnitude,
        r,
    ));
    r
}

/// `delta` is `damper * difference`, where `difference` is the charge `own` of
/// a node less the charge `other` of its neighbor.
pub open spec fn pull<S: Scalar>(own: S, other: S, damper: S, difference: S, delta: S) -> bool {
    &&& difference_of(own, other, difference)
    &&& product_of(damper, difference, delta)
}

/// `q` is `conductance * difference`, where `difference` is the voltage
/// `other` of the neighbor less the voltage `own` of the node.
pub open spec fn ohmic<S: Scalar>(other: S, own: S, conductance: S, difference: S, q: S) -> bool {
    &&& difference_of(other, own, difference)
    &&& product_of(conductance, difference, q)
}

impl<S: Scalar> Role<S> {
    /// `q` is the role's contribution to the virtual charge of node `target`
    /// at the given voltages: the stored injection for a constant,
    /// `conductance * (voltages[neighbor] - voltages[target])` for a link, and
    /// the junction current at the voltages of anode and cathode, with the
    /// side's sign, for a junction side.
    pub open spec fn charge_of(self, voltages: Seq<S>, target: int, q: S) -> bool {
        match self {
            Role::ConstantCharge(current) => q == current,
            Role::Linear { conductance, neighbor } => exists|difference: S|
                ohmic(voltages[neighbor as int], voltages[target], conductance, difference, q),
            Role::Exponential { i_s, n, anode, cathode, flip, .. } => junction_current_of(
                i_s,
                n,
                voltages[anode as int],
                voltages[cathode as int],
                flip,
                q,
            ),
        }
    }

    /// `delta` is the role's contribution to the voltage update of node
    /// `target`: the number zero for a constant injection, and
    /// `damper * (charges[target] - charges[neighbor])` for a link or a
    /// junction side.
    pub open spec fn update_of(self, charges: Seq<S>, damper: S, target: int, delta: S) -> bool {
        match self {
            Role::ConstantCharge(_) => number_of(0, delta),
            Role::Linear { neighbor, .. } => exists|difference: S|
                pull(charges[target], charges[neighbor as int], damper, difference, delta),
            Role::Exponential { neighbor, .. } => exists|difference: S|
                pull(charges[target], charges[neighbor as int], damper, difference, delta),
        }
    }

    /// The role's contribution to the virtual charge of `target_node`: the stored
    /// injection, `conductance * (V[neighbor] - V[target_node])`, or the junction
    /// current.
    pub fn q_vir_impact(&self, voltages: &[S], target_node: usize) -> (q: S)
        requires
            self.within(voltages@.len()),
            target_node < voltages@.len(),
        ensures
            self.charge_of(voltages@, target_node as int, q),
    {
        match *self {
            Role::ConstantCharge(current) => current,
            Role::Linear { conductance, neighbor } => {
                let difference = voltages[neighbor].minus(voltages[target_node]);
                let q = conductance.times(difference);
                assert(ohmic(voltages@[neighbor as int], voltages@[target_node as int],
                    conductance, difference, q));
                q
            },
            Role::Exponential { i_s, n, neighbor: _, anode, cathode, flip } => junction_current(
                i_s,
                n,
                voltages[anode],
                voltages[cathode],
                flip,
            ),
        }
    }

    /// The role's contribution to the voltage update of `target_node`: nothing
    /// for a constant injection, `damper * (Q[target_node] - Q[neighbor])` for a
    /// link or a junction side.
    pub fn delta_v_impact(&self, charges: &[S], damper: S, target_node: usize) -> (delta: S)
        requires
            self.within(charges@.len()),
            target_node < charges@.len(),
        ensures
            self.update_of(charges@, damper, target_node as int, delta),
    {
        match *self {
            Role::ConstantCharge(_) => S::from_int(0),
            Role::Linear { neighbor, .. } => {
                let difference = charges[target_node].minus(charges[neighbor]);
                let delta = damper.times(difference);
                assert(pull(charges@[target_node as int], charges@[neighbor as int], damper,
                    difference, delta));
                delta
            },
            Role::Exponential { neighbor, .. } => {
                let difference = charges[target_node].minus(charges[neighbor]);
                let delta = damper.times(difference);
                assert(pull(charges@[target_node as int], charges@[neighbor as int], damper,
                    difference, delta));
                delta
            },
        }
    }
}

/// Every entry of `indices` names one of `nodes` nodes.
pub open spec fn all_below(indices: Seq<usize>, nodes: nat) -> bool {
    forall|i: int| 0 <= i < indices.len() ==> #[trigger] indices[i] < nodes
}

/// Tells whether every entry of `indices` names one of `nodes` nodes.
pub fn indices_below(indices: &Vec<usize>, nodes: usize) -> (b: bool)
    ensures
        b == all_below(indices@, nodes as nat),
{
    let mut i: usize = 0;
    while i < indices.len()
        invariant
            i <= indices@.len(),
            forall|j: int| 0 <= j < i ==> #[trigger] indices@[j] < nodes,
        decreases indices@.len() - i,
    {
        if indices[i] >= nodes {
            return false;
        }
        i = i + 1;
    }
    true
}

/// All constant injections, one entry per role.
pub struct ConstantCharges<S> {
    pub currents: Vec<S>,
    pub target_nodes: Vec<usize>,
}

/// All ohmic links, one entry per role.
pub struct LinearContributions<S> {
    pub conductances: Vec<S>,
    pub neighbors: Vec<usize>,
    pub target_nodes: Vec<usize>,
}

/// All junction sides, one entry per role.
pub struct ExponentialContributions<S> {
    pub i_s: Vec<S>,
    pub n: Vec<S>,
    pub anodes: Vec<usize>,
    pub cathodes: Vec<usize>,
    pub flips: Vec<Sign>,
    pub target_nodes: Vec<usize>,
    pub neighbors: Vec<usize>,
}

impl<S> ConstantCharges<S> {
    /// The columns have one length.
    pub open spec fn aligned(&self) -> bool {
        self.currents@.len() == self.target_nodes@.len()
    }

    /// The columns have one length and every target names a node.
    pub open spec fn well_formed(&self, nodes: nat) -> bool {
        &&& self.aligned()
        &&& all_below(self.target_nodes@, nodes)
    }

    /// The role at position `i`.
    pub open spec fn role(&self, i: int) -> Role<S> {
        Role::ConstantCharge(self.currents@[i])
    }

    /// The roles of the table, row by row.
    pub open spec fn roles(&self) -> Seq<Role<S>> {
        Seq::new(self.target_nodes@.len(), |i: int| self.role(i))
    }

    /// Tells whether the table is well formed over `nodes_count` nodes.
    pub fn fits(&self, nodes_count: usize) -> (b: bool)
        ensures
            b == self.well_formed(nodes_count as nat),
    {
        self.currents.len() == self.target_nodes.len() && indices_below(
            &self.target_nodes,
            nodes_count,
        )
    }

    /// An empty table.
    pub fn new() -> (t: Self)
        ensures
            t.currents@.len() == 0,
            t.target_nodes@.len() == 0,
    {
        ConstantCharges { currents: Vec::new(), target_nodes: Vec::new() }
    }
}

impl<S> LinearContributions<S> {
    /// The columns have one length.
    pub open spec fn aligned(&self) -> bool {
        &&& self.conductances@.len() == self.target_nodes@.len()
        &&& self.neighbors@.len() == self.target_nodes@.len()
    }

    /// The columns have one length and every index names a node.
    pub open spec fn well_formed(&self, nodes: nat) -> bool {
        &&& self.aligned()
        &&& all_below(self.target_nodes@, nodes)
        &&& all_below(self.neighbors@, nodes)
    }

    /// The role at position `i`.
    pub open spec fn role(&self, i: int) -> Role<S> {
        Role::Linear { conductance: self.conductances@[i], neighbor: self.neighbors@[i] }
    }

    /// The roles of the table, row by row.
    pub open spec fn roles(&self) -> Seq<Role<S>> {
        Seq::new(self.target_nodes@.len(), |i: int| self.role(i))
    }

    /// Tells whether the table is well formed over `nodes_count` nodes.
    pub fn fits(&self, nodes_count: usize) -> (b: bool)
        ensures
            b == self.well_formed(nodes_count as nat),
    {
        let size = self.target_nodes.len();
        self.conductances.len() == size && self.neighbors.len() == size && indices_below(
            &self.target_nodes,
            nodes_count,
        ) && indices_below(&self.neighbors, nodes_count)
    }

    /// An empty table.
    pub fn new() -> (t: Self)
        ensures
            t.conductances@.len() == 0,
            t.neighbors@.len() == 0,
            t.target_nodes@.len() == 0,
    {
        LinearContributions {
            conductances: Vec::new(),
            neighbors: Vec::new(),
            target_nodes: Vec::new(),
        }
    }
}

impl<S> ExponentialContributions<S> {
    /// The columns have one length.
    pub open spec fn aligned(&self) -> bool {
        &&& self.i_s@.len() == self.target_nodes@.len()
        &&& self.n@.len() == self.target_nodes@.len()
        &&& self.anodes@.len() == self.target_nodes@.len()
        &&& self.cathodes@.len() == self.target_nodes@.len()
        &&& self.flips@.len() == self.target_nodes@.len()
        &&& self.neighbors@.len() == self.target_nodes@.len()
    }

    /// The columns have one length and every index names a node.
    pub open spec fn well_formed(&self, nodes: nat) -> bool {
        &&& self.aligned()
        &&& all_below(self.target_nodes@, nodes)
        &&& all_below(self.neighbors@, nodes)
        &&& all_below(self.anodes@, nodes)
        &&& all_below(self.cathodes@, nodes)
    }

    /// The role at position `i`.
    pub open spec fn role(&self, i: int) -> Role<S> {
        Role::Exponential {
            i_s: self.i_s@[i],
            n: self.n@[i],
            neighbor: self.neighbors@[i],
            anode: self.anodes@[i],
            cathode: self.cathodes@[i],
            flip: self.flips@[i],
        }
    }

    /// The roles of the table, row by row.
    pub open spec fn roles(&self) -> Seq<Role<S>> {
        Seq::new(self.target_nodes@.len(), |i: int| self.role(i))
    }

    /// Tells whether the table is well formed over `nodes_count` nodes.
    pub fn fits(&self, nodes_count: usize) -> (b: bool)
        ensures
            b == self.well_formed(nodes_count as nat),
    {
        let size = self.target_nodes.len();
        self.i_s.len() == size && self.n.len() == size && self.anodes.len() == size
            && self.cathodes.len() == size && self.flips.len() == size && self.neighbors.len()
            == size && indices_below(&self.target_nodes, nodes_count) && indices_below(
            &self.neighbors,
            nodes_count,
        ) && indices_below(&self.anodes, nodes_count) && indices_below(
            &self.cathodes,
            nodes_count,
        )
    }

    /// An empty table.
    pub fn new() -> (t: Self)
        ensures
            t.i_s@.len() == 0,
            t.n@.len() == 0,
            t.anodes@.len() == 0,
            t.cathodes@.len() == 0,
            t.flips@.len() == 0,
            t.target_nodes@.len() == 0,
            t.neighbors@.len() == 0,
    {
        ExponentialContributions {
            i_s: Vec::new(),
            n: Vec::new(),
            anodes: Vec::new(),
            cathodes: Vec::new(),
            flips: Vec::new(),
            target_nodes: Vec::new(),
            neighbors: Vec::new(),
        }
    }
}

/// No role among the first `upto` of a table with these targets contributes to `node`.
pub open spec fn untouched_before(targets: Seq<usize>, upto: int, node: int) -> bool {
    forall|j: int| 0 <= j < upto && j < targets.len() ==> #[trigger] targets[j] != node
}

/// No role of a table with these targets contributes to `node`.
pub open spec fn untouched(targets: Seq<usize>, node: int) -> bool {
    untouched_before(targets, targets.len() as int, node)
}

/// No role of the three tables contributes to the charge of `node`.
pub open spec fn unfed<S>(
    consts: &ConstantCharges<S>,
    linears: &LinearContributions<S>,
    exps: &ExponentialContributions<S>,
    node: int,
) -> bool {
    &&& untouched(consts.target_nodes@, node)
    &&& untouched(linears.target_nodes@, node)
    &&& untouched(exps.target_nodes@, node)
}

/// Neither a link nor a junction side contributes to the update of `node`.
pub open spec fn unmoved<S>(
    linears: &LinearContributions<S>,
    exps: &ExponentialContributions<S>,
    node: int,
) -> bool {
    &&& untouched(linears.target_nodes@, node)
    &&& untouched(exps.target_nodes@, node)
}

/// `r` is reached from `start` by adding, row by row, what each of the first
/// `upto` roles that contribute to `node` adds to its charge at the given
/// voltages. Rows of other nodes add nothing.
pub open spec fn charges_added<S: Scalar>(
    roles: Seq<Role<S>>,
    targets: Seq<usize>,
    upto: int,
    voltages: Seq<S>,
    node: int,
    start: S,
    r: S,
) -> bool
    decreases upto,
{
    if upto <= 0 {
        r == start
    } else if targets[upto - 1] == node {
        exists|earlier: S, term: S|
            #![trigger sum_of(earlier, term, r)]
            {
                &&& charges_added(roles, targets, upto - 1, voltages, node, start, earlier)
                &&& roles[upto - 1].charge_of(voltages, node, term)
                &&& sum_of(earlier, term, r)
            }
    } else {
        charges_added(roles, targets, upto - 1, voltages, node, start, r)
    }
}

/// `r` is reached from `start` by adding, row by row, what each of the first
/// `upto` roles that contribute to `node` adds to its voltage update at the
/// given charges and damping factor. Rows of other nodes add nothing.
pub open spec fn updates_added<S: Scalar>(
    roles: Seq<Role<S>>,
    targets: Seq<usize>,
    upto: int,
    charges: Seq<S>,
    damper: S,
    node: int,
    start: S,
    r: S,
) -> bool
    decreases upto,
{
    if upto <= 0 {
        r == start
    } else if targets[upto - 1] == node {
        exists|earlier: S, term: S|
            #![trigger sum_of(earlier, term, r)]
            {
                &&& updates_added(roles, targets, upto - 1, charges, damper, node, start, earlier)
                &&& roles[upto - 1].update_of(charges, damper, node, term)
                &&& sum_of(earlier, term, r)
            }
    } else {
        updates_added(roles, targets, upto - 1, charges, damper, node, start, r)
    }
}

/// The sums that lead to the charge `q` of `node`: from the number `zero`,
/// over all constant injections to `after_constants`, over all links to
/// `after_links`, over all junction sides to `q`.
pub open spec fn charge_sums<S: Scalar>(
    consts: &ConstantCharges<S>,
    linears: &LinearContributions<S>,
    exps: &ExponentialContributions<S>,
    voltages: Seq<S>,
    node: int,
    zero: S,
    after_constants: S,
    after_links: S,
    q: S,
) -> bool {
    &&& number_of(0, zero)
    &&& charges_added(
        consts.roles(),
        consts.target_nodes@,
        consts.target_nodes@.len() as int,
        voltages,
        node,
        zero,
        after_constants,
    )
    &&& charges_added(
        linears.roles(),
        linears.target_nodes@,
        linears.target_nodes@.len() as int,
        voltages,
        node,
        after_constants,
        after_links,
    )
    &&& charges_added(
        exps.roles(),
        exps.target_nodes@,
        exps.target_nodes@.len() as int,
        voltages,
        node,
        after_links,
        q,
    )
}

/// `q` is the virtual charge of `node` at the given voltages: the number zero
/// with the contributions of its roles added in table order, constants first,
/// then links, then junction sides.
pub open spec fn node_charge<S: Scalar>(
    consts: &ConstantCharges<S>,
    linears: &LinearContributions<S>,
    exps: &ExponentialContributions<S>,
    voltages: Seq<S>,
    node: int,
    q: S,
) -> bool {
    exists|zero: S, after_constants: S, after_links: S|
        charge_sums(consts, linears, exps, voltages, node, zero, after_constants, after_links, q)
}

/// `charges` holds the virtual charge of every node at the given voltages.
pub open spec fn charges_at<S: Scalar>(
    consts: &ConstantCharges<S>,
    linears: &LinearContributions<S>,
    exps: &ExponentialContributions<S>,
    voltages: Seq<S>,
    charges: Seq<S>,
) -> bool {
    &&& charges.len() == voltages.len()
    &&& forall|k: int|
        0 <= k < charges.len() ==> node_charge(
            consts,
            linears,
            exps,
            voltages,
            k,
            #[trigger] charges[k],
        )
}

/// The sums that lead to the voltage update `delta` of `node`: from the number
/// `zero`, over all links to `after_links`, over all junction sides to `delta`.
pub open spec fn update_sums<S: Scalar>(
    linears: &LinearContributions<S>,
    exps: &ExponentialContributions<S>,
    charges: Seq<S>,
    damper: S,
    node: int,
    zero: S,
    after_links: S,
    delta: S,
) -> bool {
    &&& number_of(0, zero)
    &&& updates_added(
        linears.roles(),
        linears.target_nodes@,
        linears.target_nodes@.len() as int,
        charges,
        damper,
        node,
        zero,
        after_links,
    )
    &&& updates_added(
        exps.roles(),
        exps.target_nodes@,
        exps.target_nodes@.len() as int,
        charges,
        damper,
        node,
        after_links,
        delta,
    )
}

/// `delta` is the voltage update of `node` at the given charges: the number
/// zero with `damper * (charges[node] - charges[neighbor])` added for each of
/// its links and then for each of its junction sides, in table order.
pub open spec fn node_update<S: Scalar>(
    linears: &LinearContributions<S>,
    exps: &ExponentialContributions<S>,
    charges: Seq<S>,
    damper: S,
    node: int,
    delta: S,
) -> bool {
    exists|zero: S, after_links: S|
        update_sums(linears, exps, charges, damper, node, zero, after_links, delta)
}

/// `deltas` holds the voltage update of every node at the given charges.
pub open spec fn updates_at<S: Scalar>(
    linears: &LinearContributions<S>,
    exps: &ExponentialContributions<S>,
    charges: Seq<S>,
    damper: S,
    deltas: Seq<S>,
) -> bool {
    &&& deltas.len() == charges.len()
    &&& forall|k: int|
        0 <= k < deltas.len() ==> node_update(
            linears,
            exps,
            charges,
            damper,
            k,
            #[trigger] deltas[k],
        )
}

/// The virtual charge of every node: the sum, role by role in table order
/// (constants, then links, then junction sides), of what each role contributes
/// at the given voltages.
///
/// A node to which no role contributes ends with the number zero, the same
/// one for all such nodes.
pub fn q_vir_impact<S: Scalar>(
    voltages: &[S],
    consts: &ConstantCharges<S>,
    linears: &LinearContributions<S>,
    exps: &ExponentialContributions<S>,
) -> (q_vir: Vec<S>)
    requires
        consts.well_formed(voltages@.len()),
        linears.well_formed(voltages@.len()),
        exps.well_formed(voltages@.len()),
    ensures
        charges_at(consts, linears, exps, voltages@, q_vir@),
        forall|a: int|
            0 <= a < q_vir@.len() && unfed(consts, linears, exps, a) ==> number_of(
                0,
                #[trigger] q_vir@[a],
            ),
        forall|a: int, b: int|
            #![trigger q_vir@[a], q_vir@[b]]
            0 <= a < q_vir@.len() && 0 <= b < q_vir@.len() && unfed(consts, linears, exps, a)
                && unfed(consts, linears, exps, b) ==> q_vir@[a] == q_vir@[b],
{
    let zero = S::from_int(0);
    let mut q_vir = filled(zero, voltages.len());

    let mut i: usize = 0;
    while i < consts.currents.len()
        invariant
            i <= consts.currents@.len(),
            consts.well_formed(voltages@.len()),
            q_vir@.len() == voltages@.len(),
            forall|a: int|
                0 <= a < q_vir@.len() && untouched_before(consts.target_nodes@, i as int, a)
                    ==> #[trigger] q_vir@[a] == zero,
            forall|k: int|
                0 <= k < q_vir@.len() ==> charges_added(
                    consts.roles(),
                    consts.target_nodes@,
                    i as int,
                    voltages@,
                    k,
                    zero,
                    #[trigger] q_vir@[k],
                ),
        decreases consts.currents@.len() - i,
    {
        let target = consts.target_nodes[i];
        let ghost before = q_vir@;
        let term = consts.currents[i];
        q_vir[target] = q_vir[target].plus(term);
        proof {
            assert forall|k: int| 0 <= k < q_vir@.len() implies charges_added(
                consts.roles(),
                consts.target_nodes@,
                i + 1,
                voltages@,
                k,
                zero,
                #[trigger] q_vir@[k],
            ) by {
                assert(charges_added(
                    consts.roles(),
                    consts.target_nodes@,
                    i as int,
                    voltages@,
                    k,
                    zero,
                    before[k],
                ));
                if k == target {
                    assert(consts.roles()[i as int].charge_of(voltages@, k, term));
                    assert(sum_of(before[k], term, q_vir@[k]));
                }
            }
        }
        i = i + 1;
    }
    let ghost after_constants = q_vir@;

    let mut i: usize = 0;
    while i < linears.conductances.len()
        invariant
            i <= linears.conductances@.len(),
            linears.well_formed(voltages@.len()),
            q_vir@.len() == voltages@.len(),
            after_constants.len() == voltages@.len(),
            forall|a: int|
                0 <= a < q_vir@.len() && untouched(consts.target_nodes@, a) && untouched_before(
                    linears.target_nodes@,
                    i as int,
                    a,
                ) ==> #[trigger] q_vir@[a] == zero,
            forall|k: int|
                0 <= k < q_vir@.len() ==> charges_added(
                    linears.roles(),
                    linears.target_nodes@,
                    i as int,
                    voltages@,
                    k,
                    after_constants[k],
                    #[trigger] q_vir@[k],
                ),
        decreases linears.conductances@.len() - i,
    {
        let target = linears.target_nodes[i];
        let neighbor = linears.neighbors[i];
        let g = linears.conductances[i];
        let ghost before = q_vir@;
        let difference = voltages[neighbor].minus(voltages[target]);
        let term = g.times(difference);
        q_vir[target] = q_vir[target].plus(term);
        proof {
            assert(ohmic(
                voltages@[neighbor as int],
                voltages@[target as int],
                g,
                difference,
                term,
            ));
            assert forall|k: int| 0 <= k < q_vir@.len() implies charges_added(
                linears.roles(),
                linears.target_nodes@,
                i + 1,
                voltages@,
                k,
                after_constants[k],
                #[trigger] q_vir@[k],
            ) by {
                assert(charges_added(
                    linears.roles(),
                    linears.target_nodes@,
                    i as int,
                    voltages@,
                    k,
                    after_constants[k],
                    before[k],
                ));
                if k == target {
                    assert(linears.roles()[i as int] == linears.role(i as int));
                    assert(linears.role(i as int) matches Role::Linear {
                        conductance: held,
                        neighbor: other,
                    } && held == g && other == neighbor);
                    assert(ohmic(
                        voltages@[linears.neighbors@[i as int] as int],
                        voltages@[k],
                        linears.conductances@[i as int],
                        difference,
                        term,
                    ));
                    assert(linears.roles()[i as int].charge_of(voltages@, k, term));
                    assert(sum_of(before[k], term, q_vir@[k]));
                }
            }
        }
        i = i + 1;
    }
    let ghost after_links = q_vir@;

    let mut i: usize = 0;
    while i < exps.i_s.len()
        invariant
            i <= exps.i_s@.len(),
            exps.well_formed(voltages@.len()),
            q_vir@.len() == voltages@.len(),
            after_links.len() == voltages@.len(),
            forall|a: int|
                0 <= a < q_vir@.len() && untouched(consts.target_nodes@, a) && untouched(
                    linears.target_nodes@,
                    a,
                ) && untouched_before(exps.target_nodes@, i as int, a) ==> #[trigger] q_vir@[a]
                    == zero,
            forall|k: int|
                0 <= k < q_vir@.len() ==> charges_added(
                    exps.roles(),
                    exps.target_nodes@,
                    i as int,
                    voltages@,
                    k,
                    after_links[k],
                    #[trigger] q_vir@[k],
                ),
        decreases exps.i_s@.len() - i,
    {
        let term = junction_current(
            exps.i_s[i],
            exps.n[i],
            voltages[exps.anodes[i]],
            voltages[exps.cathodes[i]],
            exps.flips[i],
        );
        let target = exps.target_nodes[i];
        let ghost before = q_vir@;
        q_vir[target] = q_vir[target].plus(term);
        proof {
            assert forall|k: int| 0 <= k < q_vir@.len() implies charges_added(
                exps.roles(),
                exps.target_nodes@,
                i + 1,
                voltages@,
                k,
                after_links[k],
                #[trigger] q_vir@[k],
            ) by {
                assert(charges_added(
                    exps.roles(),
                    exps.target_nodes@,
                    i as int,
                    voltages@,
                    k,
                    after_links[k],
                    before[k],
                ));
                if k == target {
                    assert(exps.roles()[i as int].charge_of(voltages@, k, term));
                    assert(sum_of(before[k], term, q_vir@[k]));
                }
            }
        }
        i = i + 1;
    }

    proof {
        assert forall|k: int| 0 <= k < q_vir@.len() implies node_charge(
            consts,
            linears,
            exps,
            voltages@,
            k,
            #[trigger] q_vir@[k],
        ) by {
            assert(charge_sums(
                consts,
                linears,
                exps,
                voltages@,
                k,
                zero,
                after_constants[k],
                after_links[k],
                q_vir@[k],
            ));
        }
    }
    q_vir
}

/// The voltage update of every node: the sum, over the links and then the
/// junction sides that contribute to it, of `damper * (Q[node] - Q[neighbor])`.
/// Constant injections contribute nothing.
///
/// A node to which neither a link nor a junction side contributes ends with
/// the number zero, the same one for all such nodes.
pub fn delta_v_impact<S: Scalar>(
    charges: &[S],
    damper: S,
    consts: &ConstantCharges<S>,
    linears: &LinearContributions<S>,
    exps: &ExponentialContributions<S>,
) -> (delta_v: Vec<S>)
    requires
        linears.well_formed(charges@.len()),
        exps.well_formed(charges@.len()),
    ensures
        updates_at(linears, exps, charges@, damper, delta_v@),
        forall|a: int|
            0 <= a < delta_v@.len() && unmoved(linears, exps, a) ==> number_of(
                0,
                #[trigger] delta_v@[a],
            ),
        forall|a: int, b: int|
            #![trigger delta_v@[a], delta_v@[b]]
            0 <= a < delta_v@.len() && 0 <= b < delta_v@.len() && unmoved(linears, exps, a)
                && unmoved(linears, exps, b) ==> delta_v@[a] == delta_v@[b],
{
    let zero = S::from_int(0);
    let mut delta_v = filled(zero, charges.len());

    let mut i: usize = 0;
    while i < linears.target_nodes.len()
        invariant
            i <= linears.target_nodes@.len(),
            linears.well_formed(charges@.len()),
            delta_v@.len() == charges@.len(),
            forall|a: int|
                0 <= a < delta_v@.len() && untouched_before(linears.target_nodes@, i as int, a)
                    ==> #[trigger] delta_v@[a] == zero,
            forall|k: int|
                0 <= k < delta_v@.len() ==> updates_added(
                    linears.roles(),
                    linears.target_nodes@,
                    i as int,
                    charges@,
                    damper,
                    k,
                    zero,
                    #[trigger] delta_v@[k],
                ),
        decreases linears.target_nodes@.len() - i,
    {
        let target = linears.target_nodes[i];
        let neighbor = linears.neighbors[i];
        let ghost before = delta_v@;
        let difference = charges[target].minus(charges[neighbor]);
        let term = damper.times(difference);
        delta_v[target] = delta_v[target].plus(term);
        proof {
            assert(pull(
                charges@[target as int],
                charges@[neighbor as int],
                damper,
                difference,
                term,
            ));
            assert forall|k: int| 0 <= k < delta_v@.len() implies updates_added(
                linears.roles(),
                linears.target_nodes@,
                i + 1,
                charges@,
                damper,
                k,
                zero,
                #[trigger] delta_v@[k],
            ) by {
                assert(updates_added(
                    linears.roles(),
                    linears.target_nodes@,
                    i as int,
                    charges@,
                    damper,
                    k,
                    zero,
                    before[k],
                ));
                if k == target {
                    assert(linears.roles()[i as int] == linears.role(i as int));
                    assert(linears.role(i as int) matches Role::Linear { neighbor: other, .. }
                        && other == neighbor);
                    assert(pull(
                        charges@[k],
                        charges@[linears.neighbors@[i as int] as int],
                        damper,
                        difference,
                        term,
                    ));
                    assert(linears.roles()[i as int].update_of(charges@, damper, k, term));
                    assert(sum_of(before[k], term, delta_v@[k]));
                }
            }
        }
        i = i + 1;
    }
    let ghost after_links = delta_v@;

    let mut i: usize = 0;
    while i < exps.target_nodes.len()
        invariant
            i <= exps.target_nodes@.len(),
            exps.well_formed(charges@.len()),
            delta_v@.len() == charges@.len(),
            after_links.len() == charges@.len(),
            forall|a: int|
                0 <= a < delta_v@.len() && untouched(linears.target_nodes@, a)
                    && untouched_before(exps.target_nodes@, i as int, a) ==> #[trigger] delta_v@[a]
                    == zero,
            forall|k: int|
                0 <= k < delta_v@.len() ==> updates_added(
                    exps.roles(),
                    exps.target_nodes@,
                    i as int,
                    charges@,
                    damper,
                    k,
                    after_links[k],
                    #[trigger] delta_v@[k],
                ),
        decreases exps.target_nodes@.len() - i,
    {
        let target = exps.target_nodes[i];
        let neighbor = exps.neighbors[i];
        let ghost before = delta_v@;
        let difference = charges[target].minus(charges[neighbor]);
        let term = damper.times(difference);
        delta_v[target] = delta_v[target].plus(term);
        proof {
            assert(pull(
                charges@[target as int],
                charges@[neighbor as int],
                damper,
                difference,
                term,
            ));
            assert forall|k: int| 0 <= k < delta_v@.len() implies updates_added(
                exps.roles(),
                exps.target_nodes@,
                i + 1,
                charges@,
                damper,
                k,
                after_links[k],
                #[trigger] delta_v@[k],
            ) by {
                assert(updates_added(
                    exps.roles(),
                    exps.target_nodes@,
                    i as int,
                    charges@,
                    damper,
                    k,
                    after_links[k],
                    before[k],
                ));
                if k == target {
                    assert(exps.roles()[i as int] == exps.role(i as int));
                    assert(exps.role(i as int) matches Role::Exponential { neighbor: other, .. }
                        && other == neighbor);
                    assert(exps.roles()[i as int].update_of(charges@, damper, k, term));
                    assert(sum_of(before[k], term, delta_v@[k]));
                }
            }
        }
        i = i + 1;
    }

    proof {
        assert forall|k: int| 0 <= k < delta_v@.len() implies node_update(
            linears,
            exps,
            charges@,
            damper,
            k,
            #[trigger] delta_v@[k],
        ) by {
            assert(update_sums(
                linears,
                exps,
                charges@,
                damper,
                k,
                zero,
                after_links[k],
                delta_v@[k],
            ));
        }
    }
    delta_v
}

/// The positions, in ascending order, at which `targets` holds `node`.
pub open spec fn positions(targets: Seq<usize>, node: usize) -> Seq<usize>
    decreases targets.len(),
{
    if targets.len() == 0 {
        Seq::empty()
    } else if targets.last() == node {
        positions(targets.drop_last(), node).push((targets.len() - 1) as usize)
    } else {
        positions(targets.drop_last(), node)
    }
}

/// `positions(targets, node)` lists exactly the places where `targets` holds
/// `node`, each once and in ascending order.
pub proof fn positions_are_exact(targets: Seq<usize>, node: usize)
    requires
        targets.len() <= usize::MAX,
    ensures
        forall|k: int|
            0 <= k < positions(targets, node).len() ==> {
                &&& (#[trigger] positions(targets, node)[k]) < targets.len()
                &&& targets[positions(targets, node)[k] as int] == node
            },
        forall|j: int, k: int|
            0 <= j < k < positions(targets, node).len() ==> positions(targets, node)[j]
                < positions(targets, node)[k],
        forall|i: int|
            0 <= i < targets.len() && targets[i] == node ==> positions(targets, node).contains(
                i as usize,
            ),
    decreases targets.len(),
{
    if targets.len() > 0 {
        let earlier = positions(targets.drop_last(), node);
        positions_are_exact(targets.drop_last(), node);
        let all = positions(targets, node);
        if targets.last() == node {
            let at = (targets.len() - 1) as usize;
            assert(all == earlier.push(at));
            assert(all[earlier.len() as int] == at);
            assert forall|i: int| 0 <= i < targets.len() && targets[i] == node implies all.contains(
                i as usize,
            ) by {
                if i < targets.len() - 1 {
                    assert(targets.drop_last()[i] == node);
                    let k = choose|k: int| 0 <= k < earlier.len() && earlier[k] == i as usize;
                    assert(all[k] == i as usize);
                } else {
                    assert(all[earlier.len() as int] == i as usize);
                }
            }
        } else {
            assert forall|i: int| 0 <= i < targets.len() && targets[i] == node implies all.contains(
                i as usize,
            ) by {
                assert(targets.drop_last()[i] == node);
            }
        }
    }
}

/// For one node, the positions of its roles in each of the three tables.
pub struct NodeRoles {
    pub constant_indices: Vec<usize>,
    pub linear_indices: Vec<usize>,
    pub exponential_indices: Vec<usize>,
}

impl NodeRoles {
    /// The lists are those of `node`: for each table, the positions of the
    /// roles that contribute to `node`, in ascending order.
    pub open spec fn gathers(
        &self,
        node: usize,
        constant_targets: Seq<usize>,
        linear_targets: Seq<usize>,
        exponential_targets: Seq<usize>,
    ) -> bool {
        &&& self.constant_indices@ == positions(constant_targets, node)
        &&& self.linear_indices@ == positions(linear_targets, node)
        &&& self.exponential_indices@ == positions(exponential_targets, node)
    }

    /// Every listed position lies inside its table.
    pub open spec fn within<S>(
        &self,
        consts: &ConstantCharges<S>,
        linears: &LinearContributions<S>,
        exps: &ExponentialContributions<S>,
    ) -> bool {
        &&& all_below(self.constant_indices@, consts.target_nodes@.len())
        &&& all_below(self.linear_indices@, linears.target_nodes@.len())
        &&& all_below(self.exponential_indices@, exps.target_nodes@.len())
    }

    /// Tells whether every listed position lies inside its table.
    pub fn fits<S>(
        &self,
        consts: &ConstantCharges<S>,
        linears: &LinearContributions<S>,
        exps: &ExponentialContributions<S>,
    ) -> (b: bool)
        ensures
            b == self.within(consts, linears, exps),
    {
        indices_below(&self.constant_indices, consts.target_nodes.len()) && indices_below(
            &self.linear_indices,
            linears.target_nodes.len(),
        ) && indices_below(&self.exponential_indices, exps.target_nodes.len())
    }

    /// The roles that the lists name: the constant injections first, then the
    /// links, then the junction sides, each group in list order.
    pub open spec fn listed<S>(
        &self,
        consts: &ConstantCharges<S>,
        linears: &LinearContributions<S>,
        exps: &ExponentialContributions<S>,
    ) -> Seq<Role<S>> {
        Seq::new(self.constant_indices@.len(), |k: int| consts.role(self.constant_indices@[k] as int))
            + Seq::new(
            self.linear_indices@.len(),
            |k: int| linears.role(self.linear_indices@[k] as int),
        ) + Seq::new(
            self.exponential_indices@.len(),
            |k: int| exps.role(self.exponential_indices@[k] as int),
        )
    }

    /// Collects the roles that the lists name.
    pub fn roles<S: Copy>(
        &self,
        consts: &ConstantCharges<S>,
        linears: &LinearContributions<S>,
        exps: &ExponentialContributions<S>,
    ) -> (roles: Vec<Role<S>>)
        requires
            consts.aligned(),
            linears.aligned(),
            exps.aligned(),
            self.within(consts, linears, exps),
        ensures
            roles@ == self.listed(consts, linears, exps),
    {
        let mut roles: Vec<Role<S>> = Vec::new();
        let ghost constant_part = Seq::new(
            self.constant_indices@.len(),
            |k: int| consts.role(self.constant_indices@[k] as int),
        );
        let ghost linear_part = Seq::new(
            self.linear_indices@.len(),
            |k: int| linears.role(self.linear_indices@[k] as int),
        );
        let ghost exponential_part = Seq::new(
            self.exponential_indices@.len(),
            |k: int| exps.role(self.exponential_indices@[k] as int),
        );

        let mut k: usize = 0;
        while k < self.constant_indices.len()
            invariant
                k <= self.constant_indices@.len(),
                consts.aligned(),
                self.within(consts, linears, exps),
                constant_part == Seq::new(
                    self.constant_indices@.len(),
                    |k: int| consts.role(self.constant_indices@[k] as int),
                ),
                roles@ == constant_part.take(k as int),
            decreases self.constant_indices@.len() - k,
        {
            let i = self.constant_indices[k];
            roles.push(Role::ConstantCharge(consts.currents[i]));
            k = k + 1;
            assert(roles@ =~= constant_part.take(k as int));
        }
        assert(constant_part.take(k as int) =~= constant_part);

        let mut k: usize = 0;
        while k < self.linear_indices.len()
            invariant
                k <= self.linear_indices@.len(),
                linears.aligned(),
                self.within(consts, linears, exps),
                linear_part == Seq::new(
                    self.linear_indices@.len(),
                    |k: int| linears.role(self.linear_indices@[k] as int),
                ),
                roles@ == constant_part + linear_part.take(k as int),
            decreases self.linear_indices@.len() - k,
        {
            let i = self.linear_indices[k];
            roles.push(
                Role::Linear { conductance: linears.conductances[i], neighbor: linears.neighbors[i] },
            );
            k = k + 1;
            assert(roles@ =~= constant_part + linear_part.take(k as int));
        }
        assert(linear_part.take(k as int) =~= linear_part);

        let mut k: usize = 0;
        while k < self.exponential_indices.len()
            invariant
                k <= self.exponential_indices@.len(),
                exps.aligned(),
                self.within(consts, linears, exps),
                exponential_part == Seq::new(
                    self.exponential_indices@.len(),
                    |k: int| exps.role(self.exponential_indices@[k] as int),
                ),
                roles@ == constant_part + linear_part + exponential_part.take(k as int),
            decreases self.exponential_indices@.len() - k,
        {
            let i = self.exponential_indices[k];
            roles.push(
                Role::Exponential {
                    i_s: exps.i_s[i],
                    n: exps.n[i],
                    neighbor: exps.neighbors[i],
                    anode: exps.anodes[i],
                    cathode: exps.cathodes[i],
                    flip: exps.flips[i],
                },
            );
            k = k + 1;
            assert(roles@ =~= constant_part + linear_part + exponential_part.take(k as int));
        }
        assert(exponential_part.take(k as int) =~= exponential_part);
        roles
    }
}

/// The step of `positions` from the first `i` targets to the first `i + 1`.
proof fn positions_extend(targets: Seq<usize>, i: int, node: usize)
    requires
        0 <= i < targets.len(),
    ensures
        positions(targets.take(i + 1), node) == if targets[i] == node {
            positions(targets.take(i), node).push(i as usize)
        } else {
            positions(targets.take(i), node)
        },
{
    assert(targets.take(i + 1).drop_last() =~= targets.take(i));
}

/// For every node, the positions of its roles in each of the three tables.
pub fn group_by_node<S>(
    consts: &ConstantCharges<S>,
    linears: &LinearContributions<S>,
    exps: &ExponentialContributions<S>,
    nodes_count: usize,
) -> (groups: Vec<NodeRoles>)
    requires
        all_below(consts.target_nodes@, nodes_count as nat),
        all_below(linears.target_nodes@, nodes_count as nat),
        all_below(exps.target_nodes@, nodes_count as nat),
    ensures
        groups@.len() == nodes_count,
        forall|node: int|
            0 <= node < nodes_count ==> (#[trigger] groups@[node]).gathers(
                node as usize,
                consts.target_nodes@,
                linears.target_nodes@,
                exps.target_nodes@,
            ),
{
    let mut groups: Vec<NodeRoles> = Vec::new();
    let mut node: usize = 0;
    while node < nodes_count
        invariant
            node <= nodes_count,
            groups@.len() == node,
            forall|v: int|
                0 <= v < node ==> (#[trigger] groups@[v]).gathers(
                    v as usize,
                    Seq::empty(),
                    Seq::empty(),
                    Seq::empty(),
                ),
        decreases nodes_count - node,
    {
        groups.push(
            NodeRoles {
                constant_indices: Vec::new(),
                linear_indices: Vec::new(),
                exponential_indices: Vec::new(),
            },
        );
        node = node + 1;
    }

    assert(consts.target_nodes@.take(0) =~= Seq::empty());
    let mut i: usize = 0;
    while i < consts.target_nodes.len()
        invariant
            i <= consts.target_nodes@.len(),
            all_below(consts.target_nodes@, nodes_count as nat),
            groups@.len() == nodes_count,
            forall|v: int|
                0 <= v < nodes_count ==> (#[trigger] groups@[v]).gathers(
                    v as usize,
                    consts.target_nodes@.take(i as int),
                    Seq::empty(),
                    Seq::empty(),
                ),
        decreases consts.target_nodes@.len() - i,
    {
        let target = consts.target_nodes[i];
        proof {
            assert forall|v: usize| #[trigger]
                positions(consts.target_nodes@.take(i + 1), v) == if v == target {
                    positions(consts.target_nodes@.take(i as int), v).push(i)
                } else {
                    positions(consts.target_nodes@.take(i as int), v)
                } by {
                positions_extend(consts.target_nodes@, i as int, v);
            }
        }
        groups[target].constant_indices.push(i);
        i = i + 1;
    }
    assert(consts.target_nodes@.take(i as int) =~= consts.target_nodes@);

    assert(linears.target_nodes@.take(0) =~= Seq::empty());
    let mut i: usize = 0;
    while i < linears.target_nodes.len()
        invariant
            i <= linears.target_nodes@.len(),
            all_below(linears.target_nodes@, nodes_count as nat),
            groups@.len() == nodes_count,
            forall|v: int|
                0 <= v < nodes_count ==> (#[trigger] groups@[v]).gathers(
                    v as usize,
                    consts.target_nodes@,
                    linears.target_nodes@.take(i as int),
                    Seq::empty(),
                ),
        decreases linears.target_nodes@.len() - i,
    {
        let target = linears.target_nodes[i];
        proof {
            assert forall|v: usize| #[trigger]
                positions(linears.target_nodes@.take(i + 1), v) == if v == target {
                    positions(linears.target_nodes@.take(i as int), v).push(i)
                } else {
                    positions(linears.target_nodes@.take(i as int), v)
                } by {
                positions_extend(linears.target_nodes@, i as int, v);
            }
        }
        groups[target].linear_indices.push(i);
        i = i + 1;
    }
    assert(linears.target_nodes@.take(i as int) =~= linears.target_nodes@);

    assert(exps.target_nodes@.take(0) =~= Seq::empty());
    let mut i: usize = 0;
    while i < exps.target_nodes.len()
        invariant
            i <= exps.target_nodes@.len(),
            all_below(exps.target_nodes@, nodes_count as nat),
            groups@.len() == nodes_count,
            forall|v: int|
                0 <= v < nodes_count ==> (#[trigger] groups@[v]).gathers(
                    v as usize,
                    consts.target_nodes@,
                    linears.target_nodes@,
                    exps.target_nodes@.take(i as int),
                ),
        decreases exps.target_nodes@.len() - i,
    {
        let target = exps.target_nodes[i];
        proof {
            assert forall|v: usize| #[trigger]
                positions(exps.target_nodes@.take(i + 1), v) == if v == target {
                    positions(exps.target_nodes@.take(i as int), v).push(i)
                } else {
                    positions(exps.target_nodes@.take(i as int), v)
                } by {
                positions_extend(exps.target_nodes@, i as int, v);
            }
        }
        groups[target].exponential_indices.push(i);
        i = i + 1;
    }
    assert(exps.target_nodes@.take(i as int) =~= exps.target_nodes@);

    groups
}

} // verus!
