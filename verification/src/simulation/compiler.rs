use vstd::prelude::*;
use crate::general::circuit::Circuit;
use crate::general::component::Component;
use crate::general::role::{ConstantCharges, ExponentialContributions, LinearContributions};
use crate::general::scalar::{negation_of, product_of, quotient_of, Scalar, Sign};

verus! {

/// Where one side of a junction sits: the node it contributes to, the node on
/// the other side, the junction's two terminals, its emission coefficient and
/// the sign of the side.
pub struct JunctionSide<S> {
    pub target: usize,
    pub neighbor: usize,
    pub anode: usize,
    pub cathode: usize,
    pub n: S,
    pub flip: Sign,
}

/// Targets of the injections of one component: a current source injects at its
/// anode first, then at its cathode; nothing else injects.
pub open spec fn injections_of<S>(component: Component<S>) -> Seq<usize> {
    match component {
        Component::CurrentDc { anode, cathode, .. } => seq![anode, cathode],
        _ => Seq::empty(),
    }
}

/// `(target, neighbor)` of the links of one component: a resistor links
/// `pin1` to `pin2` and `pin2` to `pin1`; nothing else links.
pub open spec fn links_of<S>(component: Component<S>) -> Seq<(usize, usize)> {
    match component {
        Component::Resistor { pin1, pin2, .. } => seq![(pin1, pin2), (pin2, pin1)],
        _ => Seq::empty(),
    }
}

/// The junction sides of one component: a diode has its anode side, with sign
/// `Minus`, and then its cathode side, with sign `Plus`; nothing else has any.
pub open spec fn sides_of<S>(component: Component<S>) -> Seq<JunctionSide<S>> {
    match component {
        Component::Diode { anode, cathode, n, .. } => seq![
            JunctionSide { target: anode, neighbor: cathode, anode, cathode, n, flip: Sign::Minus },
            JunctionSide { target: cathode, neighbor: anode, anode, cathode, n, flip: Sign::Plus },
        ],
        _ => Seq::empty(),
    }
}

/// Targets of all injections of a component list, component by component.
pub open spec fn lowered_injections<S>(components: Seq<Component<S>>) -> Seq<usize>
    decreases components.len(),
{
    if components.len() == 0 {
        Seq::empty()
    } else {
        lowered_injections(components.drop_last()) + injections_of(components.last())
    }
}

/// All links of a component list, component by component.
pub open spec fn lowered_links<S>(components: Seq<Component<S>>) -> Seq<(usize, usize)>
    decreases components.len(),
{
    if components.len() == 0 {
        Seq::empty()
    } else {
        lowered_links(components.drop_last()) + links_of(components.last())
    }
}

/// All junction sides of a component list, component by component.
pub open spec fn lowered_sides<S>(components: Seq<Component<S>>) -> Seq<JunctionSide<S>>
    decreases components.len(),
{
    if components.len() == 0 {
        Seq::empty()
    } else {
        lowered_sides(components.drop_last()) + sides_of(components.last())
    }
}

/// `i` and `j` are the two positions of one pair: an even one and the next.
pub open spec fn pair_at(i: int, j: int) -> bool {
    0 <= i && i % 2 == 0 && j == i + 1
}

/// `currents` are the injections of a component list scaled by `t_vir`,
/// component by component: for every current source its current times `t_vir`,
/// and then the negation of that product.
pub open spec fn scaled_injections<S: Scalar>(
    components: Seq<Component<S>>,
    t_vir: S,
    currents: Seq<S>,
) -> bool
    decreases components.len(),
{
    if components.len() == 0 {
        currents.len() == 0
    } else {
        match components.last() {
            Component::CurrentDc { current, .. } => {
                &&& currents.len() >= 2
                &&& scaled_injections(
                    components.drop_last(),
                    t_vir,
                    currents.take(currents.len() - 2),
                )
                &&& product_of(current, t_vir, currents[currents.len() - 2])
                &&& negation_of(currents[currents.len() - 2], currents[currents.len() - 1])
            },
            _ => scaled_injections(components.drop_last(), t_vir, currents),
        }
    }
}

/// `conductances` are the conductances of a component list scaled by `t_vir`,
/// component by component: for every resistor `t_vir` divided by its
/// resistance, once for each of its two links.
pub open spec fn scaled_conductances<S: Scalar>(
    components: Seq<Component<S>>,
    t_vir: S,
    conductances: Seq<S>,
) -> bool
    decreases components.len(),
{
    if components.len() == 0 {
        conductances.len() == 0
    } else {
        match components.last() {
            Component::Resistor { r, .. } => {
                &&& conductances.len() >= 2
                &&& scaled_conductances(
                    components.drop_last(),
                    t_vir,
                    conductances.take(conductances.len() - 2),
                )
                &&& quotient_of(t_vir, r, conductances[conductances.len() - 2])
                &&& conductances[conductances.len() - 1] == conductances[conductances.len() - 2]
            },
            _ => scaled_conductances(components.drop_last(), t_vir, conductances),
        }
    }
}

/// `saturations` are the saturation currents of a component list scaled by
/// `t_vir`, component by component: for every diode its saturation current
/// times `t_vir`, once for each of its two sides.
pub open spec fn scaled_saturations<S: Scalar>(
    components: Seq<Component<S>>,
    t_vir: S,
    saturations: Seq<S>,
) -> bool
    decreases components.len(),
{
    if components.len() == 0 {
        saturations.len() == 0
    } else {
        match components.last() {
            Component::Diode { i_s, .. } => {
                &&& saturations.len() >= 2
                &&& scaled_saturations(
                    components.drop_last(),
                    t_vir,
                    saturations.take(saturations.len() - 2),
                )
                &&& product_of(i_s, t_vir, saturations[saturations.len() - 2])
                &&& saturations[saturations.len() - 1] == saturations[saturations.len() - 2]
            },
            _ => scaled_saturations(components.drop_last(), t_vir, saturations),
        }
    }
}

impl<S> LinearContributions<S> {
    /// `(target, neighbor)` of every role, in table order: where the links
    /// are, without their conductances.
    pub open spec fn link_ends(&self) -> Seq<(usize, usize)> {
        Seq::new(self.target_nodes@.len(), |i: int| (self.target_nodes@[i], self.neighbors@[i]))
    }
}

impl<S> ExponentialContributions<S> {
    /// Where every role sits, in table order, without its saturation current.
    pub open spec fn side_placements(&self) -> Seq<JunctionSide<S>> {
        Seq::new(
            self.target_nodes@.len(),
            |i: int|
                JunctionSide {
                    target: self.target_nodes@[i],
                    neighbor: self.neighbors@[i],
                    anode: self.anodes@[i],
                    cathode: self.cathodes@[i],
                    n: self.n@[i],
                    flip: self.flips@[i],
                },
        )
    }
}

/// The three role tables of one circuit.
pub struct Contributions<S> {
    pub constants: ConstantCharges<S>,
    pub linears: LinearContributions<S>,
    pub exponentials: ExponentialContributions<S>,
}

impl<S> Contributions<S> {
    /// Each table is well formed over `nodes` nodes.
    pub open spec fn well_formed(&self, nodes: nat) -> bool {
        &&& self.constants.well_formed(nodes)
        &&& self.linears.well_formed(nodes)
        &&& self.exponentials.well_formed(nodes)
    }

    /// Tells whether each table is well formed over `nodes_count` nodes.
    pub fn fits(&self, nodes_count: usize) -> (b: bool)
        ensures
            b == self.well_formed(nodes_count as nat),
    {
        self.constants.fits(nodes_count) && self.linears.fits(nodes_count)
            && self.exponentials.fits(nodes_count)
    }
}

impl<S: Scalar> Contributions<S> {
    /// The tables hold exactly the roles of `components` scaled by `t_vir`, in
    /// component order: what contributes where, and with which value.
    pub open spec fn lowers(&self, components: Seq<Component<S>>, t_vir: S) -> bool {
        &&& self.constants.aligned()
        &&& self.constants.target_nodes@ == lowered_injections(components)
        &&& scaled_injections(components, t_vir, self.constants.currents@)
        &&& self.linears.aligned()
        &&& self.linears.link_ends() == lowered_links(components)
        &&& scaled_conductances(components, t_vir, self.linears.conductances@)
        &&& self.exponentials.aligned()
        &&& self.exponentials.side_placements() == lowered_sides(components)
        &&& scaled_saturations(components, t_vir, self.exponentials.i_s@)
    }
}

/// Lowers every component of `circuit` into its roles, scaled by `t_vir`.
///
/// A current source gives an injection of `current * t_vir` at its anode and the
/// negated injection at its cathode. A resistor gives each of its pins a link to
/// the other with conductance `t_vir / r`. A diode gives each terminal a
/// junction side with saturation current `i_s * t_vir`. A voltage source gives
/// nothing.
pub fn compile<S: Scalar>(circuit: &Circuit<S>, t_vir: S) -> (tables: Contributions<S>)
    ensures
        tables.lowers(circuit.components@, t_vir),
        circuit.well_formed() ==> tables.well_formed(circuit.nodes_count as nat),
{
    let mut consts = ConstantCharges::<S>::new();
    let mut linears = LinearContributions::<S>::new();
    let mut exps = ExponentialContributions::<S>::new();

    assert(linears.link_ends() =~= Seq::empty());
    assert(exps.side_placements() =~= Seq::empty());
    assert(consts.target_nodes@ =~= Seq::empty());

    let mut k: usize = 0;
    while k < circuit.components.len()
        invariant
            k <= circuit.components@.len(),
            (Contributions { constants: consts, linears, exponentials: exps }).lowers(
                circuit.components@.take(k as int),
                t_vir,
            ),
            circuit.well_formed() ==> (Contributions {
                constants: consts,
                linears,
                exponentials: exps,
            }).well_formed(circuit.nodes_count as nat),
        decreases circuit.components@.len() - k,
    {
        proof {
            let next = circuit.components@.take(k + 1);
            assert(next.drop_last() =~= circuit.components@.take(k as int));
            assert(next.last() == circuit.components@[k as int]);
            if circuit.well_formed() {
                assert(circuit.components@[k as int].within(circuit.nodes_count as nat));
            }
        }
        let ghost before = Contributions { constants: consts, linears, exponentials: exps };
        match &circuit.components[k] {
            Component::VoltageDc { .. } => {},
            Component::CurrentDc { anode, cathode, current } => {
                let scaled = current.times(t_vir);
                consts.currents.push(scaled);
                consts.target_nodes.push(*anode);
                consts.currents.push(scaled.negated());
                consts.target_nodes.push(*cathode);
                assert(consts.currents@.take(consts.currents@.len() - 2)
                    =~= before.constants.currents@);
                assert(consts.target_nodes@ =~= before.constants.target_nodes@ + seq![
                    *anode,
                    *cathode,
                ]);
            },
            Component::Resistor { pin1, pin2, r } => {
                let g = t_vir.over(*r);
                linears.conductances.push(g);
                linears.neighbors.push(*pin2);
                linears.target_nodes.push(*pin1);
                linears.conductances.push(g);
                linears.neighbors.push(*pin1);
                linears.target_nodes.push(*pin2);
                assert(linears.conductances@.take(linears.conductances@.len() - 2)
                    =~= before.linears.conductances@);
                assert(linears.link_ends() =~= before.linears.link_ends() + seq![
                    (*pin1, *pin2),
                    (*pin2, *pin1),
                ]);
            },
            Component::Diode { anode, cathode, i_s, n } => {
                let scaled_i_s = i_s.times(t_vir);
                exps.i_s.push(scaled_i_s);
                exps.n.push(*n);
                exps.anodes.push(*anode);
                exps.cathodes.push(*cathode);
                exps.flips.push(Sign::Minus);
                exps.target_nodes.push(*anode);
                exps.neighbors.push(*cathode);

                exps.i_s.push(scaled_i_s);
                exps.n.push(*n);
                exps.anodes.push(*anode);
                exps.cathodes.push(*cathode);
                exps.flips.push(Sign::Plus);
                exps.target_nodes.push(*cathode);
                exps.neighbors.push(*anode);
                assert(exps.i_s@.take(exps.i_s@.len() - 2) =~= before.exponentials.i_s@);
                assert(exps.side_placements() =~= before.exponentials.side_placements() + sides_of(
                    circuit.components@[k as int],
                ));
            },
        }
        assert(linears.link_ends() =~= before.linears.link_ends() + links_of(
            circuit.components@[k as int],
        ));
        assert(exps.side_placements() =~= before.exponentials.side_placements() + sides_of(
            circuit.components@[k as int],
        ));
        assert(consts.target_nodes@ =~= before.constants.target_nodes@ + injections_of(
            circuit.components@[k as int],
        ));
        k = k + 1;
    }
    assert(circuit.components@.take(k as int) =~= circuit.components@);
    Contributions { constants: consts, linears, exponentials: exps }
}

/// Lowering two lists one after the other gives the roles of the first
/// followed by those of the second.
pub proof fn lowering_distributes<S>(first: Seq<Component<S>>, second: Seq<Component<S>>)
    ensures
        lowered_injections(first + second) == lowered_injections(first) + lowered_injections(
            second,
        ),
        lowered_links(first + second) == lowered_links(first) + lowered_links(second),
        lowered_sides(first + second) == lowered_sides(first) + lowered_sides(second),
    decreases second.len(),
{
    if second.len() == 0 {
        assert(first + second =~= first);
        assert(lowered_injections(first) + lowered_injections(second) =~= lowered_injections(
            first,
        ));
        assert(lowered_links(first) + lowered_links(second) =~= lowered_links(first));
        assert(lowered_sides(first) + lowered_sides(second) =~= lowered_sides(first));
    } else {
        lowering_distributes(first, second.drop_last());
        assert((first + second).drop_last() =~= first + second.drop_last());
        assert((first + second).last() == second.last());
        assert(lowered_injections(first + second) =~= lowered_injections(first)
            + lowered_injections(second));
        assert(lowered_links(first + second) =~= lowered_links(first) + lowered_links(second));
        assert(lowered_sides(first + second) =~= lowered_sides(first) + lowered_sides(second));
    }
}

/// Exchanging two neighboring parts of a sequence keeps every element as often
/// as it occurred.
proof fn exchange_keeps_counts<T>(before: Seq<T>, first: Seq<T>, second: Seq<T>, after: Seq<T>)
    ensures
        (before + first + second + after).to_multiset() == (before + second + first
            + after).to_multiset(),
{
    vstd::seq_lib::lemma_multiset_commutative(before + first + second, after);
    vstd::seq_lib::lemma_multiset_commutative(before + first, second);
    vstd::seq_lib::lemma_multiset_commutative(before, first);
    vstd::seq_lib::lemma_multiset_commutative(before + second + first, after);
    vstd::seq_lib::lemma_multiset_commutative(before + second, first);
    vstd::seq_lib::lemma_multiset_commutative(before, second);
    assert(before.to_multiset().add(first.to_multiset()).add(second.to_multiset()).add(
        after.to_multiset(),
    ) =~= before.to_multiset().add(second.to_multiset()).add(first.to_multiset()).add(
        after.to_multiset(),
    ));
}

/// The order of the components does not change which roles there are:
/// exchanging two neighboring parts of a component list leaves the injections,
/// the links and the junction sides the same, each counted as often as it occurs.
pub proof fn lowering_ignores_order<S>(
    before: Seq<Component<S>>,
    first: Seq<Component<S>>,
    second: Seq<Component<S>>,
    after: Seq<Component<S>>,
)
    ensures
        lowered_injections(before + first + second + after).to_multiset() == lowered_injections(
            before + second + first + after,
        ).to_multiset(),
        lowered_links(before + first + second + after).to_multiset() == lowered_links(
            before + second + first + after,
        ).to_multiset(),
        lowered_sides(before + first + second + after).to_multiset() == lowered_sides(
            before + second + first + after,
        ).to_multiset(),
{
    lowering_distributes(before, first);
    lowering_distributes(before + first, second);
    lowering_distributes(before + first + second, after);
    lowering_distributes(before, second);
    lowering_distributes(before + second, first);
    lowering_distributes(before + second + first, after);
    exchange_keeps_counts(
        lowered_injections(before),
        lowered_injections(first),
        lowered_injections(second),
        lowered_injections(after),
    );
    exchange_keeps_counts(
        lowered_links(before),
        lowered_links(first),
        lowered_links(second),
        lowered_links(after),
    );
    exchange_keeps_counts(
        lowered_sides(before),
        lowered_sides(first),
        lowered_sides(second),
        lowered_sides(after),
    );
}

/// Links come in pairs that join the same two nodes in opposite directions.
pub proof fn links_pair_up<S>(components: Seq<Component<S>>)
    ensures
        lowered_links(components).len() % 2 == 0,
        forall|i: int, j: int|
            pair_at(i, j) && j < lowered_links(components).len() ==> {
                &&& (#[trigger] lowered_links(components)[i]).0 == (#[trigger] lowered_links(
                    components,
                )[j]).1
                &&& lowered_links(components)[i].1 == lowered_links(components)[j].0
            },
    decreases components.len(),
{
    if components.len() > 0 {
        let earlier = lowered_links(components.drop_last());
        let added = links_of(components.last());
        let all = lowered_links(components);
        links_pair_up(components.drop_last());
        assert(all == earlier + added);
        assert forall|i: int, j: int| pair_at(i, j) && j < all.len() implies {
            &&& (#[trigger] all[i]).0 == (#[trigger] all[j]).1
            &&& all[i].1 == all[j].0
        } by {
            if j < earlier.len() {
                assert(all[i] == earlier[i]);
                assert(all[j] == earlier[j]);
            } else {
                assert(i == earlier.len());
                assert(all[i] == added[0]);
                assert(all[j] == added[1]);
            }
        }
    }
}

/// Junction sides come in pairs that belong to one diode: the anode side with
/// sign `Minus` first, then the cathode side with sign `Plus`; both hold the
/// same terminals and emission coefficient, and each has the other's target as
/// its neighbor. What one side takes out of its node the other puts into its own.
pub proof fn sides_pair_up<S>(components: Seq<Component<S>>)
    ensures
        lowered_sides(components).len() % 2 == 0,
        forall|i: int, j: int|
            pair_at(i, j) && j < lowered_sides(components).len() ==> {
                let first = #[trigger] lowered_sides(components)[i];
                let second = #[trigger] lowered_sides(components)[j];
                &&& first.flip == Sign::Minus
                &&& second.flip == Sign::Plus
                &&& first.anode == second.anode
                &&& first.cathode == second.cathode
                &&& first.n == second.n
                &&& first.target == first.anode
                &&& first.neighbor == first.cathode
                &&& second.target == second.cathode
                &&& second.neighbor == second.anode
            },
    decreases components.len(),
{
    if components.len() > 0 {
        let earlier = lowered_sides(components.drop_last());
        let added = sides_of(components.last());
        let all = lowered_sides(components);
        sides_pair_up(components.drop_last());
        assert(all == earlier + added);
        assert forall|i: int, j: int| pair_at(i, j) && j < all.len() implies {
            let first = #[trigger] all[i];
            let second = #[trigger] all[j];
            &&& first.flip == Sign::Minus
            &&& second.flip == Sign::Plus
            &&& first.anode == second.anode
            &&& first.cathode == second.cathode
            &&& first.n == second.n
            &&& first.target == first.anode
            &&& first.neighbor == first.cathode
            &&& second.target == second.cathode
            &&& second.neighbor == second.anode
        } by {
            if j < earlier.len() {
                assert(all[i] == earlier[i]);
                assert(all[j] == earlier[j]);
            } else {
                assert(i == earlier.len());
                assert(all[i] == added[0]);
                assert(all[j] == added[1]);
            }
        }
    }
}

/// Every index that a list of components with valid pins lowers to names a node.
pub proof fn lowered_within<S>(components: Seq<Component<S>>, nodes: nat)
    requires
        forall|j: int| 0 <= j < components.len() ==> (#[trigger] components[j]).within(nodes),
    ensures
        forall|i: int|
            0 <= i < lowered_injections(components).len() ==> (#[trigger] lowered_injections(
                components,
            )[i]) < nodes,
        forall|i: int|
            0 <= i < lowered_links(components).len() ==> {
                &&& (#[trigger] lowered_links(components)[i]).0 < nodes
                &&& lowered_links(components)[i].1 < nodes
            },
        forall|i: int|
            0 <= i < lowered_sides(components).len() ==> {
                &&& (#[trigger] lowered_sides(components)[i]).target < nodes
                &&& lowered_sides(components)[i].neighbor < nodes
                &&& lowered_sides(components)[i].anode < nodes
                &&& lowered_sides(components)[i].cathode < nodes
            },
    decreases components.len(),
{
    if components.len() > 0 {
        let earlier = components.drop_last();
        let last = components.last();
        lowered_within(earlier, nodes);
        assert(last.within(nodes));
        assert forall|i: int| 0 <= i < lowered_injections(components).len() implies (
        #[trigger] lowered_injections(components)[i]) < nodes by {
            if i >= lowered_injections(earlier).len() {
                assert(lowered_injections(components)[i] == injections_of(last)[i
                    - lowered_injections(earlier).len()]);
            } else {
                assert(lowered_injections(components)[i] == lowered_injections(earlier)[i]);
            }
        }
        assert forall|i: int| 0 <= i < lowered_links(components).len() implies {
            &&& (#[trigger] lowered_links(components)[i]).0 < nodes
            &&& lowered_links(components)[i].1 < nodes
        } by {
            if i >= lowered_links(earlier).len() {
                assert(lowered_links(components)[i] == links_of(last)[i - lowered_links(
                    earlier,
                ).len()]);
            } else {
                assert(lowered_links(components)[i] == lowered_links(earlier)[i]);
            }
        }
        assert forall|i: int| 0 <= i < lowered_sides(components).len() implies {
            &&& (#[trigger] lowered_sides(components)[i]).target < nodes
            &&& lowered_sides(components)[i].neighbor < nodes
            &&& lowered_sides(components)[i].anode < nodes
            &&& lowered_sides(components)[i].cathode < nodes
        } by {
            if i >= lowered_sides(earlier).len() {
                assert(lowered_sides(components)[i] == sides_of(last)[i - lowered_sides(
                    earlier,
                ).len()]);
            } else {
                assert(lowered_sides(components)[i] == lowered_sides(earlier)[i]);
            }
        }
    }
}

} // verus!
