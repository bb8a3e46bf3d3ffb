use vstd::prelude::*;
pub use crate::general::component::Component;

verus! {

/// Why a circuit, or an initial guess for it, is refused.
#[derive(Clone, Copy, Debug, PartialEq, Eq)]
pub enum InvalidInput {
    /// The circuit has no node at all.
    NoNodes,
    /// The ground index names no node.
    GroundOutOfRange,
    /// The component at this position has a pin that names no node; no earlier
    /// component has.
    PinOutOfRange(usize),
    /// The initial voltages do not have one entry per node.
    InitialLengthMismatch,
}

/// A circuit: its components, the number of nodes and the ground node.
pub struct Circuit<S> {
    /// The components, in the order in which they were added.
    pub components: Vec<Component<S>>,
    /// Total number of nodes; nodes are the indices below it.
    pub nodes_count: usize,
    /// The node whose voltage is reported as zero.
    pub ground_node: usize,
}

impl<S> Circuit<S> {
    /// Every component before position `upto` has both pins on a node.
    pub open spec fn pins_valid_before(&self, upto: int) -> bool {
        forall|j: int|
            0 <= j < upto && j < self.components@.len() ==> (#[trigger] self.components@[j]).within(
                self.nodes_count as nat,
            )
    }

    /// There is a node, ground is one, and every pin names one.
    pub open spec fn well_formed(&self) -> bool {
        &&& self.nodes_count >= 1
        &&& self.ground_node < self.nodes_count
        &&& self.pins_valid_before(self.components@.len() as int)
    }

    /// The first reason to refuse the circuit, if there is one: the node count
    /// is looked at first, then ground, then the components in order.
    pub open spec fn defect(&self, e: InvalidInput) -> bool {
        match e {
            InvalidInput::NoNodes => self.nodes_count == 0,
            InvalidInput::GroundOutOfRange => self.nodes_count >= 1 && self.ground_node
                >= self.nodes_count,
            InvalidInput::PinOutOfRange(k) => {
                &&& self.nodes_count >= 1
                &&& self.ground_node < self.nodes_count
                &&& k < self.components@.len()
                &&& !self.components@[k as int].within(self.nodes_count as nat)
                &&& self.pins_valid_before(k as int)
            },
            InvalidInput::InitialLengthMismatch => false,
        }
    }

    /// An empty circuit over `nodes` nodes with ground at `ground`.
    pub fn new(nodes: usize, ground: usize) -> (c: Self)
        ensures
            c.components@ == Seq::<Component<S>>::empty(),
            c.nodes_count == nodes,
            c.ground_node == ground,
    {
        Circuit { components: Vec::new(), nodes_count: nodes, ground_node: ground }
    }

    /// Appends a component.
    pub fn add_component(&mut self, component: Component<S>)
        ensures
            final(self).components@ == old(self).components@.push(component),
            final(self).nodes_count == old(self).nodes_count,
            final(self).ground_node == old(self).ground_node,
    {
        self.components.push(component);
    }

    /// Accepts the circuit exactly when it is well formed, and names the first
    /// defect otherwise.
    pub fn validate(&self) -> (r: Result<(), InvalidInput>)
        ensures
            r is Ok <==> self.well_formed(),
            r matches Err(e) ==> self.defect(e),
    {
        if self.nodes_count == 0 {
            return Err(InvalidInput::NoNodes);
        }
        if self.ground_node >= self.nodes_count {
            return Err(InvalidInput::GroundOutOfRange);
        }
        let mut k: usize = 0;
        while k < self.components.len()
            invariant
                self.nodes_count >= 1,
                self.ground_node < self.nodes_count,
                k <= self.components@.len(),
                self.pins_valid_before(k as int),
            decreases self.components@.len() - k,
        {
            if !self.components[k].fits(self.nodes_count) {
                return Err(InvalidInput::PinOutOfRange(k));
            }
            k = k + 1;
        }
        Ok(())
    }
}

/// At most one defect is named for a circuit, and none for a well-formed one.
pub proof fn defect_is_unique<S>(circuit: Circuit<S>, a: InvalidInput, b: InvalidInput)
    requires
        circuit.defect(a),
        circuit.defect(b),
    ensures
        a == b,
        !circuit.well_formed(),
{
    match (a, b) {
        (InvalidInput::PinOutOfRange(i), InvalidInput::PinOutOfRange(j)) => {
            if i < j {
                assert(circuit.components@[i as int].within(circuit.nodes_count as nat));
            } else if j < i {
                assert(circuit.components@[j as int].within(circuit.nodes_count as nat));
            }
        },
        _ => {},
    }
    if let InvalidInput::PinOutOfRange(i) = a {
        if circuit.well_formed() {
            assert(circuit.components@[i as int].within(circuit.nodes_count as nat));
        }
    }
}

} // verus!
