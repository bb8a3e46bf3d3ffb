use vstd::prelude::*;

verus! {

/// A two-terminal circuit element. Pins are node indices.
#[derive(Debug)]
pub enum Component<S> {
    /// An imposed voltage between two nodes. The relaxation solver takes no
    /// account of it.
    VoltageDc { anode: usize, cathode: usize, v: S },
    /// A constant current driven from `cathode` into `anode`.
    CurrentDc { anode: usize, cathode: usize, current: S },
    /// An ohmic resistance `r` between two nodes.
    Resistor { pin1: usize, pin2: usize, r: S },
    /// A junction with saturation current `i_s` and emission coefficient `n`.
    Diode { anode: usize, cathode: usize, i_s: S, n: S },
}

impl<S> Component<S> {
    /// The two pins, in the order in which the variant names them.
    pub open spec fn pins(self) -> (usize, usize) {
        match self {
            Component::VoltageDc { anode, cathode, .. } => (anode, cathode),
            Component::CurrentDc { anode, cathode, .. } => (anode, cathode),
            Component::Resistor { pin1, pin2, .. } => (pin1, pin2),
            Component::Diode { anode, cathode, .. } => (anode, cathode),
        }
    }

    /// Both pins name a node of a circuit with `nodes` nodes.
    pub open spec fn within(self, nodes: nat) -> bool {
        self.pins().0 < nodes && self.pins().1 < nodes
    }

    /// Tells whether both pins name a node of a circuit with `nodes_count` nodes.
    pub fn fits(&self, nodes_count: usize) -> (b: bool)
        ensures
            b == self.within(nodes_count as nat),
    {
        match self {
            Component::VoltageDc { anode, cathode, .. } => *anode < nodes_count && *cathode
                < nodes_count,
            Component::CurrentDc { anode, cathode, .. } => *anode < nodes_count && *cathode
                < nodes_count,
            Component::Resistor { pin1, pin2, .. } => *pin1 < nodes_count && *pin2 < nodes_count,
            Component::Diode { anode, cathode, .. } => *anode < nodes_count && *cathode
                < nodes_count,
        }
    }
}

} // verus!
