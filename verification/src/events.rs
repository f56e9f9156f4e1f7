//! Events that the editor handles, and the order they are handled in.
use vstd::prelude::*;

use std::cmp::Ordering;

verus! {

/// An input pin: a node and the index of one of its inputs.
#[derive(Clone, Copy, Debug, PartialEq, Eq, Hash, Structural)]
pub struct InPin {
    pub node: usize,
    pub input: usize,
}

/// An output pin: a node and the index of one of its outputs.
#[derive(Clone, Copy, Debug, PartialEq, Eq, Hash, Structural)]
pub struct OutPin {
    pub node: usize,
    pub output: usize,
}

/// Either kind of pin.
#[derive(Clone, Copy, Debug, PartialEq, Eq, Hash, Structural)]
pub enum AnyPin {
    In(InPin),
    Out(OutPin),
}

/// Something that happened in the editor and awaits handling. Nodes are
/// named by their index in a graph, graphs and progress trackers by a 128-bit
/// id, and value kinds by their name.
#[derive(Clone, Debug, PartialEq, Eq)]
pub enum AppEvent {
    EnterSubgraph(usize),
    LeaveSubgraph(usize),
    DisableNode(u128, usize),
    InPinCreated(u128, usize, String),
    OutPinCreated(u128, usize, String),
    PinRenamed(u128, AnyPin, String),
    /// Removes a pin from a node of a graph.
    PinRemoved(u128, AnyPin),
    /// Swaps the wires of two input pins of a graph.
    SwapInputs(u128, InPin, InPin),
    /// Swaps the wires of two output pins of a graph.
    SwapOutputs(u128, OutPin, OutPin),
    /// The user asked to run the current workflow.
    UserRunWorkflow,
    ToolsChanged,
    NodesChanged(u128, Vec<usize>),
    RerunNodes(u128, Vec<usize>),
    SetPrompt(String),
    Freeze(Option<bool>),
    Undo,
    Redo,
    ProgressBegin(u128, usize),
    ProgressAdd(u128, usize),
    ProgressEnd(u128),
}

/// The priority of an event: moving between graphs comes before ordinary
/// events, and running or setting the prompt before those.
pub open spec fn event_priority(e: AppEvent) -> int {
    match e {
        AppEvent::EnterSubgraph(_) | AppEvent::LeaveSubgraph(_) => -100,
        AppEvent::UserRunWorkflow | AppEvent::SetPrompt(_) => -200,
        _ => 0,
    }
}

impl AppEvent {
    /// The event's priority: -100 to enter or leave a subgraph, -200 to run
    /// the workflow or set the prompt, 0 for any other event.
    pub fn priority(&self) -> (r: i64)
        ensures
            r == event_priority(*self),
    {
        match self {
            AppEvent::EnterSubgraph(_) | AppEvent::LeaveSubgraph(_) => -100,
            AppEvent::UserRunWorkflow | AppEvent::SetPrompt(_) => -200,
            _ => 0,
        }
    }

    /// Events compare by their priority alone.
    pub fn compare(&self, other: &Self) -> (r: Ordering)
        ensures
            (r == Ordering::Less) == (event_priority(*self) < event_priority(*other)),
            (r == Ordering::Equal) == (event_priority(*self) == event_priority(*other)),
            (r == Ordering::Greater) == (event_priority(*self) > event_priority(*other)),
    {
        let a = self.priority();
        let b = other.priority();
        if a < b {
            Ordering::Less
        } else if a == b {
            Ordering::Equal
        } else {
            Ordering::Greater
        }
    }
}

} // verus!
