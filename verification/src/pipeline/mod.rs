//! The assembled pipeline and the lifecycle of its components.

use vstd::prelude::*;

pub mod assembly;
pub mod listener;
pub mod pipeline;
pub mod pipeline_step;
pub mod router;
pub mod startup;

verus! {

/// State of a component. A component is created, then configured, then
/// running, then terminated, and never moves back.
#[derive(PartialEq, Eq, Structural, Clone, Copy, Debug)]
pub enum PipelineComponentState {
    /// Component is just created, but not configured and not ready to run
    Created,
    /// Component is configured and ready to run
    Configured,
    /// Component is running
    Running,
    /// Component is terminated
    Terminated,
}

impl PipelineComponentState {
    /// The place of a state in the lifecycle.
    pub open spec fn rank(self) -> nat {
        match self {
            PipelineComponentState::Created => 0,
            PipelineComponentState::Configured => 1,
            PipelineComponentState::Running => 2,
            PipelineComponentState::Terminated => 3,
        }
    }

    /// The state of a component that is asked to enter `target`: `target`
    /// where that is a later state, the present state where it is not.
    pub open spec fn advanced(self, target: PipelineComponentState) -> PipelineComponentState {
        if self.rank() < target.rank() {
            target
        } else {
            self
        }
    }

    /// The place of a state in the lifecycle.
    pub fn position(&self) -> (r: u8)
        ensures
            r == self.rank(),
    {
        match self {
            PipelineComponentState::Created => 0,
            PipelineComponentState::Configured => 1,
            PipelineComponentState::Running => 2,
            PipelineComponentState::Terminated => 3,
        }
    }
}

/// Common properties for pipeline components.
/// A pipeline component is a part of the pipeline that a module stands
/// behind: a pipeline step or an event listener.
#[derive(PartialEq, Eq, Debug)]
pub struct PipelineComponent {
    /// Module-specific arguments - credentials, formatting rules, etc
    pub args: Vec<(String, String)>,
    /// This handle is passed to modules in order to identify a component
    pub handle: usize,
    /// A human-readable identifier
    pub id: String,
    /// State of the component
    pub state: PipelineComponentState,
}

/// A [`PipelineComponent`] with its texts as sequences of characters.
pub struct ComponentView {
    pub args: Seq<(Seq<char>, Seq<char>)>,
    pub handle: usize,
    pub id: Seq<char>,
    pub state: PipelineComponentState,
}

impl ComponentView {
    /// The same component in another state.
    pub open spec fn with_state(self, state: PipelineComponentState) -> ComponentView {
        ComponentView { state, ..self }
    }

    /// The same component after it was asked to enter `target`.
    pub open spec fn advanced(self, target: PipelineComponentState) -> ComponentView {
        self.with_state(self.state.advanced(target))
    }
}

impl View for PipelineComponent {
    type V = ComponentView;

    open spec fn view(&self) -> ComponentView {
        ComponentView {
            args: self.args.deep_view(),
            handle: self.handle,
            id: self.id@,
            state: self.state,
        }
    }
}

impl PipelineComponent {
    pub fn set_state_terminated(&mut self)
        ensures
            final(self)@ == old(self)@.with_state(PipelineComponentState::Terminated),
    {
        self.state = PipelineComponentState::Terminated
    }

    pub fn is_terminated(&self) -> (r: bool)
        ensures
            r == (self@.state == PipelineComponentState::Terminated),
    {
        self.state == PipelineComponentState::Terminated
    }

    /// Asks the component to enter `target`. The component enters it where
    /// that is a step forward and stays as it is where it is not.
    pub fn advance(&mut self, target: PipelineComponentState)
        ensures
            final(self)@ == old(self)@.advanced(target),
    {
        if self.state.position() < target.position() {
            self.state = target;
        }
    }
}

/// A component never moves back, whatever it is asked to enter.
pub proof fn lemma_state_only_moves_forward(
    state: PipelineComponentState,
    target: PipelineComponentState,
)
    ensures
        state.rank() <= state.advanced(target).rank(),
        target.rank() <= state.advanced(target).rank(),
        state.advanced(target) == state || state.advanced(target) == target,
        state.advanced(PipelineComponentState::Terminated) == PipelineComponentState::Terminated,
{
}

} // verus!
