//! The pipeline: its components, its routers and its end.

use vstd::prelude::*;
use crate::abi::{ModuleCall, ModuleCallView};
use crate::pipeline::listener::{Listener, ListenerView};
use crate::pipeline::pipeline_step::{PipelineStep, PipelineStepView};
use crate::pipeline::router::{RecordRouter, RecordRouterView};
use crate::pipeline::{ComponentView, PipelineComponentState};
use crate::sequences::{is_first_index, lemma_filter_keeps_all};
use crate::text::{decimal, decimal_string};
use crate::xthread::SystemMessage;

verus! {

/// A pipeline: steps in the order in which the records pass them, and
/// listeners that watch every edge.
#[derive(PartialEq, Eq, Debug)]
pub struct Pipeline {
    pub description: Option<String>,
    pub listeners: Vec<Listener>,
    pub steps: Vec<PipelineStep>,
}

/// A [`Pipeline`] with its texts as sequences of characters.
pub struct PipelineView {
    pub description: Option<Seq<char>>,
    pub listeners: Seq<ListenerView>,
    pub steps: Seq<PipelineStepView>,
}

impl View for Pipeline {
    type V = PipelineView;

    open spec fn view(&self) -> PipelineView {
        PipelineView {
            description: self.description.deep_view(),
            listeners: self.listeners.deep_view(),
            steps: self.steps.deep_view(),
        }
    }
}

impl Default for Pipeline {
    fn default() -> (r: Pipeline)
        ensures
            r@ == (PipelineView { description: None, listeners: Seq::empty(), steps: Seq::empty() }),
    {
        Pipeline::new()
    }
}

/// The message for a handle that no component of the pipeline has.
pub open spec fn unknown_component(handle: usize) -> Seq<char> {
    "Cannot find a pipeline component with handle '"@ + decimal(handle as nat) + "'"@
}

impl PipelineView {
    /// The handles of the steps, in their order.
    pub open spec fn step_handles(self) -> Seq<usize> {
        self.steps.map_values(|step: PipelineStepView| step.component.handle)
    }

    /// The handles of the listeners, in their order.
    pub open spec fn listener_handles(self) -> Seq<usize> {
        self.listeners.map_values(|listener: ListenerView| listener.component.handle)
    }

    /// The component at position `i` where the listeners are counted first
    /// and the steps after them.
    pub open spec fn component(self, i: int) -> ComponentView {
        if i < self.listeners.len() {
            self.listeners[i].component
        } else {
            self.steps[i - self.listeners.len()].component
        }
    }

    /// What holds of every assembled pipeline: it has at least two steps,
    /// the step at position `i` has the handle `i`, and the handles of the
    /// listeners go on from the number of steps.
    pub open spec fn well_formed(self) -> bool {
        &&& self.steps.len() >= 2
        &&& forall|i: int|
            0 <= i < self.steps.len() ==> (#[trigger] self.steps[i]).component.handle == i
        &&& forall|j: int|
            0 <= j < self.listeners.len() ==> (#[trigger] self.listeners[j]).component.handle
                == self.steps.len() + j
    }

    /// `after` is this pipeline at a later time: it has the same
    /// components, and none of them is in an earlier state than here.
    pub open spec fn advances_to(self, after: PipelineView) -> bool {
        &&& after.description == self.description
        &&& after.steps.len() == self.steps.len()
        &&& after.listeners.len() == self.listeners.len()
        &&& forall|i: int|
            0 <= i < self.steps.len() ==> {
                &&& (#[trigger] after.steps[i]).module == self.steps[i].module
                &&& after.steps[i].component == self.steps[i].component.with_state(
                    after.steps[i].component.state,
                )
                &&& self.steps[i].component.state.rank() <= after.steps[i].component.state.rank()
            }
        &&& forall|i: int|
            0 <= i < self.listeners.len() ==> {
                &&& (#[trigger] after.listeners[i]).module == self.listeners[i].module
                &&& after.listeners[i].component == self.listeners[i].component.with_state(
                    after.listeners[i].component.state,
                )
                &&& self.listeners[i].component.state.rank()
                    <= after.listeners[i].component.state.rank()
            }
    }

    /// The test by which the terminated steps are counted.
    pub open spec fn step_is_terminated() -> spec_fn(PipelineStepView) -> bool {
        |step: PipelineStepView| step.component.state == PipelineComponentState::Terminated
    }

    /// How many steps are terminated.
    pub open spec fn terminated_steps(self) -> nat {
        self.steps.filter(Self::step_is_terminated()).len()
    }

    /// The pipeline is running while not all of its steps are terminated.
    pub open spec fn is_running(self) -> bool {
        self.terminated_steps() < self.steps.len()
    }

    /// Whether a component of the pipeline has the handle.
    pub open spec fn knows(self, handle: usize) -> bool {
        self.step_handles().contains(handle) || self.listener_handles().contains(handle)
    }

    /// The pipeline after the component with the given handle was
    /// terminated: the first step with the handle, or, where no step has it,
    /// the first listener with the handle.
    pub open spec fn terminate(self, handle: usize) -> PipelineView {
        PipelineView {
            description: self.description,
            listeners: Seq::new(
                self.listeners.len(),
                |i: int|
                    if !self.step_handles().contains(handle) && is_first_index(
                        self.listener_handles(),
                        handle,
                        i,
                    ) {
                        self.listeners[i].advanced(PipelineComponentState::Terminated)
                    } else {
                        self.listeners[i]
                    },
            ),
            steps: Seq::new(
                self.steps.len(),
                |i: int|
                    if is_first_index(self.step_handles(), handle, i) {
                        self.steps[i].advanced(PipelineComponentState::Terminated)
                    } else {
                        self.steps[i]
                    },
            ),
        }
    }

    /// The calls that begin a graceful shutdown: the first step is shut
    /// down, and nothing else.
    pub open spec fn termination_calls(self) -> Seq<ModuleCallView> {
        if self.steps.len() > 0 {
            seq![ModuleCallView::Shutdown { handle: self.steps[0].component.handle }]
        } else {
            Seq::empty()
        }
    }

    /// The routers of the pipeline: one per pair of neighbouring steps, in
    /// the order of the pipeline, each with every listener.
    pub open spec fn routers(self) -> Seq<RecordRouterView> {
        Seq::new(
            if self.steps.len() > 0 {
                (self.steps.len() - 1) as nat
            } else {
                0nat
            },
            |i: int|
                RecordRouterView {
                    sender: self.steps[i].component.handle,
                    receiver: self.steps[i + 1].component.handle,
                    receiver_id: self.steps[i + 1].component.id,
                    listeners: self.listener_handles(),
                },
        )
    }
}

impl Pipeline {
    /// A pipeline without a component.
    pub fn new() -> (r: Pipeline)
        ensures
            r@ == (PipelineView { description: None, listeners: Seq::empty(), steps: Seq::empty() }),
    {
        let r = Pipeline { description: None, listeners: Vec::new(), steps: Vec::new() };
        assert(r@.listeners =~= Seq::empty());
        assert(r@.steps =~= Seq::empty());
        r
    }

    /// The routers to start, one per pair of neighbouring steps. The router
    /// at position `i` takes the records that the step at `i` emits and
    /// hands them to the step at `i + 1`.
    pub fn start_senders_receivers(&self) -> (r: Vec<RecordRouter>)
        ensures
            r.deep_view() == self@.routers(),
    {
        let ghost target = self@.routers();
        let mut routers: Vec<RecordRouter> = Vec::new();
        assert(routers.deep_view() =~= target.take(0));
        if self.steps.len() == 0 {
            assert(target.take(0) =~= target);
            return routers;
        }
        let mut i: usize = 0;
        while i < self.steps.len() - 1
            invariant
                self.steps.len() > 0,
                i <= self.steps.len() - 1,
                target == self@.routers(),
                routers.deep_view() == target.take(i as int),
            decreases self.steps.len() - 1 - i,
        {
            let mut listeners: Vec<usize> = Vec::new();
            let mut k: usize = 0;
            while k < self.listeners.len()
                invariant
                    k <= self.listeners.len(),
                    listeners@ == self@.listener_handles().take(k as int),
                decreases self.listeners.len() - k,
            {
                listeners.push(self.listeners[k].component.handle);
                assert(listeners@ =~= self@.listener_handles().take(k + 1));
                k += 1;
            }
            assert(self@.listener_handles().take(k as int) =~= self@.listener_handles());
            let router = RecordRouter {
                sender: self.steps[i].component.handle,
                receiver: self.steps[i + 1].component.handle,
                receiver_id: self.steps[i + 1].component.id.clone(),
                listeners,
            };
            let ghost before = routers.deep_view();
            routers.push(router);
            assert(routers.deep_view() =~= before.push(router@));
            assert(router@ == target[i as int]);
            assert(routers.deep_view() =~= target.take(i + 1));
            i += 1;
        }
        assert(target.take(i as int) =~= target);
        routers
    }

    /// Returns true if the pipeline is running.
    /// "running" means "not all steps are terminated"
    pub fn is_running(&self) -> (r: bool)
        ensures
            r == self@.is_running(),
    {
        let ghost test = PipelineView::step_is_terminated();
        let steps_total = self.steps.len();
        let mut steps_terminated: usize = 0;
        let mut i: usize = 0;
        assert(self@.steps.take(0).filter(test).len() == 0) by {
            assert(self@.steps.take(0) =~= Seq::<PipelineStepView>::empty());
            self@.steps.take(0).lemma_filter_len(test);
        }
        while i < steps_total
            invariant
                i <= steps_total,
                steps_total == self.steps@.len(),
                test == PipelineView::step_is_terminated(),
                steps_terminated <= i,
                steps_terminated == self@.steps.take(i as int).filter(test).len(),
            decreases steps_total - i,
        {
            proof {
                self@.steps.lemma_take_succ_push(i as int);
                self@.steps.take(i as int).lemma_filter_push(self@.steps[i as int], test);
            }
            if self.steps[i].component.is_terminated() {
                steps_terminated += 1;
            }
            i += 1;
        }
        assert(self@.steps.take(i as int) =~= self@.steps);
        steps_terminated < steps_total
    }

    /// The position of the first step with the given handle.
    fn find_step(&self, handle: usize) -> (r: Option<usize>)
        ensures
            match r {
                Some(i) => is_first_index(self@.step_handles(), handle, i as int),
                None => !self@.step_handles().contains(handle),
            },
    {
        let mut i: usize = 0;
        while i < self.steps.len()
            invariant
                i <= self.steps.len(),
                forall|k: int| 0 <= k < i ==> self@.step_handles()[k] != handle,
            decreases self.steps.len() - i,
        {
            if self.steps[i].component.handle == handle {
                return Some(i);
            }
            i += 1;
        }
        None
    }

    /// The position of the first listener with the given handle.
    fn find_listener(&self, handle: usize) -> (r: Option<usize>)
        ensures
            match r {
                Some(i) => is_first_index(self@.listener_handles(), handle, i as int),
                None => !self@.listener_handles().contains(handle),
            },
    {
        let mut i: usize = 0;
        while i < self.listeners.len()
            invariant
                i <= self.listeners.len(),
                forall|k: int| 0 <= k < i ==> self@.listener_handles()[k] != handle,
            decreases self.listeners.len() - i,
        {
            if self.listeners[i].component.handle == handle {
                return Some(i);
            }
            i += 1;
        }
        None
    }

    /// The first step with the given handle, to be changed in place.
    pub fn get_step_by_handle_mut(&mut self, handle: usize) -> (r: Option<&mut PipelineStep>)
        ensures
            match r {
                Some(step) => exists|i: int|
                    {
                        &&& is_first_index(old(self)@.step_handles(), handle, i)
                        &&& *step == old(self).steps@[i]
                        &&& final(self).steps@ == old(self).steps@.update(i, *final(step))
                        &&& final(self).listeners == old(self).listeners
                        &&& final(self).description == old(self).description
                    },
                None => !old(self)@.step_handles().contains(handle) && *final(self) == *old(self),
            },
    {
        match self.find_step(handle) {
            Some(i) => Some(&mut self.steps[i]),
            None => None,
        }
    }

    /// The calls that begin a graceful shutdown: the first step, and only
    /// the first step, is shut down. Every further step follows when the
    /// router before it finds its edge exhausted.
    pub fn trigger_termination(&self) -> (r: Vec<ModuleCall>)
        ensures
            r.deep_view() == self@.termination_calls(),
    {
        let mut calls: Vec<ModuleCall> = Vec::new();
        if self.steps.len() > 0 {
            let call = self.steps[0].shutdown();
            calls.push(call);
            assert(calls.deep_view() =~= seq![call@]);
        } else {
            assert(calls.deep_view() =~= Seq::<ModuleCallView>::empty());
        }
        calls
    }

    /// Takes a message from the command bus. `TerminateStep` marks the
    /// component with the handle as terminated; a handle that no component
    /// has is an error and changes nothing.
    pub fn handle_system_message(&mut self, message: SystemMessage) -> (r: Result<(), String>)
        ensures
            match message {
                SystemMessage::TerminateStep(handle) => {
                    &&& final(self)@ == old(self)@.terminate(handle)
                    &&& old(self)@.knows(handle) ==> r is Ok
                    &&& !old(self)@.knows(handle) ==> (r matches Err(e) && e@ == unknown_component(
                        handle,
                    ))
                },
            },
            old(self)@.advances_to(final(self)@),
    {
        match message {
            SystemMessage::TerminateStep(handle) => {
                proof {
                    lemma_terminate(self@, handle);
                }
                match self.find_step(handle) {
                    Some(i) => {
                        let ghost steps_before = self.steps@;
                        self.steps[i].component.set_state_terminated();
                        assert(forall|k: int|
                            0 <= k < steps_before.len() && k != i ==> self.steps@[k]
                                == steps_before[k]);
                        assert forall|k: int| 0 <= k < steps_before.len() implies self@.steps[k]
                            == old(self)@.terminate(handle).steps[k] by {
                            if k != i {
                                assert(self@.steps[k] == old(self)@.steps[k]);
                                assert(!is_first_index(old(self)@.step_handles(), handle, k));
                            }
                        }
                        assert(self@.steps =~= old(self)@.terminate(handle).steps);
                        assert(self@.listeners =~= old(self)@.terminate(handle).listeners);
                        assert(old(self)@.step_handles().contains(handle));
                        return Ok(());
                    },
                    None => {},
                }
                match self.find_listener(handle) {
                    Some(i) => {
                        let ghost listeners_before = self.listeners@;
                        self.listeners[i].component.set_state_terminated();
                        assert(forall|k: int|
                            0 <= k < listeners_before.len() && k != i ==> self.listeners@[k]
                                == listeners_before[k]);
                        assert forall|k: int|
                            0 <= k < listeners_before.len() implies self@.listeners[k] == old(
                            self,
                        )@.terminate(handle).listeners[k] by {
                            if k != i {
                                assert(self@.listeners[k] == old(self)@.listeners[k]);
                                assert(!is_first_index(old(self)@.listener_handles(), handle, k));
                            }
                        }
                        assert(self@.listeners =~= old(self)@.terminate(handle).listeners);
                        assert(self@.steps =~= old(self)@.terminate(handle).steps);
                        assert(old(self)@.listener_handles().contains(handle));
                        Ok(())
                    },
                    None => {
                        assert(self@.listeners =~= old(self)@.terminate(handle).listeners);
                        assert(self@.steps =~= old(self)@.terminate(handle).steps);
                        let mut report = String::from_str(
                            "Cannot find a pipeline component with handle '",
                        );
                        report.append(decimal_string(handle as u64).as_str());
                        report.append("'");
                        Err(report)
                    },
                }
            },
        }
    }
}

/// A pipeline that has moved on twice has moved on.
pub proof fn lemma_advances_twice(first: PipelineView, second: PipelineView, third: PipelineView)
    requires
        first.advances_to(second),
        second.advances_to(third),
    ensures
        first.advances_to(third),
{
    assert forall|i: int| 0 <= i < first.steps.len() implies {
        &&& (#[trigger] third.steps[i]).module == first.steps[i].module
        &&& third.steps[i].component == first.steps[i].component.with_state(
            third.steps[i].component.state,
        )
        &&& first.steps[i].component.state.rank() <= third.steps[i].component.state.rank()
    } by {
        assert(second.steps[i].module == first.steps[i].module);
    }
    assert forall|i: int| 0 <= i < first.listeners.len() implies {
        &&& (#[trigger] third.listeners[i]).module == first.listeners[i].module
        &&& third.listeners[i].component == first.listeners[i].component.with_state(
            third.listeners[i].component.state,
        )
        &&& first.listeners[i].component.state.rank() <= third.listeners[i].component.state.rank()
    } by {
        assert(second.listeners[i].module == first.listeners[i].module);
    }
}

/// Terminating a component moves no component back.
pub proof fn lemma_terminate(pipeline: PipelineView, handle: usize)
    ensures
        pipeline.advances_to(pipeline.terminate(handle)),
{
}

/// The pipeline runs exactly as long as one of its steps is not terminated.
pub proof fn lemma_running_while_a_step_lives(pipeline: PipelineView)
    ensures
        pipeline.is_running() <==> exists|i: int|
            0 <= i < pipeline.steps.len() && (#[trigger] pipeline.steps[i]).component.state
                != PipelineComponentState::Terminated,
{
    lemma_filter_keeps_all(pipeline.steps, PipelineView::step_is_terminated());
}

/// A pipeline that has stopped running never runs again: whatever happens
/// to its components later, none of them leaves the terminated state.
pub proof fn lemma_stopped_stays_stopped(before: PipelineView, after: PipelineView)
    requires
        before.advances_to(after),
        !before.is_running(),
    ensures
        !after.is_running(),
{
    lemma_running_while_a_step_lives(before);
    lemma_running_while_a_step_lives(after);
    assert forall|i: int| 0 <= i < after.steps.len() implies (#[trigger] after.steps[i]).component.state
        == PipelineComponentState::Terminated by {
        assert(before.steps[i].component.state == PipelineComponentState::Terminated);
        assert(before.steps[i].component.state.rank() <= after.steps[i].component.state.rank());
    }
}

/// In a well-formed pipeline no two components share a handle, and a
/// handle below the number of steps is a step's: a handle is known exactly
/// if it is below the number of components.
pub proof fn lemma_handles_are_unique(pipeline: PipelineView)
    requires
        pipeline.well_formed(),
    ensures
        pipeline.step_handles().no_duplicates(),
        pipeline.listener_handles().no_duplicates(),
        forall|handle: usize|
            pipeline.step_handles().contains(handle) <==> handle < pipeline.steps.len(),
        forall|handle: usize|
            pipeline.listener_handles().contains(handle) <==> pipeline.steps.len() <= handle
                < pipeline.steps.len() + pipeline.listeners.len(),
{
    assert forall|handle: usize| handle < pipeline.steps.len() implies pipeline.step_handles().contains(
        handle,
    ) by {
        assert(pipeline.step_handles()[handle as int] == handle);
    }
    assert forall|handle: usize|
        pipeline.steps.len() <= handle < pipeline.steps.len()
            + pipeline.listeners.len() implies pipeline.listener_handles().contains(handle) by {
        assert(pipeline.listener_handles()[handle - pipeline.steps.len()] == handle);
    }
}

/// A pipeline stays well-formed whatever becomes of the states of its
/// components.
pub proof fn lemma_well_formed_is_kept(before: PipelineView, after: PipelineView)
    requires
        before.well_formed(),
        before.advances_to(after),
    ensures
        after.well_formed(),
{
    assert forall|i: int| 0 <= i < after.steps.len() implies (
    #[trigger] after.steps[i]).component.handle == i by {
        assert(before.steps[i].component.handle == i);
    }
    assert forall|j: int| 0 <= j < after.listeners.len() implies (
    #[trigger] after.listeners[j]).component.handle == after.steps.len() + j by {
        assert(before.listeners[j].component.handle == before.steps.len() + j);
    }
}

/// The routers of a well-formed pipeline: there is one for every pair of
/// neighbouring steps, and the router at position `i` leads from the step
/// with handle `i` to the step with handle `i + 1`.
pub proof fn lemma_routers_join_neighbours(pipeline: PipelineView)
    requires
        pipeline.well_formed(),
    ensures
        pipeline.routers().len() == pipeline.steps.len() - 1,
        forall|i: int|
            0 <= i < pipeline.routers().len() ==> (#[trigger] pipeline.routers()[i]).sender == i
                && pipeline.routers()[i].receiver == i + 1,
{
}

/// In a well-formed pipeline a termination message for a step changes the
/// state of that step and of nothing else.
pub proof fn lemma_terminate_step(pipeline: PipelineView, handle: usize)
    requires
        pipeline.well_formed(),
        handle < pipeline.steps.len(),
    ensures
        pipeline.terminate(handle).listeners == pipeline.listeners,
        pipeline.terminate(handle).steps == pipeline.steps.update(
            handle as int,
            pipeline.steps[handle as int].advanced(PipelineComponentState::Terminated),
        ),
{
    lemma_handles_are_unique(pipeline);
    let handles = pipeline.step_handles();
    assert(is_first_index(handles, handle, handle as int)) by {
        assert forall|j: int| 0 <= j < handle implies handles[j] != handle by {
            assert(pipeline.steps[j].component.handle == j);
        }
        assert(pipeline.steps[handle as int].component.handle == handle);
    }
    assert forall|i: int| 0 <= i < pipeline.steps.len() && i != handle implies !is_first_index(
        handles,
        handle,
        i,
    ) by {
        assert(pipeline.steps[i].component.handle == i);
    }
    assert(pipeline.terminate(handle).steps =~= pipeline.steps.update(
        handle as int,
        pipeline.steps[handle as int].advanced(PipelineComponentState::Terminated),
    ));
    assert(pipeline.terminate(handle).listeners =~= pipeline.listeners);
}

} // verus!
