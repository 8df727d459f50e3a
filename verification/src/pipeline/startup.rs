//! The startup of a pipeline: its components are configured, then started.
//!
//! For each of the three phases one function gives the calls that the host
//! makes into the modules, and another takes the answers of the modules and
//! moves the components on. The host makes the calls in the order given and
//! stops at the first module that does not succeed.

use vstd::prelude::*;
use crate::abi::{
    ModuleCall, ModuleCallView, ModuleListenerConfigureArgs, ModuleListenerConfigureFnResult,
    ModulePipelineConfigureArgs, ModulePipelineConfigureFnResult, PipelineModuleKind,
    StepStartFnResult,
};
use crate::modules::listener::listener_configure_error;
use crate::modules::pipeline::configure_error;
use crate::modules::start_error;
use crate::pipeline::pipeline::{lemma_advances_twice, Pipeline, PipelineView};
use crate::pipeline::{ComponentView, PipelineComponent, PipelineComponentState};
use crate::sequences::{lemma_passed, passed};
use crate::text::{decimal, decimal_string};

verus! {

/// What stands in place of a module's text where the host has no answer of
/// the module to go by.
pub open spec fn no_answer() -> Seq<char> {
    "the module gave no answer"@
}

/// The answer at position `i`, if there is one.
pub open spec fn answer_at<R>(answers: Seq<R>, i: int) -> Option<R> {
    if 0 <= i < answers.len() {
        Some(answers[i])
    } else {
        None
    }
}

/// Why a step is not configured after its module answered `answer`, `None`
/// where it is. The message names the step.
pub open spec fn step_configure_failure(
    step: ComponentView,
    answer: Option<ModulePipelineConfigureFnResult>,
) -> Option<Seq<char>> {
    let reason = match answer {
        None => Some(no_answer()),
        Some(result) => configure_error(step.handle, result),
    };
    match reason {
        None => None,
        Some(text) => Some("Failed to configure step "@ + step.id + ": "@ + text),
    }
}

/// Why a listener is not configured after its module answered `answer`,
/// `None` where it is. A refusal of the module is handed on as it is.
pub open spec fn listener_configure_failure(
    listener: ComponentView,
    answer: Option<ModuleListenerConfigureFnResult>,
) -> Option<Seq<char>> {
    match answer {
        None => Some("Failed to configure event listener '"@ + listener.id + "': "@ + no_answer()),
        Some(result) => listener_configure_error(result),
    }
}

/// Why a component is not running after its module answered `answer`,
/// `None` where it is. `what` says what the component is.
pub open spec fn start_failure(
    what: Seq<char>,
    component: ComponentView,
    answer: Option<StepStartFnResult>,
) -> Option<Seq<char>> {
    let reason = match answer {
        None => Some(no_answer()),
        Some(result) => start_error(result),
    };
    match reason {
        None => None,
        Some(text) => Some("Failed to start "@ + what + " '"@ + component.id + "': "@ + text),
    }
}

/// One `set_param` call per pair, in the order of the pairs.
pub open spec fn set_params(handle: usize, params: Seq<(Seq<char>, Seq<char>)>) -> Seq<
    ModuleCallView,
> {
    Seq::new(
        params.len(),
        |i: int| ModuleCallView::SetParam { handle, key: params[i].0, value: params[i].1 },
    )
}

/// The pairs with `prefix` before every key.
pub open spec fn prefixed(prefix: Seq<char>, params: Seq<(Seq<char>, Seq<char>)>) -> Seq<
    (Seq<char>, Seq<char>),
> {
    Seq::new(params.len(), |i: int| (prefix + params[i].0, params[i].1))
}

/// What the listeners are told about one component: its handle and its
/// identifier, under keys that begin with `section` and the handle.
pub open spec fn component_data(section: Seq<char>, component: ComponentView) -> Seq<
    (Seq<char>, Seq<char>),
> {
    let handle = decimal(component.handle as nat);
    seq![
        (section + "."@ + handle + ".handle"@, handle),
        (section + "."@ + handle + ".id"@, component.id),
    ]
}

impl PipelineView {
    /// The role of the step at position `i`: the first step is the source,
    /// the last one the destination, every other one a transformation.
    pub open spec fn step_kind(self, i: int) -> PipelineModuleKind {
        if i == 0 {
            PipelineModuleKind::Source
        } else if i == self.steps.len() - 1 {
            PipelineModuleKind::Destination
        } else {
            PipelineModuleKind::Transformation
        }
    }

    /// The calls that configure the step at position `i`: its arguments are
    /// set in their order, then the module is told the handle and the role.
    pub open spec fn step_configure_calls(self, i: int) -> Seq<ModuleCallView> {
        let component = self.steps[i].component;
        set_params(component.handle, component.args).push(
            ModuleCallView::ConfigureStep(
                ModulePipelineConfigureArgs {
                    kind: self.step_kind(i),
                    module_handle: component.handle,
                },
            ),
        )
    }

    /// What the listeners are told about the pipeline: handle and
    /// identifier of every listener, then of every step.
    pub open spec fn pipeline_data(self) -> Seq<(Seq<char>, Seq<char>)> {
        Seq::new(
            2 * (self.listeners.len() + self.steps.len()),
            |k: int|
                component_data(
                    if k / 2 < self.listeners.len() {
                        "listeners"@
                    } else {
                        "steps"@
                    },
                    self.component(k / 2),
                )[k % 2],
        )
    }

    /// The calls that configure the listener at position `i`: its own
    /// arguments are set, then the data on the pipeline under keys that
    /// begin with `pipeline.`, then the module is told the handle.
    pub open spec fn listener_configure_calls(self, i: int) -> Seq<ModuleCallView> {
        let component = self.listeners[i].component;
        (set_params(component.handle, component.args) + set_params(
            component.handle,
            prefixed("pipeline."@, self.pipeline_data()),
        )).push(
            ModuleCallView::ConfigureListener(
                ModuleListenerConfigureArgs { module_handle: component.handle },
            ),
        )
    }

    /// The calls that start the pipeline: every listener in the order of
    /// registration, then every step in the order of the pipeline.
    pub open spec fn start_calls(self) -> Seq<ModuleCallView> {
        Seq::new(
            self.listeners.len() + self.steps.len(),
            |i: int| ModuleCallView::Start { handle: self.component(i).handle },
        )
    }

    /// For every step, why it is not configured after the answers
    /// `answers`, where `answers[i]` is the answer for the step at `i`.
    pub open spec fn step_configure_errors(
        self,
        answers: Seq<ModulePipelineConfigureFnResult>,
    ) -> Seq<Option<Seq<char>>> {
        Seq::new(
            self.steps.len(),
            |i: int| step_configure_failure(self.steps[i].component, answer_at(answers, i)),
        )
    }

    /// For every listener, why it is not configured after the answers
    /// `answers`, where `answers[i]` is the answer for the listener at `i`.
    pub open spec fn listener_configure_errors(
        self,
        answers: Seq<ModuleListenerConfigureFnResult>,
    ) -> Seq<Option<Seq<char>>> {
        Seq::new(
            self.listeners.len(),
            |i: int| listener_configure_failure(self.listeners[i].component, answer_at(answers, i)),
        )
    }

    /// For every component, listeners first, why it is not running after
    /// the answers `answers`, where `answers[i]` is the answer to the call
    /// at `i` of [`PipelineView::start_calls`].
    pub open spec fn start_errors(self, answers: Seq<StepStartFnResult>) -> Seq<Option<Seq<char>>> {
        Seq::new(
            self.listeners.len() + self.steps.len(),
            |i: int|
                start_failure(
                    if i < self.listeners.len() {
                        "event listener"@
                    } else {
                        "pipeline step"@
                    },
                    self.component(i),
                    answer_at(answers, i),
                ),
        )
    }

    /// The pipeline after its first `count` steps were asked to enter
    /// `target`.
    pub open spec fn steps_advanced(
        self,
        count: int,
        target: PipelineComponentState,
    ) -> PipelineView {
        PipelineView {
            steps: Seq::new(
                self.steps.len(),
                |i: int|
                    if i < count {
                        self.steps[i].advanced(target)
                    } else {
                        self.steps[i]
                    },
            ),
            ..self
        }
    }

    /// The pipeline after its first `count` listeners were asked to enter
    /// `target`.
    pub open spec fn listeners_advanced(
        self,
        count: int,
        target: PipelineComponentState,
    ) -> PipelineView {
        PipelineView {
            listeners: Seq::new(
                self.listeners.len(),
                |i: int|
                    if i < count {
                        self.listeners[i].advanced(target)
                    } else {
                        self.listeners[i]
                    },
            ),
            ..self
        }
    }
}

impl Pipeline {
    /// The role of the step at position `index`.
    pub fn step_kind(&self, index: usize) -> (r: PipelineModuleKind)
        ensures
            r == self@.step_kind(index as int),
    {
        if index == 0 {
            PipelineModuleKind::Source
        } else if self.steps.len() > 0 && index == self.steps.len() - 1 {
            PipelineModuleKind::Destination
        } else {
            PipelineModuleKind::Transformation
        }
    }

    /// The calls that configure the steps: one list per step, in the order
    /// of the pipeline. The last call of each list is the `configure` of the
    /// step, whose answer [`Pipeline::configure_steps`] takes.
    pub fn configure_steps_calls(&self) -> (r: Vec<Vec<ModuleCall>>)
        ensures
            r@.len() == self@.steps.len(),
            forall|i: int|
                0 <= i < self@.steps.len() ==> (#[trigger] r@[i]).deep_view()
                    == self@.step_configure_calls(i),
    {
        let mut plan: Vec<Vec<ModuleCall>> = Vec::new();
        let mut i: usize = 0;
        while i < self.steps.len()
            invariant
                i <= self.steps.len(),
                plan@.len() == i,
                forall|k: int|
                    0 <= k < i ==> (#[trigger] plan@[k]).deep_view() == self@.step_configure_calls(
                        k,
                    ),
            decreases self.steps.len() - i,
        {
            let component = &self.steps[i].component;
            let mut calls: Vec<ModuleCall> = Vec::new();
            push_set_params(&mut calls, component.handle, &component.args);
            let ghost before = calls.deep_view();
            let call = ModuleCall::ConfigureStep(
                ModulePipelineConfigureArgs {
                    kind: self.step_kind(i),
                    module_handle: component.handle,
                },
            );
            calls.push(call);
            assert(calls.deep_view() =~= before.push(call@));
            assert(before =~= set_params(component@.handle, component@.args));
            plan.push(calls);
            i += 1;
        }
        plan
    }

    /// Takes the answers of the modules to the `configure` calls of
    /// [`Pipeline::configure_steps_calls`]: `answers[i]` is the answer for
    /// the step at position `i`.
    ///
    /// The steps are gone through in order. A step whose module accepted is
    /// configured. The first step whose module refused, or for which there
    /// is no answer, ends the startup: the error names it, and it and every
    /// step after it stay as they are.
    pub fn configure_steps(&mut self, answers: &Vec<ModulePipelineConfigureFnResult>) -> (r: Result<
        (),
        String,
    >)
        ensures
            ({
                let errors = old(self)@.step_configure_errors(answers@);
                let done = passed(errors);
                &&& final(self)@ == old(self)@.steps_advanced(
                    done as int,
                    PipelineComponentState::Configured,
                )
                &&& done == errors.len() ==> r is Ok
                &&& done < errors.len() ==> (r matches Err(e) && e@ == errors[done as int].unwrap())
            }),
            old(self)@.advances_to(final(self)@),
            r is Ok ==> forall|i: int|
                0 <= i < old(self)@.steps.len() && old(self)@.steps[i].component.state.rank() <= 1
                    ==> (#[trigger] final(self)@.steps[i]).component.state
                    == PipelineComponentState::Configured,
    {
        let ghost errors = self@.step_configure_errors(answers@);
        let count = self.steps.len();
        assert(errors.skip(0) =~= errors);
        assert(self@ =~= self@.steps_advanced(0, PipelineComponentState::Configured)) by {
            assert(self@.steps =~= self@.steps_advanced(
                0,
                PipelineComponentState::Configured,
            ).steps);
        }
        let mut i: usize = 0;
        while i < count
            invariant
                i <= count,
                count == old(self)@.steps.len(),
                count == self.steps@.len(),
                errors == old(self)@.step_configure_errors(answers@),
                passed(errors) == i + passed(errors.skip(i as int)),
                self@ == old(self)@.steps_advanced(i as int, PipelineComponentState::Configured),
            decreases count - i,
        {
            let ghost before = self@;
            let ghost steps_before = self.steps@;
            let ghost remaining = errors.skip(i as int);
            assert(remaining.first() == errors[i as int]);
            assert(remaining.drop_first() =~= errors.skip(i + 1));
            assert(self@.steps[i as int] == old(self)@.steps[i as int]);
            let args = ModulePipelineConfigureArgs {
                kind: self.step_kind(i),
                module_handle: self.steps[i].component.handle,
            };
            let outcome = if i < answers.len() {
                self.steps[i].configure(args, &answers[i])
            } else {
                Err(String::from_str("the module gave no answer"))
            };
            assert(self.steps@.len() == count);
            assert(forall|k: int| 0 <= k < count && k != i ==> self.steps@[k] == steps_before[k]);
            match outcome {
                Ok(_) => {
                    assert(self.steps@[i as int]@ == steps_before[i as int]@.advanced(
                        PipelineComponentState::Configured,
                    ));
                    assert forall|k: int| 0 <= k < count implies self@.steps[k] == old(
                        self,
                    )@.steps_advanced(i + 1, PipelineComponentState::Configured).steps[k] by {
                        if k != i {
                            assert(self@.steps[k] == before.steps[k]);
                        }
                    }
                    assert(self@.steps =~= old(self)@.steps_advanced(
                        i + 1,
                        PipelineComponentState::Configured,
                    ).steps);
                },
                Err(reason) => {
                    let mut message = String::from_str("Failed to configure step ");
                    message.append(self.steps[i].component.id.as_str());
                    message.append(": ");
                    message.append(reason.as_str());
                    assert(self.steps@[i as int]@ == steps_before[i as int]@);
                    assert forall|k: int| 0 <= k < count implies self@.steps[k]
                        == before.steps[k] by {
                        if k != i {
                            assert(self.steps@[k] == steps_before[k]);
                        }
                    }
                    assert(self@.steps =~= before.steps);
                    proof {
                        lemma_steps_advanced(
                            old(self)@,
                            i as int,
                            PipelineComponentState::Configured,
                        );
                    }
                    return Err(message);
                },
            }
            i += 1;
        }
        proof {
            lemma_steps_advanced(old(self)@, i as int, PipelineComponentState::Configured);
        }
        Ok(())
    }

    /// What the listeners are told about the pipeline. See
    /// [`PipelineView::pipeline_data`].
    pub fn pipeline_data(&self) -> (r: Vec<(String, String)>)
        ensures
            r.deep_view() == self@.pipeline_data(),
    {
        let ghost target = self@.pipeline_data();
        let mut data: Vec<(String, String)> = Vec::new();
        assert(data.deep_view() =~= target.take(0));
        let mut i: usize = 0;
        while i < self.listeners.len()
            invariant
                i <= self.listeners.len(),
                target == self@.pipeline_data(),
                data.deep_view() == target.take(2 * i),
            decreases self.listeners.len() - i,
        {
            push_component_data(&mut data, "listeners", &self.listeners[i].component);
            assert(self@.component(i as int) == self.listeners[i as int].component@);
            assert(data.deep_view() =~= target.take(2 * (i + 1)));
            i += 1;
        }
        let mut k: usize = 0;
        while k < self.steps.len()
            invariant
                k <= self.steps.len(),
                target == self@.pipeline_data(),
                data.deep_view() == target.take(2 * (self.listeners.len() + k)),
            decreases self.steps.len() - k,
        {
            push_component_data(&mut data, "steps", &self.steps[k].component);
            assert(self@.component(self.listeners.len() + k) == self.steps[k as int].component@);
            assert(data.deep_view() =~= target.take(2 * (self.listeners.len() + k + 1)));
            k += 1;
        }
        assert(target.take(2 * (self.listeners.len() + k)) =~= target);
        data
    }

    /// The calls that configure the listeners: one list per listener, in
    /// the order of registration. The last call of each list is the
    /// `configure` of the listener, whose answer
    /// [`Pipeline::configure_listeners`] takes.
    pub fn configure_listeners_calls(&self) -> (r: Vec<Vec<ModuleCall>>)
        ensures
            r@.len() == self@.listeners.len(),
            forall|i: int|
                0 <= i < self@.listeners.len() ==> (#[trigger] r@[i]).deep_view()
                    == self@.listener_configure_calls(i),
    {
        let pipeline_data = self.pipeline_data();
        let mut plan: Vec<Vec<ModuleCall>> = Vec::new();
        let mut i: usize = 0;
        while i < self.listeners.len()
            invariant
                i <= self.listeners.len(),
                plan@.len() == i,
                pipeline_data.deep_view() == self@.pipeline_data(),
                forall|k: int|
                    0 <= k < i ==> (#[trigger] plan@[k]).deep_view()
                        == self@.listener_configure_calls(k),
            decreases self.listeners.len() - i,
        {
            let component = &self.listeners[i].component;
            let mut calls: Vec<ModuleCall> = Vec::new();
            push_set_params(&mut calls, component.handle, &component.args);
            push_prefixed_set_params(&mut calls, component.handle, "pipeline.", &pipeline_data);
            let ghost before = calls.deep_view();
            let call = ModuleCall::ConfigureListener(
                ModuleListenerConfigureArgs { module_handle: component.handle },
            );
            calls.push(call);
            assert(calls.deep_view() =~= before.push(call@));
            assert(before =~= set_params(component@.handle, component@.args) + set_params(
                component@.handle,
                prefixed("pipeline."@, self@.pipeline_data()),
            ));
            plan.push(calls);
            i += 1;
        }
        plan
    }

    /// Takes the answers of the modules to the `configure` calls of
    /// [`Pipeline::configure_listeners_calls`]: `answers[i]` is the answer
    /// for the listener at position `i`.
    ///
    /// The listeners are gone through in order. A listener whose module
    /// accepted is configured. The first listener whose module refused, or
    /// for which there is no answer, ends the startup with its error, and
    /// it and every listener after it stay as they are.
    pub fn configure_listeners(&mut self, answers: &Vec<ModuleListenerConfigureFnResult>) -> (r:
        Result<(), String>)
        ensures
            ({
                let errors = old(self)@.listener_configure_errors(answers@);
                let done = passed(errors);
                &&& final(self)@ == old(self)@.listeners_advanced(
                    done as int,
                    PipelineComponentState::Configured,
                )
                &&& done == errors.len() ==> r is Ok
                &&& done < errors.len() ==> (r matches Err(e) && e@ == errors[done as int].unwrap())
            }),
            old(self)@.advances_to(final(self)@),
            r is Ok ==> forall|i: int|
                0 <= i < old(self)@.listeners.len() && old(
                    self,
                )@.listeners[i].component.state.rank() <= 1 ==> (
                #[trigger] final(self)@.listeners[i]).component.state
                    == PipelineComponentState::Configured,
    {
        let ghost errors = self@.listener_configure_errors(answers@);
        let count = self.listeners.len();
        assert(errors.skip(0) =~= errors);
        assert(self@.listeners =~= self@.listeners_advanced(
            0,
            PipelineComponentState::Configured,
        ).listeners);
        let mut i: usize = 0;
        while i < count
            invariant
                i <= count,
                count == old(self)@.listeners.len(),
                count == self.listeners@.len(),
                errors == old(self)@.listener_configure_errors(answers@),
                passed(errors) == i + passed(errors.skip(i as int)),
                self@ == old(self)@.listeners_advanced(
                    i as int,
                    PipelineComponentState::Configured,
                ),
            decreases count - i,
        {
            let ghost before = self@;
            let ghost listeners_before = self.listeners@;
            let ghost remaining = errors.skip(i as int);
            assert(remaining.first() == errors[i as int]);
            assert(remaining.drop_first() =~= errors.skip(i + 1));
            assert(self@.listeners[i as int] == old(self)@.listeners[i as int]);
            let args = ModuleListenerConfigureArgs {
                module_handle: self.listeners[i].component.handle,
            };
            let outcome = if i < answers.len() {
                self.listeners[i].configure(args, &answers[i])
            } else {
                let mut message = String::from_str("Failed to configure event listener '");
                message.append(self.listeners[i].component.id.as_str());
                message.append("': ");
                message.append("the module gave no answer");
                Err(message)
            };
            assert(self.listeners@.len() == count);
            assert(forall|k: int|
                0 <= k < count && k != i ==> self.listeners@[k] == listeners_before[k]);
            match outcome {
                Ok(_) => {
                    assert(self.listeners@[i as int]@ == listeners_before[i as int]@.advanced(
                        PipelineComponentState::Configured,
                    ));
                    assert forall|k: int| 0 <= k < count implies self@.listeners[k] == old(
                        self,
                    )@.listeners_advanced(i + 1, PipelineComponentState::Configured).listeners[k] by {
                        if k != i {
                            assert(self@.listeners[k] == before.listeners[k]);
                        }
                    }
                    assert(self@.listeners =~= old(self)@.listeners_advanced(
                        i + 1,
                        PipelineComponentState::Configured,
                    ).listeners);
                },
                Err(message) => {
                    assert(self.listeners@[i as int]@ == listeners_before[i as int]@);
                    assert forall|k: int| 0 <= k < count implies self@.listeners[k]
                        == before.listeners[k] by {
                        if k != i {
                            assert(self.listeners@[k] == listeners_before[k]);
                        }
                    }
                    assert(self@.listeners =~= before.listeners);
                    proof {
                        lemma_listeners_advanced(
                            old(self)@,
                            i as int,
                            PipelineComponentState::Configured,
                        );
                    }
                    return Err(message);
                },
            }
            i += 1;
        }
        proof {
            lemma_listeners_advanced(old(self)@, i as int, PipelineComponentState::Configured);
        }
        Ok(())
    }

    /// The calls that start the pipeline, in order: the listeners before the
    /// steps, so that no listener misses an event.
    pub fn start_calls(&self) -> (r: Vec<ModuleCall>)
        ensures
            r.deep_view() == self@.start_calls(),
    {
        let ghost target = self@.start_calls();
        let mut calls: Vec<ModuleCall> = Vec::new();
        assert(calls.deep_view() =~= target.take(0));
        let mut i: usize = 0;
        while i < self.listeners.len()
            invariant
                i <= self.listeners.len(),
                target == self@.start_calls(),
                calls.deep_view() == target.take(i as int),
            decreases self.listeners.len() - i,
        {
            let ghost before = calls.deep_view();
            let call = ModuleCall::Start { handle: self.listeners[i].component.handle };
            calls.push(call);
            assert(calls.deep_view() =~= before.push(call@));
            assert(self@.component(i as int) == self.listeners[i as int].component@);
            assert(calls.deep_view() =~= target.take(i + 1));
            i += 1;
        }
        let mut k: usize = 0;
        while k < self.steps.len()
            invariant
                k <= self.steps.len(),
                target == self@.start_calls(),
                calls.deep_view() == target.take(self.listeners.len() + k),
            decreases self.steps.len() - k,
        {
            let ghost before = calls.deep_view();
            let call = ModuleCall::Start { handle: self.steps[k].component.handle };
            calls.push(call);
            assert(calls.deep_view() =~= before.push(call@));
            assert(self@.component(self.listeners.len() + k) == self.steps[k as int].component@);
            assert(calls.deep_view() =~= target.take(self.listeners.len() + k + 1));
            k += 1;
        }
        assert(target.take(self.listeners.len() + k) =~= target);
        calls
    }

    /// Takes the answers of the modules to the calls of
    /// [`Pipeline::start_calls`]: `answers[i]` is the answer to the call at
    /// position `i`.
    ///
    /// The components are gone through in the order of the calls. A
    /// component whose module has started is running. The first component
    /// whose module failed, or for which there is no answer, ends the
    /// startup: the error names it, and it and every component after it
    /// stay as they are.
    pub fn start_steps(&mut self, answers: &Vec<StepStartFnResult>) -> (r: Result<(), String>)
        ensures
            ({
                let errors = old(self)@.start_errors(answers@);
                let done = passed(errors);
                &&& final(self)@ == old(self)@.listeners_advanced(
                    done as int,
                    PipelineComponentState::Running,
                ).steps_advanced(
                    done - old(self)@.listeners.len(),
                    PipelineComponentState::Running,
                )
                &&& done == errors.len() ==> r is Ok
                &&& done < errors.len() ==> (r matches Err(e) && e@ == errors[done as int].unwrap())
            }),
            old(self)@.advances_to(final(self)@),
            r is Ok ==> forall|i: int|
                0 <= i < old(self)@.listeners.len() && old(
                    self,
                )@.listeners[i].component.state.rank() <= 2 ==> (
                #[trigger] final(self)@.listeners[i]).component.state
                    == PipelineComponentState::Running,
            r is Ok ==> forall|i: int|
                0 <= i < old(self)@.steps.len() && old(self)@.steps[i].component.state.rank() <= 2
                    ==> (#[trigger] final(self)@.steps[i]).component.state
                    == PipelineComponentState::Running,
    {
        let ghost errors = self@.start_errors(answers@);
        let listeners_count = self.listeners.len();
        let steps_count = self.steps.len();
        assert(errors.skip(0) =~= errors);
        assert(self@.listeners =~= self@.listeners_advanced(
            0,
            PipelineComponentState::Running,
        ).listeners);
        let mut i: usize = 0;
        while i < listeners_count
            invariant
                i <= listeners_count,
                listeners_count == old(self)@.listeners.len(),
                listeners_count == self.listeners@.len(),
                errors == old(self)@.start_errors(answers@),
                passed(errors) == i + passed(errors.skip(i as int)),
                self@ == old(self)@.listeners_advanced(i as int, PipelineComponentState::Running),
            decreases listeners_count - i,
        {
            let ghost before = self@;
            let ghost listeners_before = self.listeners@;
            let ghost remaining = errors.skip(i as int);
            assert(remaining.first() == errors[i as int]);
            assert(remaining.drop_first() =~= errors.skip(i + 1));
            assert(self@.listeners[i as int] == old(self)@.listeners[i as int]);
            assert(old(self)@.component(i as int) == old(self)@.listeners[i as int].component);
            let outcome = if i < answers.len() {
                self.listeners[i].module.start(&answers[i])
            } else {
                Err(String::from_str("the module gave no answer"))
            };
            match outcome {
                Ok(_) => {
                    self.listeners[i].component.advance(PipelineComponentState::Running);
                    assert(forall|k: int|
                        0 <= k < listeners_count && k != i ==> self.listeners@[k]
                            == listeners_before[k]);
                    assert(self.listeners@[i as int]@ == listeners_before[i as int]@.advanced(
                        PipelineComponentState::Running,
                    ));
                    assert forall|k: int| 0 <= k < listeners_count implies self@.listeners[k]
                        == old(self)@.listeners_advanced(
                        i + 1,
                        PipelineComponentState::Running,
                    ).listeners[k] by {
                        if k != i {
                            assert(self@.listeners[k] == before.listeners[k]);
                        }
                    }
                    assert(self@.listeners =~= old(self)@.listeners_advanced(
                        i + 1,
                        PipelineComponentState::Running,
                    ).listeners);
                },
                Err(reason) => {
                    let mut message = String::from_str("Failed to start ");
                    message.append("event listener");
                    message.append(" '");
                    message.append(self.listeners[i].component.id.as_str());
                    message.append("': ");
                    message.append(reason.as_str());
                    proof {
                        lemma_listeners_advanced(
                            old(self)@,
                            i as int,
                            PipelineComponentState::Running,
                        );
                        assert(self@.steps =~= self@.steps_advanced(
                            i - listeners_count,
                            PipelineComponentState::Running,
                        ).steps);
                        assert(self@ == self@.steps_advanced(
                            i - listeners_count,
                            PipelineComponentState::Running,
                        ));
                    }
                    return Err(message);
                },
            }
            i += 1;
        }
        let ghost started = self@;
        proof {
            lemma_listeners_advanced(
                old(self)@,
                listeners_count as int,
                PipelineComponentState::Running,
            );
            assert(self@.steps =~= started.steps_advanced(
                0,
                PipelineComponentState::Running,
            ).steps);
            assert(started.listeners =~= old(self)@.listeners_advanced(
                passed(errors) as int,
                PipelineComponentState::Running,
            ).listeners) by {
                lemma_passed(errors.skip(listeners_count as int));
            }
        }
        let mut k: usize = 0;
        while k < steps_count
            invariant
                k <= steps_count,
                steps_count == old(self)@.steps.len(),
                steps_count == self.steps@.len(),
                listeners_count == old(self)@.listeners.len(),
                errors == old(self)@.start_errors(answers@),
                passed(errors) == listeners_count + k + passed(
                    errors.skip(listeners_count + k),
                ),
                started == old(self)@.listeners_advanced(
                    passed(errors) as int,
                    PipelineComponentState::Running,
                ),
                old(self)@.advances_to(started),
                self@ == started.steps_advanced(k as int, PipelineComponentState::Running),
            decreases steps_count - k,
        {
            let ghost before = self@;
            let ghost steps_before = self.steps@;
            let ghost remaining = errors.skip(listeners_count + k);
            assert(remaining.first() == errors[listeners_count + k]);
            assert(remaining.drop_first() =~= errors.skip(listeners_count + k + 1));
            assert(self@.steps[k as int] == old(self)@.steps[k as int]);
            assert(old(self)@.component(listeners_count + k) == old(self)@.steps[k as int].component);
            let outcome = if answers.len() >= listeners_count && k < answers.len()
                - listeners_count {
                self.steps[k].module.start(&answers[listeners_count + k])
            } else {
                Err(String::from_str("the module gave no answer"))
            };
            match outcome {
                Ok(_) => {
                    self.steps[k].component.advance(PipelineComponentState::Running);
                    assert(forall|m: int|
                        0 <= m < steps_count && m != k ==> self.steps@[m] == steps_before[m]);
                    assert(self.steps@[k as int]@ == steps_before[k as int]@.advanced(
                        PipelineComponentState::Running,
                    ));
                    assert forall|m: int| 0 <= m < steps_count implies self@.steps[m]
                        == started.steps_advanced(
                        k + 1,
                        PipelineComponentState::Running,
                    ).steps[m] by {
                        if m != k {
                            assert(self@.steps[m] == before.steps[m]);
                        }
                    }
                    assert(self@.steps =~= started.steps_advanced(
                        k + 1,
                        PipelineComponentState::Running,
                    ).steps);
                },
                Err(reason) => {
                    let mut message = String::from_str("Failed to start ");
                    message.append("pipeline step");
                    message.append(" '");
                    message.append(self.steps[k].component.id.as_str());
                    message.append("': ");
                    message.append(reason.as_str());
                    proof {
                        lemma_steps_advanced(started, k as int, PipelineComponentState::Running);
                        lemma_advances_twice(old(self)@, started, self@);
                    }
                    return Err(message);
                },
            }
            k += 1;
        }
        proof {
            lemma_steps_advanced(started, k as int, PipelineComponentState::Running);
            lemma_advances_twice(old(self)@, started, self@);
        }
        Ok(())
    }
}

/// Appends one `set_param` call per pair to `calls`.
fn push_set_params(calls: &mut Vec<ModuleCall>, handle: usize, params: &Vec<(String, String)>)
    ensures
        final(calls).deep_view() == old(calls).deep_view() + set_params(handle, params.deep_view()),
{
    let mut i: usize = 0;
    assert(calls.deep_view() =~= old(calls).deep_view() + set_params(
        handle,
        params.deep_view(),
    ).take(0));
    while i < params.len()
        invariant
            i <= params.len(),
            calls.deep_view() == old(calls).deep_view() + set_params(
                handle,
                params.deep_view(),
            ).take(i as int),
        decreases params.len() - i,
    {
        let ghost before = calls.deep_view();
        let call = ModuleCall::SetParam {
            handle,
            key: params[i].0.clone(),
            value: params[i].1.clone(),
        };
        calls.push(call);
        assert(calls.deep_view() =~= before.push(call@));
        assert(call@ == set_params(handle, params.deep_view())[i as int]);
        assert(calls.deep_view() =~= old(calls).deep_view() + set_params(
            handle,
            params.deep_view(),
        ).take(i + 1));
        i += 1;
    }
    assert(set_params(handle, params.deep_view()).take(i as int) =~= set_params(
        handle,
        params.deep_view(),
    ));
}

/// Appends one `set_param` call per pair to `calls`, with `prefix` before
/// every key.
fn push_prefixed_set_params(
    calls: &mut Vec<ModuleCall>,
    handle: usize,
    prefix: &str,
    params: &Vec<(String, String)>,
)
    ensures
        final(calls).deep_view() == old(calls).deep_view() + set_params(
            handle,
            prefixed(prefix@, params.deep_view()),
        ),
{
    let ghost target = set_params(handle, prefixed(prefix@, params.deep_view()));
    let mut i: usize = 0;
    assert(calls.deep_view() =~= old(calls).deep_view() + target.take(0));
    while i < params.len()
        invariant
            i <= params.len(),
            target == set_params(handle, prefixed(prefix@, params.deep_view())),
            calls.deep_view() == old(calls).deep_view() + target.take(i as int),
        decreases params.len() - i,
    {
        let ghost before = calls.deep_view();
        let mut key = String::from_str(prefix);
        key.append(params[i].0.as_str());
        let call = ModuleCall::SetParam { handle, key, value: params[i].1.clone() };
        calls.push(call);
        assert(calls.deep_view() =~= before.push(call@));
        assert(call@ == target[i as int]);
        assert(calls.deep_view() =~= old(calls).deep_view() + target.take(i + 1));
        i += 1;
    }
    assert(target.take(i as int) =~= target);
}

/// Appends to `data` what the listeners are told about one component.
fn push_component_data(
    data: &mut Vec<(String, String)>,
    section: &str,
    component: &PipelineComponent,
)
    ensures
        final(data).deep_view() == old(data).deep_view() + component_data(section@, component@),
{
    let handle = decimal_string(component.handle as u64);
    let mut handle_key = String::from_str(section);
    handle_key.append(".");
    handle_key.append(handle.as_str());
    handle_key.append(".handle");
    let mut id_key = String::from_str(section);
    id_key.append(".");
    id_key.append(handle.as_str());
    id_key.append(".id");
    let ghost before = data.deep_view();
    let first = (handle_key, handle);
    let second = (id_key, component.id.clone());
    data.push(first);
    data.push(second);
    assert(data.deep_view() =~= before.push(first.deep_view()).push(second.deep_view()));
    assert(data.deep_view() =~= before + component_data(section@, component@));
}

/// Asking the first steps of a pipeline to enter a state moves no
/// component back, and leaves every step in that state that was not beyond
/// it.
pub proof fn lemma_steps_advanced(
    pipeline: PipelineView,
    count: int,
    target: PipelineComponentState,
)
    ensures
        pipeline.advances_to(pipeline.steps_advanced(count, target)),
        forall|i: int|
            0 <= i < pipeline.steps.len() && i < count
                && pipeline.steps[i].component.state.rank() <= target.rank() ==> (
            #[trigger] pipeline.steps_advanced(count, target).steps[i]).component.state == target,
{
}

/// Asking the first listeners of a pipeline to enter a state moves no
/// component back, and leaves every listener in that state that was not
/// beyond it.
pub proof fn lemma_listeners_advanced(
    pipeline: PipelineView,
    count: int,
    target: PipelineComponentState,
)
    ensures
        pipeline.advances_to(pipeline.listeners_advanced(count, target)),
        forall|i: int|
            0 <= i < pipeline.listeners.len() && i < count
                && pipeline.listeners[i].component.state.rank() <= target.rank() ==> (
            #[trigger] pipeline.listeners_advanced(count, target).listeners[i]).component.state
                == target,
{
}

} // verus!
