//! A single step of the pipeline.

use vstd::prelude::*;
use crate::abi::{ModuleCall, ModulePipelineConfigureArgs, ModulePipelineConfigureFnResult};
use crate::modules::pipeline::{configure_error, PipelineModule};
use crate::modules::LibInfoView;
use crate::pipeline::{ComponentView, PipelineComponent, PipelineComponentState};
use crate::text::{decimal, decimal_string};

verus! {

/// A single step in pipeline
#[derive(PartialEq, Eq, Debug)]
pub struct PipelineStep {
    /// Base pipeline component attributes
    pub component: PipelineComponent,
    /// The module that does the work of the step
    pub module: PipelineModule,
}

/// A [`PipelineStep`] with its texts as sequences of characters.
pub struct PipelineStepView {
    pub component: ComponentView,
    pub module: LibInfoView,
}

impl PipelineStepView {
    /// The same step after it was asked to enter `target`.
    pub open spec fn advanced(self, target: PipelineComponentState) -> PipelineStepView {
        PipelineStepView { component: self.component.advanced(target), ..self }
    }
}

impl View for PipelineStep {
    type V = PipelineStepView;

    open spec fn view(&self) -> PipelineStepView {
        PipelineStepView { component: self.component@, module: self.module@ }
    }
}

impl DeepView for PipelineStep {
    type V = PipelineStepView;

    open spec fn deep_view(&self) -> PipelineStepView {
        self@
    }
}

/// The identifier of the step with the given handle and module.
pub open spec fn step_id(handle: usize, module_id: Seq<char>) -> Seq<char> {
    "step_"@ + decimal(handle as nat) + "_"@ + module_id
}

/// The arguments of a definition entry, none where it gives none.
pub open spec fn args_or_empty(args: Option<Vec<(String, String)>>) -> Seq<(Seq<char>, Seq<char>)> {
    match args {
        Some(a) => a.deep_view(),
        None => Seq::empty(),
    }
}

impl PipelineStep {
    /// Makes a step of a module. The handle goes into the identifier of the
    /// step, which is `step_`, the handle, `_` and the module's ID.
    pub fn from_module(
        module: PipelineModule,
        handle: usize,
        args: Option<Vec<(String, String)>>,
    ) -> (r: PipelineStep)
        ensures
            r@ == (PipelineStepView {
                component: ComponentView {
                    args: args_or_empty(args),
                    handle,
                    id: step_id(handle, module@.id),
                    state: PipelineComponentState::Created,
                },
                module: module@,
            }),
    {
        let mut id = String::from_str("step_");
        id.append(decimal_string(handle as u64).as_str());
        id.append("_");
        id.append(module.get_info().id.as_str());
        let ghost given = args_or_empty(args);
        let args = match args {
            Some(a) => a,
            None => Vec::new(),
        };
        assert(args.deep_view() =~= given);
        PipelineStep {
            component: PipelineComponent {
                args,
                handle,
                id,
                state: PipelineComponentState::Created,
            },
            module,
        }
    }

    /// Takes the answer of the module to `configure`. Where the module
    /// accepted, the step is configured; where it refused, the step stays as
    /// it is and the module's refusal is the error.
    pub fn configure(
        &mut self,
        args: ModulePipelineConfigureArgs,
        result: &ModulePipelineConfigureFnResult,
    ) -> (r: Result<(), String>)
        ensures
            match configure_error(args.module_handle, *result) {
                None => r is Ok && final(self)@ == old(self)@.advanced(
                    PipelineComponentState::Configured,
                ),
                Some(message) => r matches Err(e) && e@ == message && final(self)@ == old(self)@,
            },
    {
        match self.module.configure(args, result) {
            Ok(_) => {
                self.component.advance(PipelineComponentState::Configured);
                Ok(())
            },
            Err(e) => Err(e),
        }
    }

    /// The call that asks the module to shut the step down.
    pub fn shutdown(&self) -> (r: ModuleCall)
        ensures
            r == (ModuleCall::Shutdown { handle: self@.component.handle }),
    {
        ModuleCall::Shutdown { handle: self.component.handle }
    }

    pub fn get_id(&self) -> (r: String)
        ensures
            r@ == self@.component.id,
    {
        self.component.id.clone()
    }

    pub fn get_handle(&self) -> (r: usize)
        ensures
            r == self@.component.handle,
    {
        self.component.handle
    }
}

} // verus!
