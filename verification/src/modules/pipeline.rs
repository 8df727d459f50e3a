//! Pipeline step modules.

use vstd::prelude::*;
use crate::abi::{ModulePipelineConfigureArgs, ModulePipelineConfigureFnResult, StepStartFnResult};
use crate::modules::{start_error, BaseModule, LibInfo, LibInfoView};
use crate::text::{decimal, decimal_string};

verus! {

/// A pipeline step module.
/// This kind of module takes part in the data processing:
/// it produces, transforms, or writes the data to destination.
#[derive(PartialEq, Eq, Debug)]
pub struct PipelineModule {
    pub base: BaseModule,
}

impl View for PipelineModule {
    type V = LibInfoView;

    open spec fn view(&self) -> LibInfoView {
        self.base@
    }
}

impl DeepView for PipelineModule {
    type V = LibInfoView;

    open spec fn deep_view(&self) -> LibInfoView {
        self@
    }
}

impl Clone for PipelineModule {
    fn clone(&self) -> (r: Self)
        ensures
            r == *self,
    {
        PipelineModule { base: self.base.clone() }
    }
}

/// The error that stands for a failed `configure` of the step with handle
/// `module_handle`, or `None` where the module accepted.
pub open spec fn configure_error(
    module_handle: usize,
    result: ModulePipelineConfigureFnResult,
) -> Option<Seq<char>> {
    match result {
        ModulePipelineConfigureFnResult::Success => None,
        ModulePipelineConfigureFnResult::ErrorKindNotSupported => Some(
            "The module cannot be used in step with handle '"@ + decimal(module_handle as nat)
                + "'"@,
        ),
        ModulePipelineConfigureFnResult::ErrorMultipleStepsNotSupported(existing) => Some(
            "Cannot configure step with handle "@ + decimal(module_handle as nat)
                + ": the module supports only one instance of steps and is already registered in step "@
                + decimal(existing as nat),
        ),
        ModulePipelineConfigureFnResult::ErrorMisc(e) => Some(e@),
    }
}

impl PipelineModule {
    pub fn get_id(&self) -> (r: String)
        ensures
            r@ == self@.id,
    {
        self.base.module_info.id.clone()
    }

    pub fn get_info(&self) -> (r: &LibInfo)
        ensures
            *r == self.base.module_info,
    {
        self.base.get_info()
    }

    /// Turns the answer of the module's `configure` into the host's own
    /// result, with a message for each way in which the module can refuse.
    pub fn configure(
        &self,
        args: ModulePipelineConfigureArgs,
        result: &ModulePipelineConfigureFnResult,
    ) -> (r: Result<(), String>)
        ensures
            match configure_error(args.module_handle, *result) {
                None => r is Ok,
                Some(message) => r matches Err(e) && e@ == message,
            },
    {
        let module_handle = args.module_handle;
        match result {
            ModulePipelineConfigureFnResult::Success => Ok(()),
            ModulePipelineConfigureFnResult::ErrorKindNotSupported => {
                let mut message = String::from_str("The module cannot be used in step with handle '");
                message.append(decimal_string(module_handle as u64).as_str());
                message.append("'");
                Err(message)
            },
            ModulePipelineConfigureFnResult::ErrorMultipleStepsNotSupported(existing) => {
                let existing = *existing;
                let mut message = String::from_str("Cannot configure step with handle ");
                message.append(decimal_string(module_handle as u64).as_str());
                message.append(
                    ": the module supports only one instance of steps and is already registered in step ",
                );
                message.append(decimal_string(existing as u64).as_str());
                Err(message)
            },
            ModulePipelineConfigureFnResult::ErrorMisc(e) => Err(e.clone()),
        }
    }

    /// Turns the answer of the module's `start` into the host's own result.
    pub fn start(&self, result: &StepStartFnResult) -> (r: Result<(), String>)
        ensures
            match start_error(*result) {
                None => r is Ok,
                Some(message) => r matches Err(e) && e@ == message,
            },
    {
        self.base.start(result)
    }
}

} // verus!
