//! Event listener modules.

use vstd::prelude::*;
use crate::abi::{ModuleListenerConfigureFnResult, StepStartFnResult};
use crate::modules::{start_error, BaseModule, LibInfo, LibInfoView};

verus! {

/// An event listener module.
/// Handles the application events, but does not take part in data processing.
#[derive(PartialEq, Eq, Debug)]
pub struct ListenerModule {
    pub base: BaseModule,
}

impl View for ListenerModule {
    type V = LibInfoView;

    open spec fn view(&self) -> LibInfoView {
        self.base@
    }
}

impl DeepView for ListenerModule {
    type V = LibInfoView;

    open spec fn deep_view(&self) -> LibInfoView {
        self@
    }
}

impl Clone for ListenerModule {
    fn clone(&self) -> (r: Self)
        ensures
            r == *self,
    {
        ListenerModule { base: self.base.clone() }
    }
}

/// The error that stands for a failed `configure` of a listener, or `None`
/// where the module accepted.
pub open spec fn listener_configure_error(result: ModuleListenerConfigureFnResult) -> Option<
    Seq<char>,
> {
    match result {
        ModuleListenerConfigureFnResult::Success => None,
        ModuleListenerConfigureFnResult::ErrorMisc(e) => Some(e@),
    }
}

impl ListenerModule {
    pub fn get_id(&self) -> (r: String)
        ensures
            r@ == self@.id,
    {
        self.base.module_info.id.clone()
    }

    pub fn get_info(&self) -> (r: &LibInfo)
        ensures
            *r == self.base.module_info,
    {
        self.base.get_info()
    }

    /// Turns the answer of the module's `configure` into the host's own
    /// result: the module's text is the error.
    pub fn configure(&self, result: &ModuleListenerConfigureFnResult) -> (r: Result<(), String>)
        ensures
            match listener_configure_error(*result) {
                None => r is Ok,
                Some(message) => r matches Err(e) && e@ == message,
            },
    {
        match result {
            ModuleListenerConfigureFnResult::Success => Ok(()),
            ModuleListenerConfigureFnResult::ErrorMisc(e) => Err(e.clone()),
        }
    }

    /// Turns the answer of the module's `start` into the host's own result.
    pub fn start(&self, result: &StepStartFnResult) -> (r: Result<(), String>)
        ensures
            match start_error(*result) {
                None => r is Ok,
                Some(message) => r matches Err(e) && e@ == message,
            },
    {
        self.base.start(result)
    }
}

} // verus!
