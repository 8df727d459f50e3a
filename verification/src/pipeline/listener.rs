//! An event listener of the pipeline.

use vstd::prelude::*;
use crate::abi::{ModuleCall, ModuleListenerConfigureArgs, ModuleListenerConfigureFnResult};
use crate::modules::listener::{listener_configure_error, ListenerModule};
use crate::modules::LibInfoView;
use crate::pipeline::pipeline_step::args_or_empty;
use crate::pipeline::{ComponentView, PipelineComponent, PipelineComponentState};
use crate::text::{decimal, decimal_string};

verus! {

/// An event listener for pipeline events
#[derive(PartialEq, Eq, Debug)]
pub struct Listener {
    pub component: PipelineComponent,
    /// The module that does the work of the listener
    pub module: ListenerModule,
}

/// A [`Listener`] with its texts as sequences of characters.
pub struct ListenerView {
    pub component: ComponentView,
    pub module: LibInfoView,
}

impl ListenerView {
    /// The same listener after it was asked to enter `target`.
    pub open spec fn advanced(self, target: PipelineComponentState) -> ListenerView {
        ListenerView { component: self.component.advanced(target), ..self }
    }
}

impl View for Listener {
    type V = ListenerView;

    open spec fn view(&self) -> ListenerView {
        ListenerView { component: self.component@, module: self.module@ }
    }
}

impl DeepView for Listener {
    type V = ListenerView;

    open spec fn deep_view(&self) -> ListenerView {
        self@
    }
}

/// The identifier of the listener with the given handle and module.
pub open spec fn listener_id(handle: usize, module_id: Seq<char>) -> Seq<char> {
    "evt_listener_"@ + decimal(handle as nat) + "_"@ + module_id
}

impl Listener {
    /// Makes a listener of a module. The handle goes into the identifier of
    /// the listener, which is `evt_listener_`, the handle, `_` and the
    /// module's ID.
    pub fn from_module(
        module: ListenerModule,
        handle: usize,
        args: Option<Vec<(String, String)>>,
    ) -> (r: Listener)
        ensures
            r@ == (ListenerView {
                component: ComponentView {
                    args: args_or_empty(args),
                    handle,
                    id: listener_id(handle, module@.id),
                    state: PipelineComponentState::Created,
                },
                module: module@,
            }),
    {
        let mut id = String::from_str("evt_listener_");
        id.append(decimal_string(handle as u64).as_str());
        id.append("_");
        id.append(module.get_info().id.as_str());
        let ghost given = args_or_empty(args);
        let args = match args {
            Some(a) => a,
            None => Vec::new(),
        };
        assert(args.deep_view() =~= given);
        Listener {
            component: PipelineComponent {
                args,
                handle,
                id,
                state: PipelineComponentState::Created,
            },
            module,
        }
    }

    /// Takes the answer of the module to `configure`. Where the module
    /// accepted, the listener is configured; where it refused, the listener
    /// stays as it is and the module's text is the error.
    pub fn configure(
        &mut self,
        args: ModuleListenerConfigureArgs,
        result: &ModuleListenerConfigureFnResult,
    ) -> (r: Result<(), String>)
        ensures
            match listener_configure_error(*result) {
                None => r is Ok && final(self)@ == old(self)@.advanced(
                    PipelineComponentState::Configured,
                ),
                Some(message) => r matches Err(e) && e@ == message && final(self)@ == old(self)@,
            },
    {
        match self.module.configure(result) {
            Ok(_) => {
                self.component.advance(PipelineComponentState::Configured);
                Ok(())
            },
            Err(e) => Err(e),
        }
    }

    /// The call that asks the module to shut the listener down.
    pub fn shutdown(&self) -> (r: ModuleCall)
        ensures
            r == (ModuleCall::Shutdown { handle: self@.component.handle }),
    {
        ModuleCall::Shutdown { handle: self.component.handle }
    }

    pub fn get_id(&self) -> (r: String)
        ensures
            r@ == self@.component.id,
    {
        self.component.id.clone()
    }

    pub fn get_handle(&self) -> (r: usize)
        ensures
            r == self@.component.handle,
    {
        self.component.handle
    }
}

} // verus!
