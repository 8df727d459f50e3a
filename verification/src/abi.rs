//! What crosses the boundary between the host and a module, as values that
//! the host owns.
//!
//! A module answers through result codes that may carry a text of its own
//! allocator. The host copies such a text and hands the module's own back before
//! anything else looks at the answer, so the answers here hold `String`s.

use vstd::prelude::*;
use crate::modules::ModuleKind;

verus! {

/// The role of a step, which follows from its position among the steps alone.
#[derive(PartialEq, Eq, Structural, Clone, Copy, Debug)]
pub enum PipelineModuleKind {
    /// The first step: it produces records.
    Source,
    /// A step between the first and the last.
    Transformation,
    /// The last step: it consumes records.
    Destination,
}

/// Arguments of the `configure` entry point of a pipeline module.
#[derive(PartialEq, Eq, Structural, Clone, Copy, Debug)]
pub struct ModulePipelineConfigureArgs {
    pub kind: PipelineModuleKind,
    pub module_handle: usize,
}

/// Arguments of the `configure` entry point of a listener module.
#[derive(PartialEq, Eq, Structural, Clone, Copy, Debug)]
pub struct ModuleListenerConfigureArgs {
    pub module_handle: usize,
}

/// Answer of a pipeline module to `configure`.
#[derive(PartialEq, Eq, Debug)]
pub enum ModulePipelineConfigureFnResult {
    Success,
    /// The module cannot play the role it was given.
    ErrorKindNotSupported,
    /// The module serves one step only and already serves the step with
    /// this handle.
    ErrorMultipleStepsNotSupported(usize),
    ErrorMisc(String),
}

/// Answer of a listener module to `configure`.
#[derive(PartialEq, Eq, Debug)]
pub enum ModuleListenerConfigureFnResult {
    Success,
    ErrorMisc(String),
}

/// Answer of a module to `start`.
#[derive(PartialEq, Eq, Debug)]
pub enum StepStartFnResult {
    Success,
    ErrorMisc(String),
}

/// Answer of a pipeline module to `process_record`. The flag of each variant
/// tells whether the module took the record over: if it did, the module
/// releases the record, if not, the router does.
#[derive(PartialEq, Eq, Debug)]
pub enum ModulePipelineProcessRecordFnResult {
    Success(bool),
    ErrWrongModuleHandle(usize, bool),
    ErrMisc(String, bool),
}

impl ModulePipelineConfigureFnResult {
    /// Whether the module accepted. The host goes on to the next step only
    /// if it did.
    pub fn is_success(&self) -> (r: bool)
        ensures
            r == (self is Success),
    {
        match self {
            ModulePipelineConfigureFnResult::Success => true,
            _ => false,
        }
    }
}

impl ModuleListenerConfigureFnResult {
    /// Whether the module accepted. The host goes on to the next listener
    /// only if it did.
    pub fn is_success(&self) -> (r: bool)
        ensures
            r == (self is Success),
    {
        match self {
            ModuleListenerConfigureFnResult::Success => true,
            _ => false,
        }
    }
}

impl StepStartFnResult {
    /// Whether the module has started. The host goes on to the next
    /// component only if it has.
    pub fn is_success(&self) -> (r: bool)
        ensures
            r == (self is Success),
    {
        match self {
            StepStartFnResult::Success => true,
            _ => false,
        }
    }
}

impl ModulePipelineProcessRecordFnResult {
    /// Whether the module took the record over.
    pub open spec fn consumed(self) -> bool {
        match self {
            ModulePipelineProcessRecordFnResult::Success(c) => c,
            ModulePipelineProcessRecordFnResult::ErrWrongModuleHandle(_, c) => c,
            ModulePipelineProcessRecordFnResult::ErrMisc(_, c) => c,
        }
    }

    /// Whether the module took the record over.
    pub fn is_consumed(&self) -> (r: bool)
        ensures
            r == self.consumed(),
    {
        match self {
            ModulePipelineProcessRecordFnResult::Success(c) => *c,
            ModulePipelineProcessRecordFnResult::ErrWrongModuleHandle(_, c) => *c,
            ModulePipelineProcessRecordFnResult::ErrMisc(_, c) => *c,
        }
    }
}

/// One call that the host makes into a module: `init` on behalf of the
/// whole library, every other call on behalf of the component with the
/// given handle.
#[derive(PartialEq, Eq, Debug)]
pub enum ModuleCall {
    /// `init(callbacks)` of the library with the given kind and ID
    Init { kind: ModuleKind, id: String },
    /// `set_param(handle, key, value)`
    SetParam { handle: usize, key: String, value: String },
    /// `configure(handle, kind)` of a pipeline module
    ConfigureStep(ModulePipelineConfigureArgs),
    /// `configure(handle)` of a listener module
    ConfigureListener(ModuleListenerConfigureArgs),
    /// `start(handle)`
    Start { handle: usize },
    /// `shutdown(handle)`
    Shutdown { handle: usize },
    /// `process_record(handle, record)` on the record in flight
    ProcessRecord { handle: usize },
    /// `free_record(record)` of the module behind the step `producer`, on
    /// the record in flight
    FreeRecord { producer: usize },
    /// `on_record_received(step, record)` of the listener `listener`
    RecordReceived { listener: usize, step: usize },
    /// `on_record_sent(step, record)` of the listener `listener`
    RecordSent { listener: usize, step: usize },
    /// `on_record_error(step, record)` of the listener `listener`
    RecordError { listener: usize, step: usize },
}

/// A [`ModuleCall`] with its texts as sequences of characters.
pub enum ModuleCallView {
    Init { kind: ModuleKind, id: Seq<char> },
    SetParam { handle: usize, key: Seq<char>, value: Seq<char> },
    ConfigureStep(ModulePipelineConfigureArgs),
    ConfigureListener(ModuleListenerConfigureArgs),
    Start { handle: usize },
    Shutdown { handle: usize },
    ProcessRecord { handle: usize },
    FreeRecord { producer: usize },
    RecordReceived { listener: usize, step: usize },
    RecordSent { listener: usize, step: usize },
    RecordError { listener: usize, step: usize },
}

impl View for ModuleCall {
    type V = ModuleCallView;

    open spec fn view(&self) -> ModuleCallView {
        match *self {
            ModuleCall::Init { kind, id } => ModuleCallView::Init { kind, id: id@ },
            ModuleCall::SetParam { handle, key, value } => ModuleCallView::SetParam {
                handle,
                key: key@,
                value: value@,
            },
            ModuleCall::ConfigureStep(args) => ModuleCallView::ConfigureStep(args),
            ModuleCall::ConfigureListener(args) => ModuleCallView::ConfigureListener(args),
            ModuleCall::Start { handle } => ModuleCallView::Start { handle },
            ModuleCall::Shutdown { handle } => ModuleCallView::Shutdown { handle },
            ModuleCall::ProcessRecord { handle } => ModuleCallView::ProcessRecord { handle },
            ModuleCall::FreeRecord { producer } => ModuleCallView::FreeRecord { producer },
            ModuleCall::RecordReceived { listener, step } => ModuleCallView::RecordReceived {
                listener,
                step,
            },
            ModuleCall::RecordSent { listener, step } => ModuleCallView::RecordSent {
                listener,
                step,
            },
            ModuleCall::RecordError { listener, step } => ModuleCallView::RecordError {
                listener,
                step,
            },
        }
    }
}

impl DeepView for ModuleCall {
    type V = ModuleCallView;

    open spec fn deep_view(&self) -> ModuleCallView {
        self@
    }
}

} // verus!
