//! Loaded modules as the host sees them: a descriptor and, behind it, a
//! table of entry points that only the host process can call.

use vstd::prelude::*;
use crate::abi::StepStartFnResult;

pub mod listener;
pub mod module_loader;
pub mod pipeline;

verus! {

/// The interface version that this host speaks. A library that declares
/// another version is not loaded.
pub const CURRENT_API_VERSION: u32 = 1;

/// Defines the kind of module.
#[derive(PartialEq, Eq, Structural, Clone, Copy, Debug)]
pub enum ModuleKind {
    /// An event listener module. Reacts to application events.
    Listener,
    /// A pipeline module. Extracts, transforms, loads the data.
    Pipeline,
}

/// What a library declares about itself.
#[derive(PartialEq, Eq, Debug)]
pub struct LibInfo {
    /// API version is used to verify the compatibility between host and module.
    pub api_version: u32,
    /// Module ID, unique among all modules. A definition names a module by
    /// this ID in its `handler` field.
    pub id: String,
    pub kind: ModuleKind,
    /// A human-readable name. Unlike the ID, it may hold several words.
    pub name: String,
}

/// A [`LibInfo`] with its texts as sequences of characters.
pub struct LibInfoView {
    pub api_version: u32,
    pub id: Seq<char>,
    pub kind: ModuleKind,
    pub name: Seq<char>,
}

impl View for LibInfo {
    type V = LibInfoView;

    open spec fn view(&self) -> LibInfoView {
        LibInfoView { api_version: self.api_version, id: self.id@, kind: self.kind, name: self.name@ }
    }
}

impl DeepView for LibInfo {
    type V = LibInfoView;

    open spec fn deep_view(&self) -> LibInfoView {
        self@
    }
}

impl Clone for LibInfo {
    fn clone(&self) -> (r: Self)
        ensures
            r == *self,
    {
        LibInfo {
            api_version: self.api_version,
            id: self.id.clone(),
            kind: self.kind,
            name: self.name.clone(),
        }
    }
}

/// What every module has, whatever its kind.
#[derive(PartialEq, Eq, Debug)]
pub struct BaseModule {
    pub module_info: LibInfo,
}

impl View for BaseModule {
    type V = LibInfoView;

    open spec fn view(&self) -> LibInfoView {
        self.module_info@
    }
}

impl Clone for BaseModule {
    fn clone(&self) -> (r: Self)
        ensures
            r == *self,
    {
        BaseModule { module_info: self.module_info.clone() }
    }
}

/// The error that stands for a failed `start`, or `None` where the module
/// has started.
pub open spec fn start_error(result: StepStartFnResult) -> Option<Seq<char>> {
    match result {
        StepStartFnResult::Success => None,
        StepStartFnResult::ErrorMisc(e) => Some(e@),
    }
}

impl BaseModule {
    pub fn get_info(&self) -> (r: &LibInfo)
        ensures
            *r == self.module_info,
    {
        &self.module_info
    }

    /// Turns the answer of the module's `start` into the host's own result:
    /// the module's text is the error.
    pub fn start(&self, result: &StepStartFnResult) -> (r: Result<(), String>)
        ensures
            match start_error(*result) {
                None => r is Ok,
                Some(message) => r matches Err(e) && e@ == message,
            },
    {
        match result {
            StepStartFnResult::Success => Ok(()),
            StepStartFnResult::ErrorMisc(e) => Err(e.clone()),
        }
    }
}

} // verus!
