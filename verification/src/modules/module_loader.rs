//! Which of the libraries found in the module directory are loaded.
//!
//! The host opens every file of the directory and asks it for its
//! descriptor. What happens to each library from there is decided here: a
//! library of another interface version is skipped, one that the pipeline
//! does not name is skipped, every other one is bound and registered under
//! its ID. When the directory is exhausted, every ID that the pipeline names
//! must have been registered.

use vstd::prelude::*;
use crate::abi::{ModuleCall, ModuleCallView};
use crate::modules::listener::ListenerModule;
use crate::modules::pipeline::PipelineModule;
use crate::modules::{BaseModule, LibInfo, LibInfoView, ModuleKind, CURRENT_API_VERSION};
use crate::sequences::{is_first_index, lemma_filter_contains, lemma_first_index_exists};
use crate::text::{contains_string, join, join_strings};

verus! {

/// A bound library, tagged by its kind.
#[derive(PartialEq, Eq, Debug)]
pub enum LoadedLibrary {
    Listener(ListenerModule),
    Pipeline(PipelineModule),
}

impl View for LoadedLibrary {
    type V = LibInfoView;

    open spec fn view(&self) -> LibInfoView {
        match self {
            LoadedLibrary::Listener(l) => l@,
            LoadedLibrary::Pipeline(p) => p@,
        }
    }
}

/// What the host does with a library once it has seen its descriptor.
#[derive(PartialEq, Eq, Structural, Clone, Copy, Debug)]
pub enum LoadDecision {
    /// The library speaks another interface version: it is left alone.
    SkipApiVersion,
    /// The pipeline does not name the library: it is left alone.
    SkipNotRequired,
    /// The library is bound and registered.
    Load,
}

/// The decision on a library with descriptor `info`, where the pipeline
/// names the modules `required`. The interface version is looked at first.
pub open spec fn load_decision(info: LibInfoView, required: Seq<Seq<char>>) -> LoadDecision {
    if info.api_version != CURRENT_API_VERSION {
        LoadDecision::SkipApiVersion
    } else if !required.contains(info.id) {
        LoadDecision::SkipNotRequired
    } else {
        LoadDecision::Load
    }
}

/// The IDs of `modules`, in their order.
pub open spec fn module_ids(modules: Seq<LibInfoView>) -> Seq<Seq<char>> {
    modules.map_values(|m: LibInfoView| m.id)
}

/// One `init` call per module, in the order of the modules.
pub open spec fn init_calls(modules: Seq<LibInfoView>) -> Seq<ModuleCallView> {
    Seq::new(
        modules.len(),
        |i: int| ModuleCallView::Init { kind: modules[i].kind, id: modules[i].id },
    )
}

/// A list of modules read as a registry: an ID stands for the first module
/// of the list that carries it.
pub open spec fn registry_of(modules: Seq<LibInfoView>) -> Map<Seq<char>, LibInfoView> {
    Map::new(
        |id: Seq<char>| module_ids(modules).contains(id),
        |id: Seq<char>| modules[choose|i: int| is_first_index(module_ids(modules), id, i)],
    )
}

/// The libraries of a directory scan that are loaded: in the order of the
/// scan, those on which the decision is [`LoadDecision::Load`].
pub open spec fn admitted(discovered: Seq<LibInfoView>, required: Seq<Seq<char>>) -> Seq<
    LibInfoView,
> {
    discovered.filter(is_loaded(required))
}

/// The test that [`admitted`] filters by.
pub open spec fn is_loaded(required: Seq<Seq<char>>) -> spec_fn(LibInfoView) -> bool {
    |info: LibInfoView| load_decision(info, required) == LoadDecision::Load
}

/// The registry of one kind after the libraries `loaded` have been
/// registered in order: a later library takes the place of an earlier one
/// with the same ID.
pub open spec fn registered(loaded: Seq<LibInfoView>, kind: ModuleKind) -> Map<
    Seq<char>,
    LibInfoView,
>
    decreases loaded.len(),
{
    if loaded.len() == 0 {
        Map::empty()
    } else if loaded.last().kind == kind {
        registered(loaded.drop_last(), kind).insert(loaded.last().id, loaded.last())
    } else {
        registered(loaded.drop_last(), kind)
    }
}

/// The required IDs that are not among the loaded ones, in the order and as
/// often as they are required.
pub open spec fn missing_modules(required: Seq<Seq<char>>, loaded_ids: Seq<Seq<char>>) -> Seq<
    Seq<char>,
> {
    required.filter(is_missing(loaded_ids))
}

/// The test that [`missing_modules`] filters by.
pub open spec fn is_missing(loaded_ids: Seq<Seq<char>>) -> spec_fn(Seq<char>) -> bool {
    |id: Seq<char>| !loaded_ids.contains(id)
}

/// The message for required modules that no library provides.
pub open spec fn missing_modules_message(missing: Seq<Seq<char>>) -> Seq<char> {
    "Failed to load modules: "@ + join(missing, ", "@)
}

/// The two registries of loaded modules, each keyed by module ID.
#[derive(PartialEq, Eq, Debug)]
pub struct LoadedLibraries {
    pub listeners: Vec<ListenerModule>,
    pub pipeline: Vec<PipelineModule>,
}

/// [`LoadedLibraries`] as two maps from module ID to descriptor.
pub struct LoadedLibrariesView {
    pub listeners: Map<Seq<char>, LibInfoView>,
    pub pipeline: Map<Seq<char>, LibInfoView>,
}

impl View for LoadedLibraries {
    type V = LoadedLibrariesView;

    open spec fn view(&self) -> LoadedLibrariesView {
        LoadedLibrariesView {
            listeners: registry_of(self.listeners.deep_view()),
            pipeline: registry_of(self.pipeline.deep_view()),
        }
    }
}

/// The module that a registry holds under an ID is the first of its list
/// with that ID.
pub proof fn lemma_registry_lookup(modules: Seq<LibInfoView>, id: Seq<char>, i: int)
    requires
        is_first_index(module_ids(modules), id, i),
    ensures
        registry_of(modules).contains_key(id),
        registry_of(modules)[id] == modules[i],
{
    let ids = module_ids(modules);
    assert(ids.contains(id));
    let k = choose|k: int| is_first_index(ids, id, k);
    assert(k == i) by {
        if k < i {
            assert(ids[k] != id);
        } else if i < k {
            assert(ids[i] != id);
        }
    }
}

/// Replacing the first module with a given ID, or appending a module with a
/// new ID, is an insertion into the registry.
pub proof fn lemma_registry_insert(modules: Seq<LibInfoView>, info: LibInfoView)
    ensures
        forall|i: int|
            is_first_index(module_ids(modules), info.id, i) ==> #[trigger] registry_of(
                modules.update(i, info),
            ) == registry_of(modules).insert(info.id, info),
        !module_ids(modules).contains(info.id) ==> registry_of(modules.push(info)) == registry_of(
            modules,
        ).insert(info.id, info),
{
    let ids = module_ids(modules);
    let target = registry_of(modules).insert(info.id, info);
    assert forall|i: int| is_first_index(ids, info.id, i) implies #[trigger] registry_of(
        modules.update(i, info),
    ) == target by {
        let changed = modules.update(i, info);
        assert(module_ids(changed) =~= ids);
        assert forall|id: Seq<char>| target.contains_key(id) implies #[trigger] registry_of(
            changed,
        )[id] == target[id] by {
            lemma_first_index_exists(ids, id);
            let k = choose|k: int| is_first_index(ids, id, k);
            lemma_registry_lookup(changed, id, k);
            if id == info.id {
                assert(k == i) by {
                    if k < i {
                        assert(ids[k] != id);
                    } else if i < k {
                        assert(ids[i] != id);
                    }
                }
            } else {
                lemma_registry_lookup(modules, id, k);
            }
        }
        assert(registry_of(changed) =~= target);
    }
    if !ids.contains(info.id) {
        let grown = modules.push(info);
        let grown_ids = module_ids(grown);
        assert(grown_ids =~= ids.push(info.id));
        assert forall|id: Seq<char>| #[trigger]
            registry_of(grown).dom().contains(id) == target.dom().contains(id) by {
            if grown_ids.contains(id) {
                let k = choose|k: int| 0 <= k < grown_ids.len() && grown_ids[k] == id;
                if k < ids.len() {
                    assert(ids[k] == id);
                }
            }
            if ids.contains(id) {
                let k = choose|k: int| 0 <= k < ids.len() && ids[k] == id;
                assert(grown_ids[k] == id);
            }
            if id == info.id {
                assert(grown_ids[modules.len() as int] == id);
            }
        }
        assert forall|id: Seq<char>| target.dom().contains(id) implies #[trigger] registry_of(
            grown,
        )[id] == target[id] by {
            if id == info.id {
                assert(is_first_index(grown_ids, id, modules.len() as int));
                lemma_registry_lookup(grown, id, modules.len() as int);
            } else {
                lemma_first_index_exists(ids, id);
                let k = choose|k: int| is_first_index(ids, id, k);
                assert(is_first_index(grown_ids, id, k));
                lemma_registry_lookup(grown, id, k);
                lemma_registry_lookup(modules, id, k);
            }
        }
        assert(registry_of(grown).dom() =~= target.dom());
        assert(registry_of(grown) =~= target);
    }
}

impl Default for LoadedLibraries {
    fn default() -> (r: LoadedLibraries)
        ensures
            r@.listeners == Map::<Seq<char>, LibInfoView>::empty(),
            r@.pipeline == Map::<Seq<char>, LibInfoView>::empty(),
    {
        LoadedLibraries::new()
    }
}

/// The position of the first listener module with the given ID.
fn find_listener(modules: &Vec<ListenerModule>, id: &String) -> (r: Option<usize>)
    ensures
        match r {
            Some(i) => is_first_index(module_ids(modules.deep_view()), id@, i as int),
            None => !module_ids(modules.deep_view()).contains(id@),
        },
{
    let mut i: usize = 0;
    while i < modules.len()
        invariant
            i <= modules.len(),
            forall|j: int| 0 <= j < i ==> module_ids(modules.deep_view())[j] != id@,
        decreases modules.len() - i,
    {
        if modules[i].base.module_info.id == *id {
            return Some(i);
        }
        i += 1;
    }
    None
}

/// The position of the first pipeline module with the given ID.
fn find_pipeline(modules: &Vec<PipelineModule>, id: &String) -> (r: Option<usize>)
    ensures
        match r {
            Some(i) => is_first_index(module_ids(modules.deep_view()), id@, i as int),
            None => !module_ids(modules.deep_view()).contains(id@),
        },
{
    let mut i: usize = 0;
    while i < modules.len()
        invariant
            i <= modules.len(),
            forall|j: int| 0 <= j < i ==> module_ids(modules.deep_view())[j] != id@,
        decreases modules.len() - i,
    {
        if modules[i].base.module_info.id == *id {
            return Some(i);
        }
        i += 1;
    }
    None
}

impl LoadedLibraries {
    /// Two empty registries.
    pub fn new() -> (r: LoadedLibraries)
        ensures
            r@.listeners == Map::<Seq<char>, LibInfoView>::empty(),
            r@.pipeline == Map::<Seq<char>, LibInfoView>::empty(),
    {
        let r = LoadedLibraries { listeners: Vec::new(), pipeline: Vec::new() };
        assert(r@.listeners =~= Map::<Seq<char>, LibInfoView>::empty());
        assert(r@.pipeline =~= Map::<Seq<char>, LibInfoView>::empty());
        r
    }

    /// The listener module registered under `id`.
    pub fn get_listener(&self, id: &String) -> (r: Option<&ListenerModule>)
        ensures
            match r {
                Some(module) => self@.listeners.contains_key(id@) && module@ == self@.listeners[id@],
                None => !self@.listeners.contains_key(id@),
            },
    {
        match find_listener(&self.listeners, id) {
            Some(i) => {
                proof {
                    lemma_registry_lookup(self.listeners.deep_view(), id@, i as int);
                }
                Some(&self.listeners[i])
            },
            None => None,
        }
    }

    /// The pipeline module registered under `id`.
    pub fn get_pipeline(&self, id: &String) -> (r: Option<&PipelineModule>)
        ensures
            match r {
                Some(module) => self@.pipeline.contains_key(id@) && module@ == self@.pipeline[id@],
                None => !self@.pipeline.contains_key(id@),
            },
    {
        match find_pipeline(&self.pipeline, id) {
            Some(i) => {
                proof {
                    lemma_registry_lookup(self.pipeline.deep_view(), id@, i as int);
                }
                Some(&self.pipeline[i])
            },
            None => None,
        }
    }

    /// Registers a bound library under its ID, in the registry of its kind.
    /// A library registered earlier under the same ID gives way.
    pub fn insert(&mut self, library: LoadedLibrary)
        ensures
            match library {
                LoadedLibrary::Listener(module) => {
                    &&& final(self)@.listeners == old(self)@.listeners.insert(module@.id, module@)
                    &&& final(self)@.pipeline == old(self)@.pipeline
                },
                LoadedLibrary::Pipeline(module) => {
                    &&& final(self)@.pipeline == old(self)@.pipeline.insert(module@.id, module@)
                    &&& final(self)@.listeners == old(self)@.listeners
                },
            },
    {
        match library {
            LoadedLibrary::Listener(module) => {
                proof {
                    lemma_registry_insert(self.listeners.deep_view(), module@);
                }
                match find_listener(&self.listeners, &module.base.module_info.id) {
                    Some(i) => {
                        self.listeners[i] = module;
                        assert(self.listeners.deep_view() =~= old(self).listeners.deep_view().update(
                            i as int,
                            module@,
                        ));
                    },
                    None => {
                        self.listeners.push(module);
                        assert(self.listeners.deep_view() =~= old(self).listeners.deep_view().push(
                            module@,
                        ));
                    },
                }
            },
            LoadedLibrary::Pipeline(module) => {
                proof {
                    lemma_registry_insert(self.pipeline.deep_view(), module@);
                }
                match find_pipeline(&self.pipeline, &module.base.module_info.id) {
                    Some(i) => {
                        self.pipeline[i] = module;
                        assert(self.pipeline.deep_view() =~= old(self).pipeline.deep_view().update(
                            i as int,
                            module@,
                        ));
                    },
                    None => {
                        self.pipeline.push(module);
                        assert(self.pipeline.deep_view() =~= old(self).pipeline.deep_view().push(
                            module@,
                        ));
                    },
                }
            },
        }
    }

    /// The `init` calls that the host makes before anything else, in order:
    /// one per listener module, then one per pipeline module.
    pub fn init(&self) -> (r: Vec<ModuleCall>)
        ensures
            r.deep_view() == init_calls(self.listeners.deep_view()) + init_calls(
                self.pipeline.deep_view(),
            ),
    {
        let ghost listener_calls = init_calls(self.listeners.deep_view());
        let ghost pipeline_calls = init_calls(self.pipeline.deep_view());
        let mut calls: Vec<ModuleCall> = Vec::new();
        assert(calls.deep_view() =~= listener_calls.take(0));
        let mut i: usize = 0;
        while i < self.listeners.len()
            invariant
                i <= self.listeners.len(),
                listener_calls == init_calls(self.listeners.deep_view()),
                calls.deep_view() == listener_calls.take(i as int),
            decreases self.listeners.len() - i,
        {
            let ghost before = calls.deep_view();
            let call = ModuleCall::Init {
                kind: self.listeners[i].base.module_info.kind,
                id: self.listeners[i].get_id(),
            };
            calls.push(call);
            assert(calls.deep_view() =~= before.push(call@));
            assert(call@ == listener_calls[i as int]);
            assert(calls.deep_view() =~= listener_calls.take(i + 1));
            i += 1;
        }
        assert(listener_calls.take(i as int) =~= listener_calls);
        assert(calls.deep_view() =~= listener_calls + pipeline_calls.take(0));
        let mut k: usize = 0;
        while k < self.pipeline.len()
            invariant
                k <= self.pipeline.len(),
                pipeline_calls == init_calls(self.pipeline.deep_view()),
                calls.deep_view() == listener_calls + pipeline_calls.take(k as int),
            decreases self.pipeline.len() - k,
        {
            let ghost before = calls.deep_view();
            let call = ModuleCall::Init {
                kind: self.pipeline[k].base.module_info.kind,
                id: self.pipeline[k].get_id(),
            };
            calls.push(call);
            assert(calls.deep_view() =~= before.push(call@));
            assert(call@ == pipeline_calls[k as int]);
            assert(calls.deep_view() =~= listener_calls + pipeline_calls.take(k + 1));
            k += 1;
        }
        assert(pipeline_calls.take(k as int) =~= pipeline_calls);
        calls
    }
}

/// Decides what happens to a library with descriptor `info`.
pub fn examine_library(info: &LibInfo, required_module_ids: &Vec<String>) -> (r: LoadDecision)
    ensures
        r == load_decision(info@, required_module_ids.deep_view()),
{
    if info.api_version != CURRENT_API_VERSION {
        LoadDecision::SkipApiVersion
    } else if !contains_string(required_module_ids, &info.id) {
        LoadDecision::SkipNotRequired
    } else {
        LoadDecision::Load
    }
}

/// The part of a bound library that every kind has.
pub fn create_base_module(module_info: LibInfo) -> (r: BaseModule)
    ensures
        r.module_info == module_info,
{
    BaseModule { module_info }
}

/// Tags a bound library by the kind that its descriptor declares.
pub fn load_library(module_info: LibInfo) -> (r: LoadedLibrary)
    ensures
        r@ == module_info@,
        r is Pipeline <==> module_info.kind == ModuleKind::Pipeline,
        r is Listener <==> module_info.kind == ModuleKind::Listener,
{
    match module_info.kind {
        ModuleKind::Pipeline => LoadedLibrary::Pipeline(
            PipelineModule { base: create_base_module(module_info) },
        ),
        ModuleKind::Listener => LoadedLibrary::Listener(
            ListenerModule { base: create_base_module(module_info) },
        ),
    }
}

/// Runs a whole directory scan: `discovered` holds the descriptors of the
/// libraries in the order in which the scan met them. Every library on
/// which the decision is to load is registered. The scan fails when it
/// leaves a required module without a library; the error then lists every
/// such module.
pub fn load_libraries(discovered: &Vec<LibInfo>, required_module_ids: &Vec<String>) -> (r: Result<
    LoadedLibraries,
    String,
>)
    ensures
        ({
            let loaded = admitted(discovered.deep_view(), required_module_ids.deep_view());
            let missing = missing_modules(required_module_ids.deep_view(), module_ids(loaded));
            if missing.len() > 0 {
                r matches Err(message) && message@ == missing_modules_message(missing)
            } else {
                r matches Ok(libraries) && libraries@.listeners == registered(
                    loaded,
                    ModuleKind::Listener,
                ) && libraries@.pipeline == registered(loaded, ModuleKind::Pipeline)
            }
        }),
{
    let ghost required = required_module_ids.deep_view();
    let mut loaded_libs = LoadedLibraries::new();
    let mut loaded_module_ids: Vec<String> = Vec::new();
    let mut i: usize = 0;
    while i < discovered.len()
        invariant
            i <= discovered.len(),
            required == required_module_ids.deep_view(),
            loaded_module_ids.deep_view() == module_ids(
                admitted(discovered.deep_view().take(i as int), required),
            ),
            loaded_libs@.listeners == registered(
                admitted(discovered.deep_view().take(i as int), required),
                ModuleKind::Listener,
            ),
            loaded_libs@.pipeline == registered(
                admitted(discovered.deep_view().take(i as int), required),
                ModuleKind::Pipeline,
            ),
        decreases discovered.len() - i,
    {
        let ghost before = admitted(discovered.deep_view().take(i as int), required);
        let ghost after = admitted(discovered.deep_view().take(i + 1), required);
        proof {
            discovered.deep_view().lemma_take_succ_push(i as int);
            discovered.deep_view().take(i as int).lemma_filter_push(
                discovered[i as int]@,
                is_loaded(required),
            );
        }
        let module_info = &discovered[i];
        match examine_library(module_info, required_module_ids) {
            LoadDecision::Load => {
                assert(after == before.push(module_info@));
                assert(after.drop_last() =~= before);
                loaded_libs.insert(load_library(module_info.clone()));
                let ghost ids_before = loaded_module_ids.deep_view();
                loaded_module_ids.push(module_info.id.clone());
                assert(loaded_module_ids.deep_view() =~= ids_before.push(module_info@.id));
                assert(module_ids(after) =~= module_ids(before).push(module_info@.id));
            },
            _ => {
                assert(after == before);
            },
        }
        i += 1;
    }
    proof {
        discovered.deep_view().lemma_take_len();
    }
    let ghost loaded = admitted(discovered.deep_view(), required);

    let mut missing_module_ids: Vec<String> = Vec::new();
    let mut k: usize = 0;
    while k < required_module_ids.len()
        invariant
            k <= required_module_ids.len(),
            required == required_module_ids.deep_view(),
            loaded_module_ids.deep_view() == module_ids(loaded),
            missing_module_ids.deep_view() == missing_modules(
                required.take(k as int),
                module_ids(loaded),
            ),
        decreases required_module_ids.len() - k,
    {
        proof {
            required.lemma_take_succ_push(k as int);
            required.take(k as int).lemma_filter_push(required[k as int], is_missing(module_ids(loaded)));
        }
        if !contains_string(&loaded_module_ids, &required_module_ids[k]) {
            let ghost missing_before = missing_module_ids.deep_view();
            missing_module_ids.push(required_module_ids[k].clone());
            assert(missing_module_ids.deep_view() =~= missing_before.push(required[k as int]));
            assert(missing_module_ids.deep_view() =~= missing_modules(
                required.take(k + 1),
                module_ids(loaded),
            ));
        }
        k += 1;
    }
    proof {
        required.lemma_take_len();
    }
    if missing_module_ids.len() > 0 {
        let mut message = String::from_str("Failed to load modules: ");
        message.append(join_strings(&missing_module_ids, ", ").as_str());
        return Err(message);
    }
    Ok(loaded_libs)
}

/// A library of the scan is loaded exactly if it speaks the host's
/// interface version and the pipeline names it.
pub proof fn lemma_admitted(
    discovered: Seq<LibInfoView>,
    required: Seq<Seq<char>>,
    info: LibInfoView,
)
    ensures
        admitted(discovered, required).contains(info) <==> discovered.contains(info)
            && info.api_version == CURRENT_API_VERSION && required.contains(info.id),
{
    lemma_filter_contains(discovered, is_loaded(required), info);
}

/// The registry of a kind knows exactly the IDs of the loaded libraries of
/// that kind.
pub proof fn lemma_registered_ids(loaded: Seq<LibInfoView>, kind: ModuleKind, id: Seq<char>)
    ensures
        registered(loaded, kind).contains_key(id) <==> exists|k: int|
            0 <= k < loaded.len() && (#[trigger] loaded[k]).id == id && loaded[k].kind == kind,
    decreases loaded.len(),
{
    if loaded.len() > 0 {
        let init = loaded.drop_last();
        let last = loaded.last();
        lemma_registered_ids(init, kind, id);
        if registered(loaded, kind).contains_key(id) {
            if last.kind == kind && last.id == id {
                assert(loaded[loaded.len() - 1].id == id);
            } else {
                let k = choose|k: int|
                    0 <= k < init.len() && (#[trigger] init[k]).id == id && init[k].kind == kind;
                assert(loaded[k].id == id && loaded[k].kind == kind);
            }
        }
        if exists|k: int|
            0 <= k < loaded.len() && (#[trigger] loaded[k]).id == id && loaded[k].kind == kind {
            let k = choose|k: int|
                0 <= k < loaded.len() && (#[trigger] loaded[k]).id == id && loaded[k].kind == kind;
            if k < init.len() {
                assert(init[k].id == id && init[k].kind == kind);
            }
        }
    }
}

/// The registry of a kind holds, under an ID, the library of that kind and
/// ID that was loaded last.
pub proof fn lemma_registered_last(loaded: Seq<LibInfoView>, kind: ModuleKind, k: int)
    requires
        0 <= k < loaded.len(),
        loaded[k].kind == kind,
        forall|later: int|
            k < later < loaded.len() ==> !((#[trigger] loaded[later]).id == loaded[k].id
                && loaded[later].kind == kind),
    ensures
        registered(loaded, kind).contains_key(loaded[k].id),
        registered(loaded, kind)[loaded[k].id] == loaded[k],
    decreases loaded.len(),
{
    let init = loaded.drop_last();
    if k < init.len() {
        assert(init[k] == loaded[k]);
        assert(!(loaded[loaded.len() - 1].id == loaded[k].id && loaded[loaded.len() - 1].kind
            == kind));
        assert forall|later: int| k < later < init.len() implies !((#[trigger] init[later]).id
            == init[k].id && init[later].kind == kind) by {
            assert(init[later] == loaded[later]);
        }
        lemma_registered_last(init, kind, k);
    }
}

/// Nothing is missing exactly if every required ID is among the loaded
/// ones; what is missing are the required IDs that are not.
pub proof fn lemma_missing_modules(required: Seq<Seq<char>>, loaded_ids: Seq<Seq<char>>)
    ensures
        forall|id: Seq<char>|
            missing_modules(required, loaded_ids).contains(id) <==> required.contains(id)
                && !loaded_ids.contains(id),
        missing_modules(required, loaded_ids).len() == 0 <==> forall|i: int|
            0 <= i < required.len() ==> loaded_ids.contains(#[trigger] required[i]),
{
    let missing = missing_modules(required, loaded_ids);
    assert forall|id: Seq<char>| missing.contains(id) <==> required.contains(id)
        && !loaded_ids.contains(id) by {
        lemma_filter_contains(required, is_missing(loaded_ids), id);
    }
    if missing.len() == 0 {
        assert forall|i: int| 0 <= i < required.len() implies loaded_ids.contains(
            #[trigger] required[i],
        ) by {
            assert(required.contains(required[i]));
            if !loaded_ids.contains(required[i]) {
                assert(missing.contains(required[i]));
                let k = choose|k: int| 0 <= k < missing.len() && missing[k] == required[i];
            }
        }
    }
    if missing.len() > 0 {
        assert(missing.contains(missing[0]));
        let i = choose|i: int| 0 <= i < required.len() && required[i] == missing[0];
        assert(!loaded_ids.contains(required[i]));
    }
}

/// Whether the scan has met a library with the given ID that speaks the
/// host's interface version.
pub open spec fn has_library(discovered: Seq<LibInfoView>, id: Seq<char>) -> bool {
    exists|k: int|
        0 <= k < discovered.len() && (#[trigger] discovered[k]).id == id
            && discovered[k].api_version == CURRENT_API_VERSION
}

/// A scan succeeds exactly if it meets, for every module that the pipeline
/// names, a library with that ID that speaks the host's interface version.
pub proof fn lemma_scan_succeeds(discovered: Seq<LibInfoView>, required: Seq<Seq<char>>)
    ensures
        missing_modules(required, module_ids(admitted(discovered, required))).len() == 0
            <==> forall|i: int|
            0 <= i < required.len() ==> has_library(discovered, #[trigger] required[i]),
{
    let loaded = admitted(discovered, required);
    let loaded_ids = module_ids(loaded);
    lemma_missing_modules(required, loaded_ids);
    assert forall|i: int| 0 <= i < required.len() implies (loaded_ids.contains(
        #[trigger] required[i],
    ) <==> has_library(discovered, required[i])) by {
        if loaded_ids.contains(required[i]) {
            let j = choose|j: int| 0 <= j < loaded_ids.len() && loaded_ids[j] == required[i];
            assert(loaded[j].id == required[i]);
            assert(loaded.contains(loaded[j]));
            lemma_admitted(discovered, required, loaded[j]);
            let k = choose|k: int| 0 <= k < discovered.len() && discovered[k] == loaded[j];
            assert(discovered[k].id == required[i]);
        }
        if has_library(discovered, required[i]) {
            let k = choose|k: int|
                0 <= k < discovered.len() && (#[trigger] discovered[k]).id == required[i]
                    && discovered[k].api_version == CURRENT_API_VERSION;
            assert(discovered.contains(discovered[k]));
            assert(required.contains(required[i]));
            lemma_admitted(discovered, required, discovered[k]);
            assert(loaded.contains(discovered[k]));
            let j = choose|j: int| 0 <= j < loaded.len() && loaded[j] == discovered[k];
            assert(loaded_ids[j] == required[i]);
        }
    }
}

/// After a scan that succeeded, every module that the pipeline names is
/// registered, as a listener or as a pipeline module.
pub proof fn lemma_required_are_registered(
    discovered: Seq<LibInfoView>,
    required: Seq<Seq<char>>,
    id: Seq<char>,
)
    requires
        missing_modules(required, module_ids(admitted(discovered, required))).len() == 0,
        required.contains(id),
    ensures
        registered(admitted(discovered, required), ModuleKind::Listener).contains_key(id)
            || registered(admitted(discovered, required), ModuleKind::Pipeline).contains_key(id),
{
    let loaded = admitted(discovered, required);
    let loaded_ids = module_ids(loaded);
    lemma_missing_modules(required, loaded_ids);
    let i = choose|i: int| 0 <= i < required.len() && required[i] == id;
    assert(loaded_ids.contains(required[i]));
    let j = choose|j: int| 0 <= j < loaded_ids.len() && loaded_ids[j] == id;
    assert(loaded[j].id == id);
    lemma_registered_ids(loaded, ModuleKind::Listener, id);
    lemma_registered_ids(loaded, ModuleKind::Pipeline, id);
}

} // verus!
