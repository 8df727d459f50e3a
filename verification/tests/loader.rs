use torustiq::abi::{ModuleCall, ModuleListenerConfigureFnResult, ModulePipelineConfigureArgs, ModulePipelineConfigureFnResult, PipelineModuleKind, StepStartFnResult};
use torustiq::modules::module_loader::{create_base_module, examine_library, load_libraries, load_library, LoadDecision, LoadedLibraries, LoadedLibrary};
use torustiq::modules::{LibInfo, ModuleKind, CURRENT_API_VERSION};

fn info(id: &str, kind: ModuleKind) -> LibInfo {
    LibInfo { api_version: CURRENT_API_VERSION, id: String::from(id), kind, name: format!("The {} module", id) }
}

fn ids(names: &[&str]) -> Vec<String> {
    names.iter().map(|n| String::from(*n)).collect()
}

#[test]
fn library_of_another_api_version_is_skipped() {
    let mut other = info("stdin", ModuleKind::Pipeline);
    other.api_version = CURRENT_API_VERSION + 1;
    assert_eq!(examine_library(&other, &ids(&["stdin"])), LoadDecision::SkipApiVersion);
}

#[test]
fn api_version_is_looked_at_before_the_id() {
    let mut other = info("unused", ModuleKind::Pipeline);
    other.api_version = CURRENT_API_VERSION + 1;
    assert_eq!(examine_library(&other, &ids(&["stdin"])), LoadDecision::SkipApiVersion);
}

#[test]
fn library_that_the_pipeline_does_not_name_is_skipped() {
    assert_eq!(
        examine_library(&info("kafka", ModuleKind::Pipeline), &ids(&["stdin", "stdout"])),
        LoadDecision::SkipNotRequired
    );
}

#[test]
fn required_library_is_loaded() {
    assert_eq!(
        examine_library(&info("stdout", ModuleKind::Pipeline), &ids(&["stdin", "stdout"])),
        LoadDecision::Load
    );
}

#[test]
fn load_library_tags_by_kind() {
    match load_library(info("stats", ModuleKind::Listener)) {
        LoadedLibrary::Listener(module) => assert_eq!(module.get_id(), "stats"),
        LoadedLibrary::Pipeline(_) => panic!("a listener was tagged as a pipeline module"),
    }
    match load_library(info("stdin", ModuleKind::Pipeline)) {
        LoadedLibrary::Pipeline(module) => {
            assert_eq!(module.get_id(), "stdin");
            assert_eq!(module.get_info().name, "The stdin module");
        }
        LoadedLibrary::Listener(_) => panic!("a pipeline module was tagged as a listener"),
    }
}

#[test]
fn base_module_keeps_the_descriptor() {
    let base = create_base_module(info("stdin", ModuleKind::Pipeline));
    assert_eq!(*base.get_info(), info("stdin", ModuleKind::Pipeline));
}

#[test]
fn load_libraries_registers_what_is_required_by_kind() {
    let discovered = vec![
        info("stdin", ModuleKind::Pipeline),
        info("kafka", ModuleKind::Pipeline),
        info("stats", ModuleKind::Listener),
        info("stdout", ModuleKind::Pipeline),
    ];
    let libraries = load_libraries(&discovered, &ids(&["stdin", "stdout", "stats"])).unwrap();
    assert_eq!(libraries.pipeline.len(), 2);
    assert_eq!(libraries.listeners.len(), 1);
    assert_eq!(*libraries.get_pipeline(&String::from("stdin")).unwrap().get_info(), discovered[0]);
    assert_eq!(*libraries.get_pipeline(&String::from("stdout")).unwrap().get_info(), discovered[3]);
    assert_eq!(*libraries.get_listener(&String::from("stats")).unwrap().get_info(), discovered[2]);
    assert!(libraries.get_pipeline(&String::from("kafka")).is_none());
    assert!(libraries.get_pipeline(&String::from("stats")).is_none());
    assert!(libraries.get_listener(&String::from("stdin")).is_none());
}

#[test]
fn load_libraries_lists_every_missing_module() {
    let discovered = vec![info("stdin", ModuleKind::Pipeline)];
    let result = load_libraries(&discovered, &ids(&["stdin", "foo", "stdout"]));
    assert_eq!(result, Err(String::from("Failed to load modules: foo, stdout")));
}

#[test]
fn load_libraries_with_one_missing_module() {
    let result = load_libraries(&Vec::new(), &ids(&["foo"]));
    assert_eq!(result, Err(String::from("Failed to load modules: foo")));
}

#[test]
fn load_libraries_counts_an_incompatible_library_as_missing() {
    let mut old = info("stdin", ModuleKind::Pipeline);
    old.api_version = CURRENT_API_VERSION + 7;
    let result = load_libraries(&vec![old], &ids(&["stdin"]));
    assert_eq!(result, Err(String::from("Failed to load modules: stdin")));
}

#[test]
fn load_libraries_of_nothing_required_loads_nothing() {
    let discovered = vec![info("stdin", ModuleKind::Pipeline), info("stats", ModuleKind::Listener)];
    let libraries = load_libraries(&discovered, &Vec::new()).unwrap();
    assert!(libraries.pipeline.is_empty());
    assert!(libraries.listeners.is_empty());
}

#[test]
fn later_library_replaces_an_earlier_one_with_the_same_id() {
    let mut second = info("stdin", ModuleKind::Pipeline);
    second.name = String::from("Another stdin");
    let discovered = vec![info("stdin", ModuleKind::Pipeline), second];
    let libraries = load_libraries(&discovered, &ids(&["stdin"])).unwrap();
    assert_eq!(libraries.pipeline.len(), 1);
    assert_eq!(libraries.get_pipeline(&String::from("stdin")).unwrap().get_info().name, "Another stdin");
}

#[test]
fn insert_keeps_the_two_registries_apart() {
    let mut libraries = LoadedLibraries::new();
    libraries.insert(load_library(info("both", ModuleKind::Pipeline)));
    libraries.insert(load_library(info("both", ModuleKind::Listener)));
    assert_eq!(libraries.get_pipeline(&String::from("both")).unwrap().get_info().kind, ModuleKind::Pipeline);
    assert_eq!(libraries.get_listener(&String::from("both")).unwrap().get_info().kind, ModuleKind::Listener);
}

#[test]
fn init_goes_through_listeners_before_pipeline_modules() {
    let discovered = vec![
        info("stdin", ModuleKind::Pipeline),
        info("stats", ModuleKind::Listener),
        info("stdout", ModuleKind::Pipeline),
        info("audit", ModuleKind::Listener),
    ];
    let libraries = load_libraries(&discovered, &ids(&["stdin", "stdout", "stats", "audit"])).unwrap();
    let listener = |id: &str| ModuleCall::Init { kind: ModuleKind::Listener, id: String::from(id) };
    let pipeline = |id: &str| ModuleCall::Init { kind: ModuleKind::Pipeline, id: String::from(id) };
    assert_eq!(libraries.init(), vec![listener("stats"), listener("audit"), pipeline("stdin"), pipeline("stdout")]);
    assert!(LoadedLibraries::new().init().is_empty());
}

#[test]
fn pipeline_module_names_the_handle_when_the_kind_is_not_supported() {
    let module = match load_library(info("stdin", ModuleKind::Pipeline)) {
        LoadedLibrary::Pipeline(m) => m,
        LoadedLibrary::Listener(_) => unreachable!(),
    };
    let args = ModulePipelineConfigureArgs { kind: PipelineModuleKind::Destination, module_handle: 12 };
    assert_eq!(
        module.configure(args, &ModulePipelineConfigureFnResult::ErrorKindNotSupported),
        Err(String::from("The module cannot be used in step with handle '12'"))
    );
}

#[test]
fn pipeline_module_names_both_handles_when_it_serves_one_step_only() {
    let module = match load_library(info("stdin", ModuleKind::Pipeline)) {
        LoadedLibrary::Pipeline(m) => m,
        LoadedLibrary::Listener(_) => unreachable!(),
    };
    let args = ModulePipelineConfigureArgs { kind: PipelineModuleKind::Source, module_handle: 3 };
    assert_eq!(
        module.configure(args, &ModulePipelineConfigureFnResult::ErrorMultipleStepsNotSupported(0)),
        Err(String::from(
            "Cannot configure step with handle 3: the module supports only one instance of steps and is already registered in step 0"
        ))
    );
}

#[test]
fn pipeline_module_hands_on_the_text_of_the_module() {
    let module = match load_library(info("stdin", ModuleKind::Pipeline)) {
        LoadedLibrary::Pipeline(m) => m,
        LoadedLibrary::Listener(_) => unreachable!(),
    };
    let args = ModulePipelineConfigureArgs { kind: PipelineModuleKind::Source, module_handle: 0 };
    assert_eq!(module.configure(args, &ModulePipelineConfigureFnResult::Success), Ok(()));
    assert_eq!(
        module.configure(args, &ModulePipelineConfigureFnResult::ErrorMisc(String::from("no such file"))),
        Err(String::from("no such file"))
    );
    assert_eq!(module.start(&StepStartFnResult::Success), Ok(()));
    assert_eq!(module.start(&StepStartFnResult::ErrorMisc(String::from("port in use"))), Err(String::from("port in use")));
}

#[test]
fn listener_module_hands_on_the_text_of_the_module() {
    let module = match load_library(info("stats", ModuleKind::Listener)) {
        LoadedLibrary::Listener(m) => m,
        LoadedLibrary::Pipeline(_) => unreachable!(),
    };
    assert_eq!(module.configure(&ModuleListenerConfigureFnResult::Success), Ok(()));
    assert_eq!(
        module.configure(&ModuleListenerConfigureFnResult::ErrorMisc(String::from("bad address"))),
        Err(String::from("bad address"))
    );
    assert_eq!(module.start(&StepStartFnResult::Success), Ok(()));
    assert_eq!(module.start(&StepStartFnResult::ErrorMisc(String::from("denied"))), Err(String::from("denied")));
}
