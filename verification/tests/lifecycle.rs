use torustiq::abi::{
    ModuleCall, ModuleListenerConfigureArgs, ModuleListenerConfigureFnResult, ModulePipelineConfigureArgs,
    ModulePipelineConfigureFnResult, PipelineModuleKind, StepStartFnResult,
};
use torustiq::config::{ModuleDefinition, PipelineDefinition};
use torustiq::modules::module_loader::load_libraries;
use torustiq::modules::{LibInfo, ModuleKind, CURRENT_API_VERSION};
use torustiq::pipeline::pipeline::Pipeline;
use torustiq::pipeline::{PipelineComponent, PipelineComponentState};
use torustiq::xthread::SystemMessage;

fn info(id: &str, kind: ModuleKind) -> LibInfo {
    LibInfo { api_version: CURRENT_API_VERSION, id: String::from(id), kind, name: String::from(id) }
}

fn pair(key: &str, value: &str) -> (String, String) {
    (String::from(key), String::from(value))
}

fn entry(handler: &str, args: Option<Vec<(String, String)>>) -> ModuleDefinition {
    ModuleDefinition { name: String::from(handler), handler: String::from(handler), args }
}

/// Three steps and two listeners, freshly assembled.
fn pipeline() -> Pipeline {
    let discovered = vec![
        info("stdin", ModuleKind::Pipeline),
        info("copy", ModuleKind::Pipeline),
        info("stdout", ModuleKind::Pipeline),
        info("stats", ModuleKind::Listener),
        info("audit", ModuleKind::Listener),
    ];
    let required: Vec<String> = discovered.iter().map(|d| d.id.clone()).collect();
    let libraries = load_libraries(&discovered, &required).unwrap();
    let definition = PipelineDefinition {
        description: None,
        steps: vec![
            entry("stdin", Some(vec![pair("format", "json"), pair("buffer", "16")])),
            entry("copy", None),
            entry("stdout", Some(vec![pair("flush", "yes")])),
        ],
        listeners: Some(vec![entry("stats", Some(vec![pair("port", "9000")])), entry("audit", None)]),
    };
    Pipeline::from_definition(&definition, &libraries).unwrap()
}

fn step_states(pipeline: &Pipeline) -> Vec<PipelineComponentState> {
    pipeline.steps.iter().map(|s| s.component.state).collect()
}

fn listener_states(pipeline: &Pipeline) -> Vec<PipelineComponentState> {
    pipeline.listeners.iter().map(|l| l.component.state).collect()
}

fn set_param(handle: usize, key: &str, value: &str) -> ModuleCall {
    ModuleCall::SetParam { handle, key: String::from(key), value: String::from(value) }
}

const CREATED: PipelineComponentState = PipelineComponentState::Created;
const CONFIGURED: PipelineComponentState = PipelineComponentState::Configured;
const RUNNING: PipelineComponentState = PipelineComponentState::Running;
const TERMINATED: PipelineComponentState = PipelineComponentState::Terminated;

#[test]
fn component_terminates_from_any_state() {
    for state in [CREATED, CONFIGURED, RUNNING, TERMINATED] {
        let mut component = PipelineComponent { args: Vec::new(), handle: 4, id: String::from("c"), state };
        assert_eq!(component.is_terminated(), state == TERMINATED);
        component.set_state_terminated();
        assert!(component.is_terminated());
        assert_eq!(component.state, TERMINATED);
        assert_eq!(component.handle, 4);
        assert_eq!(component.id, "c");
    }
}

#[test]
fn component_advances_forward_only() {
    let order = [CREATED, CONFIGURED, RUNNING, TERMINATED];
    for (from_rank, from) in order.iter().enumerate() {
        for (to_rank, to) in order.iter().enumerate() {
            let mut component = PipelineComponent { args: Vec::new(), handle: 0, id: String::new(), state: *from };
            component.advance(*to);
            let expected = if from_rank < to_rank { *to } else { *from };
            assert_eq!(component.state, expected);
        }
    }
}

#[test]
fn state_positions_follow_the_lifecycle() {
    assert_eq!(CREATED.position(), 0);
    assert_eq!(CONFIGURED.position(), 1);
    assert_eq!(RUNNING.position(), 2);
    assert_eq!(TERMINATED.position(), 3);
}

#[test]
fn step_kind_follows_from_the_position() {
    let pipeline = pipeline();
    assert_eq!(pipeline.step_kind(0), PipelineModuleKind::Source);
    assert_eq!(pipeline.step_kind(1), PipelineModuleKind::Transformation);
    assert_eq!(pipeline.step_kind(2), PipelineModuleKind::Destination);
}

#[test]
fn step_kind_of_a_single_step_is_source() {
    let mut pipeline = pipeline();
    pipeline.steps.truncate(1);
    assert_eq!(pipeline.step_kind(0), PipelineModuleKind::Source);
}

#[test]
fn configure_steps_calls_set_the_arguments_before_configure() {
    let calls = pipeline().configure_steps_calls();
    assert_eq!(calls.len(), 3);
    assert_eq!(
        calls[0],
        vec![
            set_param(0, "format", "json"),
            set_param(0, "buffer", "16"),
            ModuleCall::ConfigureStep(ModulePipelineConfigureArgs { kind: PipelineModuleKind::Source, module_handle: 0 }),
        ]
    );
    assert_eq!(
        calls[1],
        vec![ModuleCall::ConfigureStep(ModulePipelineConfigureArgs {
            kind: PipelineModuleKind::Transformation,
            module_handle: 1
        })]
    );
    assert_eq!(
        calls[2],
        vec![
            set_param(2, "flush", "yes"),
            ModuleCall::ConfigureStep(ModulePipelineConfigureArgs {
                kind: PipelineModuleKind::Destination,
                module_handle: 2
            }),
        ]
    );
}

#[test]
fn configure_steps_leaves_every_step_configured() {
    let mut pipeline = pipeline();
    let answers = vec![
        ModulePipelineConfigureFnResult::Success,
        ModulePipelineConfigureFnResult::Success,
        ModulePipelineConfigureFnResult::Success,
    ];
    assert_eq!(pipeline.configure_steps(&answers), Ok(()));
    assert_eq!(step_states(&pipeline), vec![CONFIGURED, CONFIGURED, CONFIGURED]);
    assert_eq!(listener_states(&pipeline), vec![CREATED, CREATED]);
}

#[test]
fn configure_steps_stops_at_the_first_refusal() {
    let mut pipeline = pipeline();
    let answers = vec![
        ModulePipelineConfigureFnResult::Success,
        ModulePipelineConfigureFnResult::ErrorKindNotSupported,
        ModulePipelineConfigureFnResult::Success,
    ];
    assert_eq!(
        pipeline.configure_steps(&answers),
        Err(String::from("Failed to configure step step_1_copy: The module cannot be used in step with handle '1'"))
    );
    assert_eq!(step_states(&pipeline), vec![CONFIGURED, CREATED, CREATED]);
}

#[test]
fn configure_steps_reports_a_module_that_serves_one_step_only() {
    let mut pipeline = pipeline();
    let answers = vec![
        ModulePipelineConfigureFnResult::Success,
        ModulePipelineConfigureFnResult::Success,
        ModulePipelineConfigureFnResult::ErrorMultipleStepsNotSupported(0),
    ];
    assert_eq!(
        pipeline.configure_steps(&answers),
        Err(String::from(
            "Failed to configure step step_2_stdout: Cannot configure step with handle 2: the module supports only one instance of steps and is already registered in step 0"
        ))
    );
    assert_eq!(step_states(&pipeline), vec![CONFIGURED, CONFIGURED, CREATED]);
}

#[test]
fn configure_steps_reports_the_text_of_the_module() {
    let mut pipeline = pipeline();
    let answers = vec![ModulePipelineConfigureFnResult::ErrorMisc(String::from("unknown format"))];
    assert_eq!(
        pipeline.configure_steps(&answers),
        Err(String::from("Failed to configure step step_0_stdin: unknown format"))
    );
    assert_eq!(step_states(&pipeline), vec![CREATED, CREATED, CREATED]);
}

#[test]
fn configure_steps_fails_where_an_answer_is_missing() {
    let mut pipeline = pipeline();
    let answers = vec![ModulePipelineConfigureFnResult::Success, ModulePipelineConfigureFnResult::Success];
    assert_eq!(
        pipeline.configure_steps(&answers),
        Err(String::from("Failed to configure step step_2_stdout: the module gave no answer"))
    );
    assert_eq!(step_states(&pipeline), vec![CONFIGURED, CONFIGURED, CREATED]);
}

#[test]
fn configure_steps_never_moves_a_step_back() {
    let mut pipeline = pipeline();
    pipeline.steps[0].component.state = TERMINATED;
    pipeline.steps[1].component.state = RUNNING;
    let answers = vec![
        ModulePipelineConfigureFnResult::Success,
        ModulePipelineConfigureFnResult::Success,
        ModulePipelineConfigureFnResult::Success,
    ];
    assert_eq!(pipeline.configure_steps(&answers), Ok(()));
    assert_eq!(step_states(&pipeline), vec![TERMINATED, RUNNING, CONFIGURED]);
}

#[test]
fn step_configure_takes_one_answer() {
    let mut pipeline = pipeline();
    let args = ModulePipelineConfigureArgs { kind: PipelineModuleKind::Source, module_handle: 0 };
    assert_eq!(
        pipeline.steps[0].configure(args, &ModulePipelineConfigureFnResult::ErrorMisc(String::from("no"))),
        Err(String::from("no"))
    );
    assert_eq!(pipeline.steps[0].component.state, CREATED);
    assert_eq!(pipeline.steps[0].configure(args, &ModulePipelineConfigureFnResult::Success), Ok(()));
    assert_eq!(pipeline.steps[0].component.state, CONFIGURED);
}

#[test]
fn listener_configure_takes_one_answer() {
    let mut pipeline = pipeline();
    let args = ModuleListenerConfigureArgs { module_handle: 3 };
    assert_eq!(
        pipeline.listeners[0].configure(args, &ModuleListenerConfigureFnResult::ErrorMisc(String::from("no"))),
        Err(String::from("no"))
    );
    assert_eq!(pipeline.listeners[0].component.state, CREATED);
    assert_eq!(pipeline.listeners[0].configure(args, &ModuleListenerConfigureFnResult::Success), Ok(()));
    assert_eq!(pipeline.listeners[0].component.state, CONFIGURED);
}

#[test]
fn pipeline_data_describes_listeners_then_steps() {
    assert_eq!(
        pipeline().pipeline_data(),
        vec![
            pair("listeners.3.handle", "3"),
            pair("listeners.3.id", "evt_listener_3_stats"),
            pair("listeners.4.handle", "4"),
            pair("listeners.4.id", "evt_listener_4_audit"),
            pair("steps.0.handle", "0"),
            pair("steps.0.id", "step_0_stdin"),
            pair("steps.1.handle", "1"),
            pair("steps.1.id", "step_1_copy"),
            pair("steps.2.handle", "2"),
            pair("steps.2.id", "step_2_stdout"),
        ]
    );
}

#[test]
fn configure_listeners_calls_set_own_arguments_then_the_pipeline_data() {
    let pipeline = pipeline();
    let calls = pipeline.configure_listeners_calls();
    assert_eq!(calls.len(), 2);
    let mut expected = vec![set_param(3, "port", "9000")];
    for (key, value) in pipeline.pipeline_data() {
        expected.push(ModuleCall::SetParam { handle: 3, key: format!("pipeline.{}", key), value });
    }
    expected.push(ModuleCall::ConfigureListener(ModuleListenerConfigureArgs { module_handle: 3 }));
    assert_eq!(calls[0], expected);
    assert_eq!(calls[1].len(), 11);
    assert_eq!(calls[1][0], set_param(4, "pipeline.listeners.3.handle", "3"));
    assert_eq!(calls[1][9], set_param(4, "pipeline.steps.2.id", "step_2_stdout"));
    assert_eq!(calls[1][10], ModuleCall::ConfigureListener(ModuleListenerConfigureArgs { module_handle: 4 }));
}

#[test]
fn configure_listeners_leaves_every_listener_configured() {
    let mut pipeline = pipeline();
    let answers = vec![ModuleListenerConfigureFnResult::Success, ModuleListenerConfigureFnResult::Success];
    assert_eq!(pipeline.configure_listeners(&answers), Ok(()));
    assert_eq!(listener_states(&pipeline), vec![CONFIGURED, CONFIGURED]);
    assert_eq!(step_states(&pipeline), vec![CREATED, CREATED, CREATED]);
}

#[test]
fn configure_listeners_stops_at_the_first_refusal() {
    let mut pipeline = pipeline();
    let answers = vec![
        ModuleListenerConfigureFnResult::ErrorMisc(String::from("port is taken")),
        ModuleListenerConfigureFnResult::Success,
    ];
    assert_eq!(pipeline.configure_listeners(&answers), Err(String::from("port is taken")));
    assert_eq!(listener_states(&pipeline), vec![CREATED, CREATED]);
}

#[test]
fn configure_listeners_fails_where_an_answer_is_missing() {
    let mut pipeline = pipeline();
    let answers = vec![ModuleListenerConfigureFnResult::Success];
    assert_eq!(
        pipeline.configure_listeners(&answers),
        Err(String::from("Failed to configure event listener 'evt_listener_4_audit': the module gave no answer"))
    );
    assert_eq!(listener_states(&pipeline), vec![CONFIGURED, CREATED]);
}

#[test]
fn start_calls_start_listeners_before_steps() {
    assert_eq!(
        pipeline().start_calls(),
        vec![
            ModuleCall::Start { handle: 3 },
            ModuleCall::Start { handle: 4 },
            ModuleCall::Start { handle: 0 },
            ModuleCall::Start { handle: 1 },
            ModuleCall::Start { handle: 2 },
        ]
    );
}

fn configured() -> Pipeline {
    let mut pipeline = pipeline();
    let answers = vec![
        ModulePipelineConfigureFnResult::Success,
        ModulePipelineConfigureFnResult::Success,
        ModulePipelineConfigureFnResult::Success,
    ];
    pipeline.configure_steps(&answers).unwrap();
    pipeline
        .configure_listeners(&vec![ModuleListenerConfigureFnResult::Success, ModuleListenerConfigureFnResult::Success])
        .unwrap();
    pipeline
}

#[test]
fn start_steps_leaves_every_component_running() {
    let mut pipeline = configured();
    let answers = vec![
        StepStartFnResult::Success,
        StepStartFnResult::Success,
        StepStartFnResult::Success,
        StepStartFnResult::Success,
        StepStartFnResult::Success,
    ];
    assert_eq!(pipeline.start_steps(&answers), Ok(()));
    assert_eq!(listener_states(&pipeline), vec![RUNNING, RUNNING]);
    assert_eq!(step_states(&pipeline), vec![RUNNING, RUNNING, RUNNING]);
}

#[test]
fn start_steps_stops_at_a_listener_that_fails() {
    let mut pipeline = configured();
    let answers = vec![StepStartFnResult::Success, StepStartFnResult::ErrorMisc(String::from("no socket"))];
    assert_eq!(
        pipeline.start_steps(&answers),
        Err(String::from("Failed to start event listener 'evt_listener_4_audit': no socket"))
    );
    assert_eq!(listener_states(&pipeline), vec![RUNNING, CONFIGURED]);
    assert_eq!(step_states(&pipeline), vec![CONFIGURED, CONFIGURED, CONFIGURED]);
}

#[test]
fn start_steps_stops_at_a_step_that_fails() {
    let mut pipeline = configured();
    let answers = vec![
        StepStartFnResult::Success,
        StepStartFnResult::Success,
        StepStartFnResult::Success,
        StepStartFnResult::ErrorMisc(String::from("out of memory")),
        StepStartFnResult::Success,
    ];
    assert_eq!(
        pipeline.start_steps(&answers),
        Err(String::from("Failed to start pipeline step 'step_1_copy': out of memory"))
    );
    assert_eq!(listener_states(&pipeline), vec![RUNNING, RUNNING]);
    assert_eq!(step_states(&pipeline), vec![RUNNING, CONFIGURED, CONFIGURED]);
}

#[test]
fn start_steps_fails_where_an_answer_is_missing() {
    let mut pipeline = configured();
    let answers = vec![StepStartFnResult::Success, StepStartFnResult::Success, StepStartFnResult::Success];
    assert_eq!(
        pipeline.start_steps(&answers),
        Err(String::from("Failed to start pipeline step 'step_1_copy': the module gave no answer"))
    );
    assert_eq!(step_states(&pipeline), vec![RUNNING, CONFIGURED, CONFIGURED]);
    let mut pipeline = configured();
    assert_eq!(
        pipeline.start_steps(&Vec::new()),
        Err(String::from("Failed to start event listener 'evt_listener_3_stats': the module gave no answer"))
    );
    assert_eq!(listener_states(&pipeline), vec![CONFIGURED, CONFIGURED]);
}

#[test]
fn start_steps_leaves_a_terminated_step_terminated() {
    let mut pipeline = configured();
    pipeline.steps[2].component.state = TERMINATED;
    let answers = vec![
        StepStartFnResult::Success,
        StepStartFnResult::Success,
        StepStartFnResult::Success,
        StepStartFnResult::Success,
        StepStartFnResult::Success,
    ];
    assert_eq!(pipeline.start_steps(&answers), Ok(()));
    assert_eq!(step_states(&pipeline), vec![RUNNING, RUNNING, TERMINATED]);
}

#[test]
fn pipeline_runs_until_every_step_is_terminated() {
    let mut pipeline = configured();
    assert!(pipeline.is_running());
    pipeline.steps[0].component.set_state_terminated();
    pipeline.steps[2].component.set_state_terminated();
    assert!(pipeline.is_running());
    pipeline.listeners[0].component.set_state_terminated();
    pipeline.listeners[1].component.set_state_terminated();
    assert!(pipeline.is_running());
    pipeline.steps[1].component.set_state_terminated();
    assert!(!pipeline.is_running());
}

#[test]
fn pipeline_without_steps_does_not_run() {
    assert!(!Pipeline::new().is_running());
}

#[test]
fn terminate_message_marks_the_step_with_the_handle() {
    let mut pipeline = configured();
    assert_eq!(pipeline.handle_system_message(SystemMessage::TerminateStep(1)), Ok(()));
    assert_eq!(step_states(&pipeline), vec![CONFIGURED, TERMINATED, CONFIGURED]);
    assert_eq!(listener_states(&pipeline), vec![CONFIGURED, CONFIGURED]);
}

#[test]
fn terminate_message_marks_the_listener_with_the_handle() {
    let mut pipeline = configured();
    assert_eq!(pipeline.handle_system_message(SystemMessage::TerminateStep(4)), Ok(()));
    assert_eq!(step_states(&pipeline), vec![CONFIGURED, CONFIGURED, CONFIGURED]);
    assert_eq!(listener_states(&pipeline), vec![CONFIGURED, TERMINATED]);
}

#[test]
fn terminate_message_for_an_unknown_handle_changes_nothing() {
    let mut pipeline = configured();
    assert_eq!(
        pipeline.handle_system_message(SystemMessage::TerminateStep(77)),
        Err(String::from("Cannot find a pipeline component with handle '77'"))
    );
    assert_eq!(step_states(&pipeline), vec![CONFIGURED, CONFIGURED, CONFIGURED]);
    assert_eq!(listener_states(&pipeline), vec![CONFIGURED, CONFIGURED]);
}

#[test]
fn step_by_handle_can_be_changed_in_place() {
    let mut pipeline = configured();
    match pipeline.get_step_by_handle_mut(2) {
        Some(step) => {
            assert_eq!(step.get_id(), "step_2_stdout");
            step.component.set_state_terminated();
        }
        None => panic!("the step with handle 2 was not found"),
    }
    assert_eq!(step_states(&pipeline), vec![CONFIGURED, CONFIGURED, TERMINATED]);
    assert!(pipeline.get_step_by_handle_mut(3).is_none());
}

#[test]
fn termination_is_triggered_at_the_first_step_only() {
    assert_eq!(pipeline().trigger_termination(), vec![ModuleCall::Shutdown { handle: 0 }]);
    assert!(Pipeline::new().trigger_termination().is_empty());
}

#[test]
fn shutdown_of_a_component_names_its_handle() {
    let pipeline = pipeline();
    assert_eq!(pipeline.steps[1].shutdown(), ModuleCall::Shutdown { handle: 1 });
    assert_eq!(pipeline.listeners[1].shutdown(), ModuleCall::Shutdown { handle: 4 });
}
