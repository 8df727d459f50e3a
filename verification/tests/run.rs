use std::collections::VecDeque;

use torustiq::abi::{
    ModuleCall, ModuleListenerConfigureFnResult, ModulePipelineConfigureFnResult,
    ModulePipelineProcessRecordFnResult, StepStartFnResult,
};
use torustiq::config::{ModuleDefinition, PipelineDefinition};
use torustiq::modules::module_loader::load_libraries;
use torustiq::modules::{LibInfo, ModuleKind, CURRENT_API_VERSION};
use torustiq::pipeline::pipeline::Pipeline;
use torustiq::pipeline::router::{find_router, RecordRouter, TimeoutVerdict};
use torustiq::pipeline::PipelineComponentState;
use torustiq::xthread::SystemMessage;

/// A host in one thread: the modules are played by this value, the
/// decisions are the library's.
struct Host {
    pipeline: Pipeline,
    routers: Vec<RecordRouter>,
    /// One queue per router, in place of its channel.
    queues: Vec<VecDeque<u32>>,
    /// Whether the router at each position has ended.
    ended: Vec<bool>,
    /// What the last step saw, in the order in which it saw it.
    delivered: Vec<u32>,
    /// What each listener call told, as (call, record).
    heard: Vec<(ModuleCall, u32)>,
    /// The records released, with the step whose module released them.
    freed: Vec<(usize, u32)>,
    /// The shutdown calls made, by handle.
    shutdowns: Vec<usize>,
    /// The value of `is_running` after every event.
    running: Vec<bool>,
    /// Whether the last step takes the records over.
    destination_consumes: bool,
}

fn info(id: &str, kind: ModuleKind) -> LibInfo {
    LibInfo { api_version: CURRENT_API_VERSION, id: String::from(id), kind, name: String::from(id) }
}

fn entry(handler: &str) -> ModuleDefinition {
    ModuleDefinition { name: String::from(handler), handler: String::from(handler), args: None }
}

impl Host {
    fn start(steps: &[&str], destination_consumes: bool) -> Host {
        let mut discovered: Vec<LibInfo> = steps.iter().map(|s| info(s, ModuleKind::Pipeline)).collect();
        discovered.push(info("stats", ModuleKind::Listener));
        let definition = PipelineDefinition {
            description: None,
            steps: steps.iter().map(|s| entry(s)).collect(),
            listeners: Some(vec![entry("stats")]),
        };
        let libraries = load_libraries(&discovered, &definition.get_module_ids_in_use()).unwrap();
        let mut pipeline = Pipeline::from_definition(&definition, &libraries).unwrap();

        let step_answers: Vec<ModulePipelineConfigureFnResult> =
            pipeline.configure_steps_calls().iter().map(|_| ModulePipelineConfigureFnResult::Success).collect();
        pipeline.configure_steps(&step_answers).unwrap();
        let listener_answers: Vec<ModuleListenerConfigureFnResult> =
            pipeline.configure_listeners_calls().iter().map(|_| ModuleListenerConfigureFnResult::Success).collect();
        pipeline.configure_listeners(&listener_answers).unwrap();
        let routers = pipeline.start_senders_receivers();
        let start_answers: Vec<StepStartFnResult> =
            pipeline.start_calls().iter().map(|_| StepStartFnResult::Success).collect();
        pipeline.start_steps(&start_answers).unwrap();

        let queues = routers.iter().map(|_| VecDeque::new()).collect();
        let ended = routers.iter().map(|_| false).collect();
        let mut host = Host {
            pipeline,
            routers,
            queues,
            ended,
            delivered: Vec::new(),
            heard: Vec::new(),
            freed: Vec::new(),
            shutdowns: Vec::new(),
            running: Vec::new(),
            destination_consumes,
        };
        host.observe();
        host
    }

    fn observe(&mut self) {
        self.running.push(self.pipeline.is_running());
    }

    /// A module hands a record to the host.
    fn emit(&mut self, producer: usize, record: u32) {
        if let Some(position) = find_router(&self.routers, producer) {
            self.queues[position].push_back(record);
        }
    }

    /// A module tells the host that it has terminated.
    fn terminated(&mut self, handle: usize) {
        self.pipeline.handle_system_message(SystemMessage::TerminateStep(handle)).unwrap();
        self.observe();
    }

    /// The module behind `handle` processes a record.
    fn process(&mut self, handle: usize, record: u32) -> ModulePipelineProcessRecordFnResult {
        if handle + 1 == self.pipeline.steps.len() {
            self.delivered.push(record);
            ModulePipelineProcessRecordFnResult::Success(self.destination_consumes)
        } else {
            self.emit(handle, record);
            ModulePipelineProcessRecordFnResult::Success(false)
        }
    }

    fn perform(&mut self, calls: Vec<ModuleCall>, record: u32) -> Option<ModulePipelineProcessRecordFnResult> {
        let mut answer = None;
        for call in calls {
            match call {
                ModuleCall::ProcessRecord { handle } => answer = Some(self.process(handle, record)),
                ModuleCall::FreeRecord { producer } => self.freed.push((producer, record)),
                ModuleCall::RecordReceived { .. } | ModuleCall::RecordSent { .. } | ModuleCall::RecordError { .. } => {
                    self.heard.push((call, record))
                }
                other => panic!("a router asked for {:?}", other),
            }
        }
        answer
    }

    /// One turn of the router at `position`. Returns whether it did anything.
    fn turn(&mut self, position: usize) -> bool {
        if self.ended[position] {
            return false;
        }
        match self.queues[position].pop_front() {
            Some(record) => {
                let calls = self.routers[position].on_record();
                let answer = self.perform(calls, record).unwrap();
                let calls = self.routers[position].on_processed(&answer);
                self.perform(calls, record);
                self.observe();
                true
            }
            None => {
                let sender_terminated = self.pipeline.steps[position].component.is_terminated();
                match self.routers[position].on_timeout(sender_terminated) {
                    TimeoutVerdict::Finish(ModuleCall::Shutdown { handle }) => {
                        self.shutdowns.push(handle);
                        self.ended[position] = true;
                        // a step that is shut down says so
                        self.terminated(handle);
                        true
                    }
                    TimeoutVerdict::Finish(other) => panic!("a router asked for {:?}", other),
                    TimeoutVerdict::KeepWaiting => false,
                }
            }
        }
    }

    /// Lets the routers take turns until none has anything to do.
    fn settle(&mut self) {
        loop {
            let mut progress = false;
            for position in 0..self.routers.len() {
                progress = self.turn(position) || progress;
            }
            if !progress {
                break;
            }
        }
    }
}

#[test]
fn destination_sees_the_records_in_order_and_once() {
    let mut host = Host::start(&["source", "passthrough", "destination"], false);
    for record in [1, 2, 3] {
        host.emit(0, record);
    }
    host.settle();
    assert_eq!(host.delivered, vec![1, 2, 3]);
}

#[test]
fn destination_sees_the_records_in_order_through_a_long_chain() {
    let mut host = Host::start(&["source", "a", "b", "c", "d", "destination"], true);
    for record in [10, 20, 30, 40] {
        host.emit(0, record);
        host.turn(0);
    }
    host.settle();
    assert_eq!(host.delivered, vec![10, 20, 30, 40]);
}

#[test]
fn listeners_hear_received_before_sent_for_every_record() {
    let mut host = Host::start(&["source", "destination"], false);
    host.emit(0, 7);
    host.emit(0, 8);
    host.settle();
    assert_eq!(
        host.heard,
        vec![
            (ModuleCall::RecordReceived { listener: 2, step: 1 }, 7),
            (ModuleCall::RecordSent { listener: 2, step: 1 }, 7),
            (ModuleCall::RecordReceived { listener: 2, step: 1 }, 8),
            (ModuleCall::RecordSent { listener: 2, step: 1 }, 8),
        ]
    );
}

#[test]
fn every_record_instance_is_freed_once_by_its_producer() {
    let mut host = Host::start(&["source", "passthrough", "destination"], false);
    for record in [1, 2, 3] {
        host.emit(0, record);
    }
    host.settle();
    let mut freed = host.freed.clone();
    freed.sort();
    assert_eq!(freed, vec![(0, 1), (0, 2), (0, 3), (1, 1), (1, 2), (1, 3)]);
}

#[test]
fn consumed_records_are_not_freed_by_the_router() {
    let mut host = Host::start(&["source", "passthrough", "destination"], true);
    for record in [1, 2, 3] {
        host.emit(0, record);
    }
    host.settle();
    assert_eq!(host.delivered, vec![1, 2, 3]);
    assert_eq!(host.freed, vec![(0, 1), (0, 2), (0, 3)]);
}

#[test]
fn termination_of_the_source_cascades_to_every_step() {
    let mut host = Host::start(&["source", "passthrough", "destination"], false);
    for record in [1, 2, 3] {
        host.emit(0, record);
    }
    host.terminated(0);
    host.settle();
    assert_eq!(host.delivered, vec![1, 2, 3]);
    assert_eq!(host.shutdowns, vec![1, 2]);
    assert!(host.pipeline.steps.iter().all(|s| s.component.state == PipelineComponentState::Terminated));
    assert!(!host.pipeline.is_running());
}

#[test]
fn running_turns_false_once_and_stays_false() {
    let mut host = Host::start(&["source", "passthrough", "destination"], false);
    for record in [1, 2, 3] {
        host.emit(0, record);
    }
    host.terminated(0);
    host.settle();
    host.settle();
    host.observe();
    assert_eq!(host.running.first(), Some(&true));
    assert_eq!(host.running.last(), Some(&false));
    let changes = host.running.windows(2).filter(|pair| pair[0] != pair[1]).count();
    assert_eq!(changes, 1);
}

#[test]
fn pipeline_keeps_running_while_the_source_lives() {
    let mut host = Host::start(&["source", "passthrough", "destination"], false);
    host.emit(0, 1);
    host.settle();
    assert!(host.shutdowns.is_empty());
    assert!(host.pipeline.is_running());
    assert!(host.running.iter().all(|r| *r));
}

#[test]
fn graceful_shutdown_ends_the_run_through_the_first_step() {
    let mut host = Host::start(&["source", "passthrough", "destination"], false);
    host.emit(0, 5);
    let calls = host.pipeline.trigger_termination();
    assert_eq!(calls, vec![ModuleCall::Shutdown { handle: 0 }]);
    // the source obeys and says that it has terminated
    host.terminated(0);
    host.settle();
    assert_eq!(host.delivered, vec![5]);
    assert!(!host.pipeline.is_running());
}
