//! The assembly of a pipeline from its definition and the loaded modules.

use vstd::prelude::*;
use crate::config::{handlers_of, ModuleDefinition, PipelineDefinition};
use crate::modules::module_loader::{LoadedLibraries, LoadedLibrariesView};
use crate::modules::LibInfoView;
use crate::pipeline::listener::{listener_id, Listener, ListenerView};
use crate::pipeline::pipeline::{Pipeline, PipelineView};
use crate::pipeline::pipeline_step::{args_or_empty, step_id, PipelineStep, PipelineStepView};
use crate::pipeline::{ComponentView, PipelineComponentState};
use crate::text::{clone_pairs, decimal, decimal_string};

verus! {

/// The first handler, in order, that `registry` does not know.
pub open spec fn first_unresolved(
    handlers: Seq<Seq<char>>,
    registry: Map<Seq<char>, LibInfoView>,
) -> Option<Seq<char>>
    decreases handlers.len(),
{
    if handlers.len() == 0 {
        None
    } else if !registry.contains_key(handlers.first()) {
        Some(handlers.first())
    } else {
        first_unresolved(handlers.drop_first(), registry)
    }
}

/// The message for a handler that no loaded module of the right kind has.
pub open spec fn module_not_found(handler: Seq<char>) -> Seq<char> {
    "Module not found: "@ + handler
}

/// The message for a pipeline of fewer than two steps.
pub open spec fn too_few_steps(count: nat) -> Seq<char> {
    "Pipeline must have at least two steps. The actual number of steps: "@ + decimal(count)
}

/// Why a definition cannot be assembled, `None` where it can. The handlers
/// of the steps are looked at first, then those of the listeners, then the
/// number of steps.
pub open spec fn assembly_error(
    definition: PipelineDefinition,
    libraries: LoadedLibrariesView,
) -> Option<Seq<char>> {
    let steps = handlers_of(definition.steps@);
    let listeners = handlers_of(definition.listener_entries());
    if first_unresolved(steps, libraries.pipeline) is Some {
        Some(module_not_found(first_unresolved(steps, libraries.pipeline).unwrap()))
    } else if first_unresolved(listeners, libraries.listeners) is Some {
        Some(module_not_found(first_unresolved(listeners, libraries.listeners).unwrap()))
    } else if steps.len() < 2 {
        Some(too_few_steps(steps.len()))
    } else {
        None
    }
}

/// The step that is made of the entry `entry` at position `index`.
pub open spec fn assembled_step(
    entry: ModuleDefinition,
    index: int,
    libraries: LoadedLibrariesView,
) -> PipelineStepView {
    let module = libraries.pipeline[entry.handler@];
    PipelineStepView {
        component: ComponentView {
            args: args_or_empty(entry.args),
            handle: index as usize,
            id: step_id(index as usize, module.id),
            state: PipelineComponentState::Created,
        },
        module,
    }
}

/// The listener that is made of the entry `entry`, with handle `handle`.
pub open spec fn assembled_listener(
    entry: ModuleDefinition,
    handle: int,
    libraries: LoadedLibrariesView,
) -> ListenerView {
    let module = libraries.listeners[entry.handler@];
    ListenerView {
        component: ComponentView {
            args: args_or_empty(entry.args),
            handle: handle as usize,
            id: listener_id(handle as usize, module.id),
            state: PipelineComponentState::Created,
        },
        module,
    }
}

/// The pipeline that is made of a definition. One counter hands out the
/// handles: the steps get `0`, `1`, ... in the order of the definition, the
/// listeners go on from there. Every component is in the state `Created`.
pub open spec fn assembled(
    definition: PipelineDefinition,
    libraries: LoadedLibrariesView,
) -> PipelineView {
    let steps = definition.steps@;
    let listeners = definition.listener_entries();
    PipelineView {
        description: definition.description.deep_view(),
        listeners: Seq::new(
            listeners.len(),
            |j: int| assembled_listener(listeners[j], steps.len() + j, libraries),
        ),
        steps: Seq::new(steps.len(), |i: int| assembled_step(steps[i], i, libraries)),
    }
}

impl Pipeline {
    /// Validates the pipeline: it must have at least two steps.
    pub fn validate(&self) -> (r: Result<(), String>)
        ensures
            self@.steps.len() >= 2 ==> r is Ok,
            self@.steps.len() < 2 ==> (r matches Err(e) && e@ == too_few_steps(self@.steps.len())),
    {
        let steps_len = self.steps.len();
        if steps_len < 2 {
            let mut message = String::from_str(
                "Pipeline must have at least two steps. The actual number of steps: ",
            );
            message.append(decimal_string(steps_len as u64).as_str());
            return Err(message);
        }
        Ok(())
    }

    /// Creates a pipeline from a definition and the loaded modules.
    ///
    /// Every handler of a step must name a loaded pipeline module and every
    /// handler of a listener a loaded listener module, and there must be at
    /// least two steps. No module is called.
    pub fn from_definition(definition: &PipelineDefinition, loaded_libs: &LoadedLibraries) -> (r:
        Result<Pipeline, String>)
        requires
            definition.steps@.len() + definition.listener_entries().len() <= usize::MAX,
        ensures
            match assembly_error(*definition, loaded_libs@) {
                Some(message) => r matches Err(e) && e@ == message,
                None => r matches Ok(pipeline) && pipeline@ == assembled(*definition, loaded_libs@),
            },
            r matches Ok(pipeline) ==> pipeline@.well_formed(),
    {
        proof {
            lemma_assembled_handles(*definition, loaded_libs@);
        }
        let ghost step_handlers = handlers_of(definition.steps@);
        let ghost listener_handlers = handlers_of(definition.listener_entries());
        let steps_len = definition.steps.len();
        let mut pipeline = Pipeline::new();
        pipeline.description = match &definition.description {
            Some(text) => Some(text.clone()),
            None => None,
        };

        assert(step_handlers.skip(0) =~= step_handlers);
        assert(listener_handlers.skip(0) =~= listener_handlers);
        let mut i: usize = 0;
        while i < steps_len
            invariant
                i <= steps_len,
                steps_len == definition.steps@.len(),
                step_handlers == handlers_of(definition.steps@),
                definition.steps@.len() + definition.listener_entries().len() <= usize::MAX,
                first_unresolved(step_handlers, loaded_libs@.pipeline) == first_unresolved(
                    step_handlers.skip(i as int),
                    loaded_libs@.pipeline,
                ),
                pipeline@.description == definition.description.deep_view(),
                pipeline@.listeners == Seq::<ListenerView>::empty(),
                pipeline@.steps == assembled(*definition, loaded_libs@).steps.take(i as int),
            decreases steps_len - i,
        {
            let step_def = &definition.steps[i];
            proof {
                assert(step_handlers.skip(i as int).first() == step_def.handler@);
                assert(step_handlers.skip(i as int).drop_first() =~= step_handlers.skip(i + 1));
            }
            let module = match loaded_libs.get_pipeline(&step_def.handler) {
                Some(module) => module.clone(),
                None => {
                    let mut message = String::from_str("Module not found: ");
                    message.append(step_def.handler.as_str());
                    return Err(message);
                },
            };
            let args = match &step_def.args {
                Some(pairs) => Some(clone_pairs(pairs)),
                None => None,
            };
            let step = PipelineStep::from_module(module, i, args);
            let ghost before = pipeline.steps.deep_view();
            pipeline.steps.push(step);
            assert(pipeline.steps.deep_view() =~= before.push(step@));
            assert(step@ == assembled(*definition, loaded_libs@).steps[i as int]);
            assert(pipeline@.steps =~= assembled(*definition, loaded_libs@).steps.take(i + 1));
            i += 1;
        }
        assert(pipeline@.steps =~= assembled(*definition, loaded_libs@).steps);
        assert(first_unresolved(step_handlers, loaded_libs@.pipeline) is None);

        match &definition.listeners {
            Some(entries) => {
                let mut j: usize = 0;
                while j < entries.len()
                    invariant
                        j <= entries.len(),
                        steps_len == definition.steps@.len(),
                        entries@ == definition.listener_entries(),
                        listener_handlers == handlers_of(entries@),
                        step_handlers == handlers_of(definition.steps@),
                        first_unresolved(step_handlers, loaded_libs@.pipeline) is None,
                        steps_len + entries@.len() <= usize::MAX,
                        first_unresolved(listener_handlers, loaded_libs@.listeners)
                            == first_unresolved(
                            listener_handlers.skip(j as int),
                            loaded_libs@.listeners,
                        ),
                        pipeline@.description == definition.description.deep_view(),
                        pipeline@.steps == assembled(*definition, loaded_libs@).steps,
                        pipeline@.listeners == assembled(*definition, loaded_libs@).listeners.take(
                            j as int,
                        ),
                    decreases entries.len() - j,
                {
                    let listener_def = &entries[j];
                    proof {
                        assert(listener_handlers.skip(j as int).first() == listener_def.handler@);
                        assert(listener_handlers.skip(j as int).drop_first()
                            =~= listener_handlers.skip(j + 1));
                    }
                    let module = match loaded_libs.get_listener(&listener_def.handler) {
                        Some(module) => module.clone(),
                        None => {
                            let mut message = String::from_str("Module not found: ");
                            message.append(listener_def.handler.as_str());
                            return Err(message);
                        },
                    };
                    let args = match &listener_def.args {
                        Some(pairs) => Some(clone_pairs(pairs)),
                        None => None,
                    };
                    let listener = Listener::from_module(module, steps_len + j, args);
                    let ghost before = pipeline.listeners.deep_view();
                    pipeline.listeners.push(listener);
                    assert(pipeline.listeners.deep_view() =~= before.push(listener@));
                    assert(listener@ == assembled(*definition, loaded_libs@).listeners[j as int]);
                    assert(pipeline@.listeners =~= assembled(
                        *definition,
                        loaded_libs@,
                    ).listeners.take(j + 1));
                    j += 1;
                }
            },
            None => {},
        }
        assert(pipeline@.listeners =~= assembled(*definition, loaded_libs@).listeners);
        assert(first_unresolved(listener_handlers, loaded_libs@.listeners) is None);

        match pipeline.validate() {
            Ok(_) => Ok(pipeline),
            Err(message) => Err(message),
        }
    }
}

/// The handles of an assembled pipeline: the step at position `i` has the
/// handle `i`, and the listeners go on from the number of steps.
pub proof fn lemma_assembled_handles(
    definition: PipelineDefinition,
    libraries: LoadedLibrariesView,
)
    requires
        definition.steps@.len() + definition.listener_entries().len() <= usize::MAX,
    ensures
        ({
            let pipeline = assembled(definition, libraries);
            &&& pipeline.steps.len() == definition.steps@.len()
            &&& pipeline.listeners.len() == definition.listener_entries().len()
            &&& forall|i: int|
                0 <= i < pipeline.steps.len() ==> (#[trigger] pipeline.steps[i]).component.handle
                    == i
            &&& forall|j: int|
                0 <= j < pipeline.listeners.len() ==> (
                #[trigger] pipeline.listeners[j]).component.handle == pipeline.steps.len() + j
        }),
{
}

/// Every component of an assembled pipeline is in the state `Created`.
pub proof fn lemma_assembled_is_created(
    definition: PipelineDefinition,
    libraries: LoadedLibrariesView,
)
    ensures
        ({
            let pipeline = assembled(definition, libraries);
            &&& forall|i: int|
                0 <= i < pipeline.steps.len() ==> (#[trigger] pipeline.steps[i]).component.state
                    == PipelineComponentState::Created
            &&& forall|j: int|
                0 <= j < pipeline.listeners.len() ==> (
                #[trigger] pipeline.listeners[j]).component.state
                    == PipelineComponentState::Created
        }),
{
}

/// Where a handler has no module in `registry`, there is a first such
/// handler, and it has none either.
pub proof fn lemma_first_unresolved(
    handlers: Seq<Seq<char>>,
    registry: Map<Seq<char>, LibInfoView>,
)
    ensures
        match first_unresolved(handlers, registry) {
            Some(handler) => handlers.contains(handler) && !registry.contains_key(handler),
            None => forall|i: int|
                0 <= i < handlers.len() ==> registry.contains_key(#[trigger] handlers[i]),
        },
    decreases handlers.len(),
{
    if handlers.len() > 0 {
        if registry.contains_key(handlers.first()) {
            let rest = handlers.drop_first();
            lemma_first_unresolved(rest, registry);
            match first_unresolved(rest, registry) {
                Some(handler) => {
                    let i = choose|i: int| 0 <= i < rest.len() && rest[i] == handler;
                    assert(handlers[i + 1] == handler);
                },
                None => {
                    assert forall|i: int| 0 <= i < handlers.len() implies registry.contains_key(
                        #[trigger] handlers[i],
                    ) by {
                        if i > 0 {
                            assert(handlers[i] == rest[i - 1]);
                        }
                    }
                },
            }
        } else {
            assert(handlers[0] == handlers.first());
        }
    }
}

/// A definition that names a handler for which no module of the right kind
/// is loaded cannot be assembled: the assembly fails with a message that
/// ends in such a handler of the definition.
pub proof fn lemma_unknown_handler_fails(
    definition: PipelineDefinition,
    libraries: LoadedLibrariesView,
)
    requires
        (exists|i: int|
            0 <= i < definition.steps@.len() && !libraries.pipeline.contains_key(
                #[trigger] handlers_of(definition.steps@)[i],
            )) || (exists|j: int|
            0 <= j < definition.listener_entries().len() && !libraries.listeners.contains_key(
                #[trigger] handlers_of(definition.listener_entries())[j],
            )),
    ensures
        exists|handler: Seq<char>|
            {
                &&& definition.handlers().contains(handler)
                &&& #[trigger] module_not_found(handler) == assembly_error(
                    definition,
                    libraries,
                ).unwrap()
                &&& assembly_error(definition, libraries) is Some
            },
{
    let steps = handlers_of(definition.steps@);
    let listeners = handlers_of(definition.listener_entries());
    lemma_first_unresolved(steps, libraries.pipeline);
    lemma_first_unresolved(listeners, libraries.listeners);
    let handler = if first_unresolved(steps, libraries.pipeline) is Some {
        first_unresolved(steps, libraries.pipeline).unwrap()
    } else {
        first_unresolved(listeners, libraries.listeners).unwrap()
    };
    if first_unresolved(steps, libraries.pipeline) is Some {
        let i = choose|i: int| 0 <= i < steps.len() && steps[i] == handler;
        assert(definition.handlers()[i] == handler);
    } else {
        let j = choose|j: int| 0 <= j < listeners.len() && listeners[j] == handler;
        assert(definition.handlers()[steps.len() + j] == handler);
    }
    assert(module_not_found(handler) == assembly_error(definition, libraries).unwrap());
}

} // verus!
