//! The pipeline definition: which modules run as steps and as listeners,
//! and with which arguments.

use vstd::prelude::*;
use crate::sequences::{distinct, lemma_distinct, lemma_distinct_push};
use crate::text::contains_string;

verus! {

/// One entry of a definition: a step or a listener.
#[derive(PartialEq, Eq, Debug)]
pub struct ModuleDefinition {
    pub name: String,
    /// The ID of the module that does the work.
    pub handler: String,
    /// Arguments for the module, as pairs of key and value.
    pub args: Option<Vec<(String, String)>>,
}

/// A pipeline definition. Contains multiple steps
#[derive(PartialEq, Eq, Debug)]
pub struct PipelineDefinition {
    pub description: Option<String>,
    /// Steps: source, destination, transformations.
    /// The data processing happens here
    pub steps: Vec<ModuleDefinition>,
    /// Event listeners handle application events: processed records, failures, etc
    pub listeners: Option<Vec<ModuleDefinition>>,
}

/// The handlers of the entries, in their order.
pub open spec fn handlers_of(entries: Seq<ModuleDefinition>) -> Seq<Seq<char>> {
    entries.map_values(|entry: ModuleDefinition| entry.handler@)
}

impl PipelineDefinition {
    /// The listener entries, none where the definition has no such section.
    pub open spec fn listener_entries(self) -> Seq<ModuleDefinition> {
        match self.listeners {
            Some(entries) => entries@,
            None => Seq::empty(),
        }
    }

    /// Every handler that the definition names: those of the steps, then
    /// those of the listeners.
    pub open spec fn handlers(self) -> Seq<Seq<char>> {
        handlers_of(self.steps@) + handlers_of(self.listener_entries())
    }

    /// Returns the module IDs which are used by pipeline: every handler of
    /// the definition once, in the order of first use.
    pub fn get_module_ids_in_use(&self) -> (r: Vec<String>)
        ensures
            r.deep_view() == distinct(self.handlers()),
            r.deep_view().no_duplicates(),
            forall|id: Seq<char>| r.deep_view().contains(id) <==> self.handlers().contains(id),
    {
        let ghost step_handlers = handlers_of(self.steps@);
        let ghost listener_handlers = handlers_of(self.listener_entries());
        let mut required_module_ids: Vec<String> = Vec::new();
        let mut i: usize = 0;
        while i < self.steps.len()
            invariant
                i <= self.steps.len(),
                step_handlers == handlers_of(self.steps@),
                required_module_ids.deep_view() == distinct(step_handlers.take(i as int)),
            decreases self.steps.len() - i,
        {
            let handler = &self.steps[i].handler;
            proof {
                step_handlers.lemma_take_succ_push(i as int);
                lemma_distinct_push(step_handlers.take(i as int), handler@);
            }
            if !contains_string(&required_module_ids, handler) {
                let ghost before = required_module_ids.deep_view();
                required_module_ids.push(handler.clone());
                assert(required_module_ids.deep_view() =~= before.push(handler@));
            }
            i += 1;
        }
        proof {
            step_handlers.lemma_take_len();
        }
        match &self.listeners {
            Some(entries) => {
                let mut k: usize = 0;
                while k < entries.len()
                    invariant
                        k <= entries.len(),
                        listener_handlers == handlers_of(entries@),
                        required_module_ids.deep_view() == distinct(
                            step_handlers + listener_handlers.take(k as int),
                        ),
                    decreases entries.len() - k,
                {
                    let handler = &entries[k].handler;
                    proof {
                        listener_handlers.lemma_take_succ_push(k as int);
                        lemma_distinct_push(
                            step_handlers + listener_handlers.take(k as int),
                            handler@,
                        );
                        assert((step_handlers + listener_handlers.take(k as int)).push(handler@)
                            =~= step_handlers + listener_handlers.take(k + 1));
                    }
                    if !contains_string(&required_module_ids, handler) {
                        let ghost before = required_module_ids.deep_view();
                        required_module_ids.push(handler.clone());
                        assert(required_module_ids.deep_view() =~= before.push(handler@));
                    }
                    k += 1;
                }
                proof {
                    listener_handlers.lemma_take_len();
                }
            },
            None => {
                assert(step_handlers + listener_handlers =~= step_handlers);
            },
        }
        proof {
            lemma_distinct(self.handlers());
        }
        required_module_ids
    }
}

} // verus!
