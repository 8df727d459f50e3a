//! What a record router does on each event of its edge.
//!
//! Between every two neighbouring steps runs one router. It waits for the
//! records that the upstream step emits and hands each to the downstream
//! step. The waiting and the calls are the host's. Which calls are made, in
//! which order, is decided here: per record, every listener hears that it
//! was received, the downstream step processes it, every listener hears how
//! that went, and the record is released unless the downstream step took it
//! over.

use vstd::prelude::*;
use crate::abi::{ModuleCall, ModuleCallView, ModulePipelineProcessRecordFnResult};
use crate::sequences::is_first_index;
use crate::text::{decimal, decimal_string};

verus! {

/// How long a router waits for a record before it looks whether the
/// upstream step is still alive, in milliseconds.
pub const RECEIVE_TIMEOUT_MS: u64 = 100;

/// What a listener is told about a record.
#[derive(PartialEq, Eq, Structural, Clone, Copy, Debug)]
pub enum RecordEvent {
    /// The record has reached the router.
    Received,
    /// The downstream step has processed the record.
    Sent,
    /// The downstream step has failed on the record.
    Failed,
}

/// What a router does after it has waited for a record in vain.
#[derive(PartialEq, Eq, Debug)]
pub enum TimeoutVerdict {
    /// The router waits again.
    KeepWaiting,
    /// The router makes the call and ends: its edge is exhausted.
    Finish(ModuleCall),
}

/// A [`TimeoutVerdict`] with its call as a value of [`ModuleCallView`].
pub enum TimeoutVerdictView {
    KeepWaiting,
    Finish(ModuleCallView),
}

impl View for TimeoutVerdict {
    type V = TimeoutVerdictView;

    open spec fn view(&self) -> TimeoutVerdictView {
        match self {
            TimeoutVerdict::KeepWaiting => TimeoutVerdictView::KeepWaiting,
            TimeoutVerdict::Finish(call) => TimeoutVerdictView::Finish(call@),
        }
    }
}

/// The router of one edge of the pipeline.
#[derive(PartialEq, Eq, Debug)]
pub struct RecordRouter {
    /// Handle of the upstream step, which produces the records of the edge.
    pub sender: usize,
    /// Handle of the downstream step, which processes them.
    pub receiver: usize,
    /// Identifier of the downstream step.
    pub receiver_id: String,
    /// Handles of the listeners, in the order of their registration.
    pub listeners: Vec<usize>,
}

/// A [`RecordRouter`] with its text as a sequence of characters.
pub struct RecordRouterView {
    pub sender: usize,
    pub receiver: usize,
    pub receiver_id: Seq<char>,
    pub listeners: Seq<usize>,
}

impl View for RecordRouter {
    type V = RecordRouterView;

    open spec fn view(&self) -> RecordRouterView {
        RecordRouterView {
            sender: self.sender,
            receiver: self.receiver,
            receiver_id: self.receiver_id@,
            listeners: self.listeners@,
        }
    }
}

impl DeepView for RecordRouter {
    type V = RecordRouterView;

    open spec fn deep_view(&self) -> RecordRouterView {
        self@
    }
}

/// The call that tells `listener` of `event` on a record bound for `step`.
pub open spec fn notification(event: RecordEvent, listener: usize, step: usize) -> ModuleCallView {
    match event {
        RecordEvent::Received => ModuleCallView::RecordReceived { listener, step },
        RecordEvent::Sent => ModuleCallView::RecordSent { listener, step },
        RecordEvent::Failed => ModuleCallView::RecordError { listener, step },
    }
}

/// What the listeners hear once the downstream step has answered.
pub open spec fn event_after(result: ModulePipelineProcessRecordFnResult) -> RecordEvent {
    if result is Success {
        RecordEvent::Sent
    } else {
        RecordEvent::Failed
    }
}

/// Whether a call releases a record.
pub open spec fn is_free_call(call: ModuleCallView) -> bool {
    call is FreeRecord
}

/// How many calls of `calls` release a record.
pub open spec fn free_calls(calls: Seq<ModuleCallView>) -> nat {
    calls.filter(|call: ModuleCallView| is_free_call(call)).len()
}

impl RecordRouterView {
    /// One call per listener, in the order of the listeners.
    pub open spec fn notify_all(self, event: RecordEvent) -> Seq<ModuleCallView> {
        Seq::new(
            self.listeners.len(),
            |i: int| notification(event, self.listeners[i], self.receiver),
        )
    }

    /// See [`RecordRouter::on_emitted`].
    pub open spec fn on_emitted(self, forwarded: bool) -> Option<ModuleCallView> {
        if forwarded {
            Some(ModuleCallView::FreeRecord { producer: self.sender })
        } else {
            None
        }
    }

    /// See [`RecordRouter::on_timeout`].
    pub open spec fn on_timeout(self, sender_terminated: bool) -> TimeoutVerdictView {
        if sender_terminated {
            TimeoutVerdictView::Finish(ModuleCallView::Shutdown { handle: self.receiver })
        } else {
            TimeoutVerdictView::KeepWaiting
        }
    }

    /// See [`RecordRouter::on_record`].
    pub open spec fn on_record(self) -> Seq<ModuleCallView> {
        self.notify_all(RecordEvent::Received).push(
            ModuleCallView::ProcessRecord { handle: self.receiver },
        )
    }

    /// See [`RecordRouter::on_processed`].
    pub open spec fn on_processed(self, result: ModulePipelineProcessRecordFnResult) -> Seq<
        ModuleCallView,
    > {
        if result.consumed() {
            self.notify_all(event_after(result))
        } else {
            self.notify_all(event_after(result)).push(
                ModuleCallView::FreeRecord { producer: self.sender },
            )
        }
    }

    /// Every call that the router makes for one record to which the
    /// downstream step answers `result`.
    pub open spec fn calls_for_record(self, result: ModulePipelineProcessRecordFnResult) -> Seq<
        ModuleCallView,
    > {
        self.on_record() + self.on_processed(result)
    }

    /// See [`RecordRouter::failure_report`].
    pub open spec fn failure_report(self, result: ModulePipelineProcessRecordFnResult) -> Option<
        Seq<char>,
    > {
        match result {
            ModulePipelineProcessRecordFnResult::Success(_) => None,
            ModulePipelineProcessRecordFnResult::ErrWrongModuleHandle(handle, _) => Some(
                "Wrong module handle '"@ + decimal(handle as nat) + "'"@,
            ),
            ModulePipelineProcessRecordFnResult::ErrMisc(message, _) => Some(
                "Failed to process record in step '"@ + self.receiver_id + "': "@ + message@,
            ),
        }
    }
}

impl RecordRouter {
    /// One call per listener that tells it of `event`.
    fn notify_all(&self, event: RecordEvent) -> (r: Vec<ModuleCall>)
        ensures
            r.deep_view() == self@.notify_all(event),
    {
        let mut calls: Vec<ModuleCall> = Vec::new();
        let mut i: usize = 0;
        while i < self.listeners.len()
            invariant
                i <= self.listeners.len(),
                calls.deep_view() == self@.notify_all(event).take(i as int),
            decreases self.listeners.len() - i,
        {
            let listener = self.listeners[i];
            let step = self.receiver;
            let call = match event {
                RecordEvent::Received => ModuleCall::RecordReceived { listener, step },
                RecordEvent::Sent => ModuleCall::RecordSent { listener, step },
                RecordEvent::Failed => ModuleCall::RecordError { listener, step },
            };
            let ghost before = calls.deep_view();
            calls.push(call);
            assert(calls.deep_view() =~= before.push(call@));
            assert(calls.deep_view() =~= self@.notify_all(event).take(i + 1));
            i += 1;
        }
        assert(self@.notify_all(event).take(i as int) =~= self@.notify_all(event));
        calls
    }

    /// The upstream step has emitted a record, and the host has tried to
    /// put a copy of it on the way to this router. Where the copy is on its
    /// way, the result is the call by which the module that produced the
    /// record releases the emitted one. Where it is not, nothing is called.
    pub fn on_emitted(&self, forwarded: bool) -> (r: Option<ModuleCall>)
        ensures
            r.deep_view() == self@.on_emitted(forwarded),
    {
        if forwarded {
            Some(ModuleCall::FreeRecord { producer: self.sender })
        } else {
            None
        }
    }

    /// No record came within the waiting time. While the upstream step is
    /// alive the router keeps waiting. Once the upstream step is terminated
    /// the edge is exhausted: the router shuts the downstream step down and
    /// ends.
    pub fn on_timeout(&self, sender_terminated: bool) -> (r: TimeoutVerdict)
        ensures
            r@ == self@.on_timeout(sender_terminated),
    {
        if sender_terminated {
            TimeoutVerdict::Finish(ModuleCall::Shutdown { handle: self.receiver })
        } else {
            TimeoutVerdict::KeepWaiting
        }
    }

    /// A record came. The result holds the calls to make on it, in order:
    /// every listener hears that the downstream step receives the record,
    /// then the downstream step processes it.
    pub fn on_record(&self) -> (r: Vec<ModuleCall>)
        ensures
            r.deep_view() == self@.on_record(),
    {
        let mut calls = self.notify_all(RecordEvent::Received);
        let ghost before = calls.deep_view();
        let call = ModuleCall::ProcessRecord { handle: self.receiver };
        calls.push(call);
        assert(calls.deep_view() =~= before.push(call@));
        calls
    }

    /// The downstream step has answered `result` on the record. The result
    /// holds the calls that end the handling of the record, in order: every
    /// listener hears that the record was sent, where the step succeeded,
    /// or that it failed; then the module that produced the record releases
    /// it, unless the downstream step took the record over.
    pub fn on_processed(&self, result: &ModulePipelineProcessRecordFnResult) -> (r: Vec<ModuleCall>)
        ensures
            r.deep_view() == self@.on_processed(*result),
    {
        let event = match result {
            ModulePipelineProcessRecordFnResult::Success(_) => RecordEvent::Sent,
            _ => RecordEvent::Failed,
        };
        let mut calls = self.notify_all(event);
        if !result.is_consumed() {
            let ghost before = calls.deep_view();
            let call = ModuleCall::FreeRecord { producer: self.sender };
            calls.push(call);
            assert(calls.deep_view() =~= before.push(call@));
        }
        calls
    }

    /// The line that the host logs when the downstream step fails on a
    /// record, `None` when it succeeds. A failure stops neither the router
    /// nor the pipeline.
    pub fn failure_report(&self, result: &ModulePipelineProcessRecordFnResult) -> (r: Option<String>)
        ensures
            r.deep_view() == self@.failure_report(*result),
    {
        match result {
            ModulePipelineProcessRecordFnResult::Success(_) => None,
            ModulePipelineProcessRecordFnResult::ErrWrongModuleHandle(handle, _) => {
                let mut report = String::from_str("Wrong module handle '");
                report.append(decimal_string(*handle as u64).as_str());
                report.append("'");
                Some(report)
            },
            ModulePipelineProcessRecordFnResult::ErrMisc(message, _) => {
                let mut report = String::from_str("Failed to process record in step '");
                report.append(self.receiver_id.as_str());
                report.append("': ");
                report.append(message.as_str());
                Some(report)
            },
        }
    }
}

/// The upstream handles of the routers, in their order.
pub open spec fn senders(routers: Seq<RecordRouterView>) -> Seq<usize> {
    routers.map_values(|router: RecordRouterView| router.sender)
}

/// The router that takes the records of the step with handle `producer`:
/// the position of the first router whose upstream step it is. A step
/// without a router emits into nothing, and the result is `None`.
pub fn find_router(routers: &Vec<RecordRouter>, producer: usize) -> (r: Option<usize>)
    ensures
        match r {
            Some(i) => is_first_index(senders(routers.deep_view()), producer, i as int),
            None => !senders(routers.deep_view()).contains(producer),
        },
{
    let mut i: usize = 0;
    while i < routers.len()
        invariant
            i <= routers.len(),
            forall|j: int| 0 <= j < i ==> senders(routers.deep_view())[j] != producer,
        decreases routers.len() - i,
    {
        if routers[i].sender == producer {
            return Some(i);
        }
        i += 1;
    }
    None
}

/// A record is released at most once, and by the module that produced it:
/// of the calls that a router makes for one record, none releases it where
/// the downstream step took the record over, and exactly one does where it
/// did not. That one is the last call and names the upstream step of the
/// router.
pub proof fn lemma_record_released_once(
    router: RecordRouterView,
    result: ModulePipelineProcessRecordFnResult,
)
    ensures
        free_calls(router.calls_for_record(result)) == if result.consumed() {
            0nat
        } else {
            1nat
        },
        forall|i: int|
            0 <= i < router.calls_for_record(result).len() && is_free_call(
                #[trigger] router.calls_for_record(result)[i],
            ) ==> {
                &&& i == router.calls_for_record(result).len() - 1
                &&& router.calls_for_record(result)[i] == (ModuleCallView::FreeRecord {
                    producer: router.sender,
                })
            },
{
    let keep = |call: ModuleCallView| is_free_call(call);
    let calls = router.calls_for_record(result);
    let kept = if result.consumed() {
        calls
    } else {
        calls.drop_last()
    };
    assert(forall|i: int| 0 <= i < kept.len() ==> !keep(#[trigger] kept[i]));
    kept.lemma_all_neg_filter_empty(keep);
    if !result.consumed() {
        assert(calls =~= kept.push(ModuleCallView::FreeRecord { producer: router.sender }));
        kept.lemma_filter_push(ModuleCallView::FreeRecord { producer: router.sender }, keep);
    }
}

} // verus!
