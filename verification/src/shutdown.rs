//! What the host does when the operating system interrupts it.
//!
//! The first interrupt asks for a graceful shutdown: the first step is shut
//! down, and the rest of the chain follows by itself. A further interrupt
//! ends the process at once, whatever state the components are in.

use vstd::prelude::*;
use crate::abi::{ModuleCall, ModuleCallView};
use crate::pipeline::pipeline::{Pipeline, PipelineView};

verus! {

/// The answer of the host to an interrupt.
#[derive(PartialEq, Eq, Debug)]
pub enum SignalResponse {
    /// The host makes these calls and goes on running.
    Graceful(Vec<ModuleCall>),
    /// The host ends the process at once.
    Forced,
}

/// A [`SignalResponse`] with its calls as values of [`ModuleCallView`].
pub enum SignalResponseView {
    Graceful(Seq<ModuleCallView>),
    Forced,
}

impl View for SignalResponse {
    type V = SignalResponseView;

    open spec fn view(&self) -> SignalResponseView {
        match self {
            SignalResponse::Graceful(calls) => SignalResponseView::Graceful(calls.deep_view()),
            SignalResponse::Forced => SignalResponseView::Forced,
        }
    }
}

/// Remembers whether a graceful shutdown has been asked for.
#[derive(PartialEq, Eq, Structural, Clone, Copy, Debug)]
pub struct ShutdownCoordinator {
    pub graceful_shutdown_requested: bool,
}

/// The calls of a graceful shutdown. Where the pipeline is not registered
/// yet there is nothing to call.
pub open spec fn graceful_calls(pipeline: Option<PipelineView>) -> Seq<ModuleCallView> {
    match pipeline {
        Some(p) => p.termination_calls(),
        None => Seq::empty(),
    }
}

/// The answer to an interrupt of a host that has, or has not, been asked
/// for a graceful shutdown before.
pub open spec fn signal_response(
    requested_before: bool,
    pipeline: Option<PipelineView>,
) -> SignalResponseView {
    if requested_before {
        SignalResponseView::Forced
    } else {
        SignalResponseView::Graceful(graceful_calls(pipeline))
    }
}

impl ShutdownCoordinator {
    /// A coordinator that has seen no interrupt.
    pub fn new() -> (r: ShutdownCoordinator)
        ensures
            !r.graceful_shutdown_requested,
    {
        ShutdownCoordinator { graceful_shutdown_requested: false }
    }

    /// Takes an interrupt. `pipeline` is the registered pipeline, `None`
    /// while there is none.
    ///
    /// The first interrupt is answered with the calls of a graceful
    /// shutdown, and is remembered. Every later one is answered with
    /// [`SignalResponse::Forced`].
    pub fn on_signal(&mut self, pipeline: Option<&Pipeline>) -> (r: SignalResponse)
        ensures
            final(self).graceful_shutdown_requested,
            r@ == signal_response(
                old(self).graceful_shutdown_requested,
                match pipeline {
                    Some(p) => Some(p@),
                    None => None,
                },
            ),
    {
        if self.graceful_shutdown_requested {
            SignalResponse::Forced
        } else {
            self.graceful_shutdown_requested = true;
            match pipeline {
                Some(p) => SignalResponse::Graceful(p.trigger_termination()),
                None => {
                    let calls: Vec<ModuleCall> = Vec::new();
                    assert(calls.deep_view() =~= Seq::<ModuleCallView>::empty());
                    SignalResponse::Graceful(calls)
                },
            }
        }
    }
}

/// Two interrupts in a row: the first is answered with exactly one call,
/// the shutdown of the first step, and not with the end of the process; the
/// second is answered with the end of the process, whatever has become of
/// the pipeline in between.
pub proof fn lemma_two_interrupts(first: PipelineView, second: Option<PipelineView>)
    requires
        first.steps.len() > 0,
    ensures
        signal_response(false, Some(first)) == SignalResponseView::Graceful(
            seq![ModuleCallView::Shutdown { handle: first.steps[0].component.handle }],
        ),
        signal_response(true, second) == SignalResponseView::Forced,
{
}

} // verus!
