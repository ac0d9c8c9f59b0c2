//! The worker as one step function: an event in, outputs out.

use vstd::prelude::*;
use crate::outputs::{output_views, Output, OutputView};
use crate::protocol::handle_message;
use crate::text::{text_of, texts};
use crate::worker::{updated, AppSyncWorker, ControlMsg, WorkerView};

verus! {

/// What the driver reports to the worker.
#[derive(Debug, PartialEq)]
pub enum Event {
    /// The handshake ended: with the status of the response, or without a response.
    Handshake(Option<u16>),
    /// The credential refresh ended: with a new credential, or without one.
    Refreshed(Option<String>),
    /// The wait before the next attempt is over.
    BackoffElapsed,
    /// The application asked for something.
    Control(ControlMsg),
    /// The timer ticked and the topics were fetched anew, or could not be.
    Tick(Option<Vec<String>>),
    /// A text frame came in.
    Frame(String),
    /// The socket delivered a close frame, failed, or ended.
    SocketClosed,
}

/// `after` and `outputs` are what `event` makes of `before`. Where a step plans
/// subscriptions their ids are drawn at random, and this holds for the ids drawn.
pub open spec fn stepped(
    before: WorkerView,
    event: Event,
    after: WorkerView,
    outputs: Seq<OutputView>,
) -> bool {
    match event {
        Event::Handshake(status) => after == before.on_handshake(status).worker && outputs
            == before.on_handshake(status).outputs,
        Event::Refreshed(outcome) => after == before.on_refreshed(text_of(outcome)).worker
            && outputs == before.on_refreshed(text_of(outcome)).outputs,
        Event::BackoffElapsed => after == before.on_backoff_elapsed().worker && outputs
            == before.on_backoff_elapsed().outputs,
        Event::Control(ControlMsg::Stop) => after == before.on_stop().worker && outputs
            == before.on_stop().outputs,
        Event::Control(ControlMsg::UpdateSubscriptions { streamer_ids }) => updated(
            before,
            texts(streamer_ids@),
            after,
            outputs,
        ),
        Event::Tick(Some(streamer_ids)) => updated(before, texts(streamer_ids@), after, outputs),
        Event::Tick(None) => after == before && outputs == Seq::<OutputView>::empty(),
        Event::Frame(text) => after == before.on_text(text@).worker && outputs == before.on_text(
            text@,
        ).outputs,
        Event::SocketClosed => after == before.on_socket_closed().worker && outputs
            == before.on_socket_closed().outputs,
    }
}

impl AppSyncWorker {
    /// Takes one event and says what to do about it. What to wait for afterwards is
    /// [`AppSyncWorker::next`].
    pub fn step(&mut self, event: Event) -> (outputs: Vec<Output>)
        requires
            old(self).wf(),
        ensures
            final(self).wf(),
            stepped(old(self)@, event, final(self)@, output_views(outputs@)),
    {
        match event {
            Event::Handshake(status) => self.on_handshake(status),
            Event::Refreshed(outcome) => self.on_refreshed(outcome),
            Event::BackoffElapsed => self.on_backoff_elapsed(),
            Event::Control(msg) => self.on_control(msg),
            Event::Tick(fetched) => {
                let outputs = self.on_tick(fetched);
                assert(outputs@.len() == 0 ==> output_views(outputs@) =~= Seq::<
                    OutputView,
                >::empty());
                outputs
            },
            Event::Frame(text) => handle_message(self, text.as_str()),
            Event::SocketClosed => self.on_socket_closed(),
        }
    }
}

} // verus!
