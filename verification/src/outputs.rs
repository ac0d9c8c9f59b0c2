//! What the worker asks its driver to do after an event.

use vstd::prelude::*;
use crate::frames::{Frame, FrameView};
use crate::json::{Json, JsonValue};
use crate::text::text_of;

verus! {

/// The application event for one update that came in on a subscription.
#[derive(Debug, PartialEq)]
pub struct StreamerUpdateEvent {
    /// The subscription the update came in on, where the frame named one.
    pub sub_id: Option<String>,
    /// The topic the update is about, where the payload names one.
    pub broadcaster_id: Option<String>,
    /// The result that the frame carried.
    pub payload: Json,
}

/// The mathematical value of a [`StreamerUpdateEvent`].
pub struct EventView {
    pub sub_id: Option<Seq<char>>,
    pub broadcaster_id: Option<Seq<char>>,
    pub payload: JsonValue,
}

impl View for StreamerUpdateEvent {
    type V = EventView;

    open spec fn view(&self) -> EventView {
        EventView {
            sub_id: text_of(self.sub_id),
            broadcaster_id: text_of(self.broadcaster_id),
            payload: self.payload@,
        }
    }
}

/// A request to show the user a notification.
#[derive(Debug, PartialEq)]
pub struct Notification {
    pub heading: String,
    pub body: String,
    /// The name of the topic's owner, for whoever acts on the notification.
    pub name: String,
}

/// The mathematical value of a [`Notification`].
pub struct NotificationView {
    pub heading: Seq<char>,
    pub body: Seq<char>,
    pub name: Seq<char>,
}

impl View for Notification {
    type V = NotificationView;

    open spec fn view(&self) -> NotificationView {
        NotificationView { heading: self.heading@, body: self.body@, name: self.name@ }
    }
}

/// One thing for the driver to do, in the order given.
#[derive(Debug, PartialEq)]
pub enum Output {
    /// Send this frame as a text message.
    Send(Frame),
    /// Close the socket.
    Close,
    /// These topic ids are no numbers and were passed over: log them.
    Skipped(Vec<String>),
    /// Register these topics for delivery; failures are logged and go no further.
    Register(Vec<u64>),
    /// Hand this event to the application.
    Emit(StreamerUpdateEvent),
    /// Ask for this notification to be shown.
    Notify(Notification),
}

/// The mathematical value of an [`Output`].
pub enum OutputView {
    Send(FrameView),
    Close,
    Skipped(Seq<Seq<char>>),
    Register(Seq<u64>),
    Emit(EventView),
    Notify(NotificationView),
}

impl View for Output {
    type V = OutputView;

    open spec fn view(&self) -> OutputView {
        match self {
            Output::Send(frame) => OutputView::Send(frame@),
            Output::Close => OutputView::Close,
            Output::Skipped(ids) => OutputView::Skipped(crate::text::texts(ids@)),
            Output::Register(topics) => OutputView::Register(topics@),
            Output::Emit(event) => OutputView::Emit(event@),
            Output::Notify(notification) => OutputView::Notify(notification@),
        }
    }
}

/// The mathematical values of a list of outputs, in order.
pub open spec fn output_views(outputs: Seq<Output>) -> Seq<OutputView> {
    outputs.map_values(|o: Output| o@)
}

/// One `Send` for each frame, in order.
pub open spec fn sends(frames: Seq<FrameView>) -> Seq<OutputView> {
    frames.map_values(|f: FrameView| OutputView::Send(f))
}

/// Turns a list of frames into the outputs that send them.
pub fn send_all(frames: Vec<Frame>) -> (outputs: Vec<Output>)
    ensures
        output_views(outputs@) == sends(crate::frames::frame_views(frames@)),
{
    let mut outputs: Vec<Output> = Vec::new();
    let ghost items = frames@;
    for frame in iter: frames
        invariant
            iter.seq() == items,
            outputs@.len() == iter.index(),
            forall|k: int| 0 <= k < outputs@.len() ==> (#[trigger] outputs@[k])@ == OutputView::Send(
                items[k]@,
            ),
    {
        outputs.push(Output::Send(frame));
    }
    assert(output_views(outputs@) =~= sends(crate::frames::frame_views(items)));
    outputs
}

} // verus!
