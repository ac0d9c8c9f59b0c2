//! The control channel's gate: at most one client runs at a time, and requests are
//! only made of a running one.

use vstd::prelude::*;
use vstd::string::*;
use crate::pending::StrSet;
use crate::text::texts;
use crate::worker::ControlMsg;

verus! {

/// Whether a client is running. There is one of these per process; the sender of the
/// control channel lives beside it.
#[derive(Debug)]
pub struct ClientRegistry {
    pub running: bool,
}

/// The topics that the application has asked for, in the order in which it asked.
pub type TopicSet = StrSet;

/// The error of a second start.
pub open spec fn already_running() -> Seq<char> {
    "Client is already running."@
}

/// The error of a request to a client that was never started.
pub open spec fn not_running() -> Seq<char> {
    "Client is not running."@
}

/// The error of a change of topics asked of a client that was never started.
pub open spec fn no_client() -> Seq<char> {
    "client not running"@
}

/// The characters of an error, where the result is one.
pub open spec fn error_text<T>(result: Result<T, String>) -> Option<Seq<char>> {
    match result {
        Ok(_) => None,
        Err(e) => Some(e@),
    }
}

impl ClientRegistry {
    /// A registry with no client running.
    pub fn new() -> (registry: Self)
        ensures
            !registry.running,
    {
        ClientRegistry { running: false }
    }
}

/// Claims the one place for a client. A second claim is refused and changes nothing.
pub fn start_ws_client(registry: &mut ClientRegistry) -> (result: Result<(), String>)
    ensures
        final(registry).running,
        old(registry).running ==> error_text(result) == Some(already_running()),
        !old(registry).running ==> result is Ok,
{
    if registry.running {
        return Err(String::from_str("Client is already running."));
    }
    registry.running = true;
    Ok(())
}

/// Gives the place back once the worker has ended, so that a client can be started
/// again.
pub fn client_stopped(registry: &mut ClientRegistry)
    ensures
        !final(registry).running,
{
    registry.running = false;
}

/// Asks the running client to stop: the message to put on the control channel. Where
/// no client was started there is none to ask.
pub fn stop_ws_client(registry: &ClientRegistry) -> (result: Result<ControlMsg, String>)
    ensures
        registry.running ==> result matches Ok(ControlMsg::Stop),
        !registry.running ==> error_text(result) == Some(not_running()),
{
    if !registry.running {
        return Err(String::from_str("Client is not running."));
    }
    Ok(ControlMsg::Stop)
}

/// What the window is told at start: to ask for a login where no credential is held,
/// and nothing otherwise.
pub fn on_startup(credential: &Option<String>) -> (prompt: Option<String>)
    ensures
        credential is None ==> crate::text::text_of(prompt) == Some("log_in"@),
        credential is Some ==> prompt is None,
{
    match credential {
        None => Some(String::from_str("log_in")),
        Some(_) => None,
    }
}

/// The update that tells the worker of the topics in `topics`.
pub open spec fn is_update_to(msg: ControlMsg, topics: Seq<Seq<char>>) -> bool {
    msg matches ControlMsg::UpdateSubscriptions { streamer_ids } && texts(streamer_ids@) == topics
}

/// Adds a topic to those asked for and makes the update that tells the worker of all
/// of them. Refused, with nothing changed, where no client was started.
pub fn add_subscription(
    registry: &ClientRegistry,
    topics: &mut TopicSet,
    broadcaster_id: String,
) -> (result: Result<ControlMsg, String>)
    requires
        old(topics).wf(),
    ensures
        final(topics).wf(),
        registry.running ==> final(topics)@ == old(topics)@.insert(broadcaster_id@) && (
        result matches Ok(msg) && is_update_to(msg, final(topics).members())),
        registry.running ==> final(topics).members() == if old(topics)@.contains(
            broadcaster_id@,
        ) {
            old(topics).members()
        } else {
            old(topics).members().push(broadcaster_id@)
        },
        !registry.running ==> *final(topics) == *old(topics) && error_text(result) == Some(
            no_client(),
        ),
{
    if !registry.running {
        return Err(String::from_str("client not running"));
    }
    let _ = topics.insert(broadcaster_id);
    Ok(ControlMsg::UpdateSubscriptions { streamer_ids: topics.to_vec() })
}

/// Takes a topic out of those asked for and makes the update that tells the worker of
/// the rest. Refused, with nothing changed, where no client was started.
pub fn remove_subscription(
    registry: &ClientRegistry,
    topics: &mut TopicSet,
    broadcaster_id: String,
) -> (result: Result<ControlMsg, String>)
    requires
        old(topics).wf(),
    ensures
        final(topics).wf(),
        registry.running ==> final(topics)@ == old(topics)@.remove(broadcaster_id@) && (
        result matches Ok(msg) && is_update_to(msg, final(topics).members())),
        registry.running ==> final(topics).members() == if old(topics)@.contains(
            broadcaster_id@,
        ) {
            old(topics).members().remove(old(topics).members().index_of(broadcaster_id@))
        } else {
            old(topics).members()
        },
        !registry.running ==> *final(topics) == *old(topics) && error_text(result) == Some(
            no_client(),
        ),
{
    if !registry.running {
        return Err(String::from_str("client not running"));
    }
    let _ = topics.remove(broadcaster_id.as_str());
    Ok(ControlMsg::UpdateSubscriptions { streamer_ids: topics.to_vec() })
}

} // verus!
