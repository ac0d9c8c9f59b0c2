//! The connection manager: one session at a time, from handshake to backoff.
//!
//! The worker is a state machine. Its driver performs what [`AppSyncWorker::next`]
//! names (connect, refresh the credential, listen, sleep), hands back what happened,
//! and carries out the outputs of each step in order.

use vstd::prelude::*;
use vstd::string::*;
use crate::backoff::{
    backoff_delay_ms, backoff_delay_ms_spec, next_attempt, next_attempt_spec, JITTER_MAX,
    JITTER_MIN,
};
use crate::chance::random_in_range;
use crate::codec::url_host;
use crate::frames::{init_frame, init_frame_view};
use crate::outputs::{output_views, send_all, sends, Output, OutputView};
use crate::text::{text_of, texts};
use crate::pending::PendingSet;
use crate::subscriptions::{
    generate_desired_subscriptions, ids_of, lemma_plan_ids, manage_subscriptions, plan,
    plan_fresh_subscriptions, plan_of, planned_with, reconcile_frames, reconcile_pending,
    DesiredSubscriptions, Planned,
    SubscriptionMap,
};
use crate::topics::{distinct, invalid_topics, topic_numbers, valid_topics};

verus! {

/// The status with which a server accepts a WebSocket handshake.
pub const SWITCHING_PROTOCOLS: u16 = 101;

/// Where the worker is in the life of a session.
#[derive(Debug, Clone, Copy, PartialEq, Eq, Structural)]
pub enum Phase {
    /// A handshake is to be made or under way.
    Connecting,
    /// The handshake was refused; a credential refresh is under way, and a new
    /// credential will be tried at once.
    RefreshingForHandshake,
    /// The attempt to connect brought no response; a credential refresh is under way,
    /// and the worker will wait whatever comes of it.
    RefreshingForFailure,
    /// The socket is open and `connection_init` was sent; no acknowledgement yet.
    Unacked,
    /// The server acknowledged the session.
    Acked,
    /// The server reported an authorization error; a credential refresh is under way
    /// and the socket will be closed after it.
    RefreshingForError,
    /// Waiting before the next attempt.
    BackingOff,
    /// Stopped for good.
    Stopped,
}

/// The state of the connection as seen from outside.
#[derive(Debug, Clone, Copy, PartialEq, Eq, Structural)]
pub enum ConnectionState {
    Disconnected,
    Connecting,
    ConnectedUnacked,
    ConnectedAcked,
}

/// What the driver does next.
#[derive(Debug, Clone, Copy, PartialEq, Eq, Structural)]
pub enum Next {
    /// Make the handshake with [`AppSyncWorker::connect_request`] and report its outcome
    /// to [`AppSyncWorker::on_handshake`].
    Connect,
    /// Try once to refresh the credential, within the time allowed, and report to
    /// [`AppSyncWorker::on_refreshed`].
    Refresh,
    /// Wait for whichever comes first: a control message, a timer tick, a frame.
    Listen,
    /// Sleep this many milliseconds, then call [`AppSyncWorker::on_backoff_elapsed`].
    Sleep(u64),
    /// Stop: the worker is done.
    Stop,
}

/// A request from the surrounding application.
#[derive(Debug, PartialEq)]
pub enum ControlMsg {
    /// Replace the set of topics of interest.
    UpdateSubscriptions { streamer_ids: Vec<String> },
    /// Close the session and stop for good.
    Stop,
}

/// The worker's state.
pub struct AppSyncWorker {
    /// The credential sent with the handshake and with every `start` frame.
    pub token: String,
    /// The host named in the authorization.
    pub http_uri: String,
    /// The host the socket connects to.
    pub realtime_uri: String,
    /// On whose behalf topics are fetched.
    pub user_id: String,
    /// What the worker has asked, or will ask, the current socket to maintain.
    pub active_subscriptions: SubscriptionMap,
    /// The subscriptions started on the current socket and not yet answered.
    pub pending_subscriptions: PendingSet,
    pub phase: Phase,
    /// Failed attempts since the last successful handshake.
    pub backoff_attempt: u32,
}

/// The mathematical value of an [`AppSyncWorker`].
pub struct WorkerView {
    pub token: Seq<char>,
    pub http_uri: Seq<char>,
    pub realtime_uri: Seq<char>,
    pub user_id: Seq<char>,
    pub active: Seq<Planned>,
    pub pending: Set<Seq<char>>,
    pub phase: Phase,
    pub backoff_attempt: u32,
}

/// A state together with the outputs of the step that led to it.
pub struct Reaction {
    pub worker: WorkerView,
    pub outputs: Seq<OutputView>,
}

impl View for AppSyncWorker {
    type V = WorkerView;

    open spec fn view(&self) -> WorkerView {
        WorkerView {
            token: self.token@,
            http_uri: self.http_uri@,
            realtime_uri: self.realtime_uri@,
            user_id: self.user_id@,
            active: plan_of(self.active_subscriptions),
            pending: self.pending_subscriptions@,
            phase: self.phase,
            backoff_attempt: self.backoff_attempt,
        }
    }
}

/// Whether a socket is open in this phase.
pub open spec fn socket_open(phase: Phase) -> bool {
    phase == Phase::Unacked || phase == Phase::Acked || phase == Phase::RefreshingForError
}

/// Whether frames are being read in this phase.
pub open spec fn listening(phase: Phase) -> bool {
    phase == Phase::Unacked || phase == Phase::Acked
}

impl WorkerView {
    /// No subscription id occurs twice; nothing is pending on a socket that was not
    /// acknowledged yet; on an acknowledged one, what is pending is among what is active.
    pub open spec fn wf(self) -> bool {
        &&& ids_of(self.active).no_duplicates()
        &&& self.pending.finite()
        &&& self.phase == Phase::Unacked ==> self.pending == Set::<Seq<char>>::empty()
        &&& self.phase == Phase::Acked ==> self.pending.subset_of(ids_of(self.active).to_set())
    }

    /// The state of the connection as seen from outside.
    pub open spec fn connection_state(self) -> ConnectionState {
        match self.phase {
            Phase::Connecting => ConnectionState::Connecting,
            Phase::Unacked => ConnectionState::ConnectedUnacked,
            Phase::Acked => ConnectionState::ConnectedAcked,
            _ => ConnectionState::Disconnected,
        }
    }

    /// The state after one more failed attempt: the counter goes up and the worker waits.
    pub open spec fn backed_off(self) -> WorkerView {
        WorkerView {
            phase: Phase::BackingOff,
            backoff_attempt: next_attempt_spec(self.backoff_attempt),
            ..self
        }
    }

    /// Nothing happens.
    pub open spec fn unchanged(self) -> Reaction {
        Reaction { worker: self, outputs: Seq::empty() }
    }

    /// The outcome of a handshake. Only status 101 opens the session: the counter of
    /// failed attempts goes back to zero, nothing is pending on the new socket, and
    /// `connection_init` goes out. Anything else calls for one credential refresh; what
    /// follows the refresh depends on whether there was a response at all.
    pub open spec fn on_handshake(self, status: Option<u16>) -> Reaction {
        if self.phase != Phase::Connecting {
            self.unchanged()
        } else {
            match status {
                Some(code) => if code == SWITCHING_PROTOCOLS {
                    Reaction {
                        worker: WorkerView {
                            phase: Phase::Unacked,
                            backoff_attempt: 0,
                            pending: Set::empty(),
                            ..self
                        },
                        outputs: seq![OutputView::Send(init_frame_view())],
                    }
                } else {
                    Reaction {
                        worker: WorkerView { phase: Phase::RefreshingForHandshake, ..self },
                        outputs: Seq::empty(),
                    }
                },
                None => Reaction {
                    worker: WorkerView { phase: Phase::RefreshingForFailure, ..self },
                    outputs: Seq::empty(),
                },
            }
        }
    }

    /// The token after a refresh attempt: the new one where there is one.
    pub open spec fn refreshed_token(self, outcome: Option<Seq<char>>) -> Seq<char> {
        match outcome {
            Some(token) => token,
            None => self.token,
        }
    }

    /// The outcome of a credential refresh. A new credential is kept in every case.
    /// After a refused handshake a new credential means connecting again at once, and
    /// none means a failed attempt. After an attempt without a response the attempt
    /// counts as failed whatever the outcome. After an authorization error the socket is
    /// closed and the attempt counts as failed whatever the outcome.
    pub open spec fn on_refreshed(self, outcome: Option<Seq<char>>) -> Reaction {
        if self.phase == Phase::RefreshingForHandshake {
            match outcome {
                Some(token) => Reaction {
                    worker: WorkerView { token, phase: Phase::Connecting, ..self },
                    outputs: Seq::empty(),
                },
                None => Reaction { worker: self.backed_off(), outputs: Seq::empty() },
            }
        } else if self.phase == Phase::RefreshingForFailure {
            Reaction {
                worker: WorkerView { token: self.refreshed_token(outcome), ..self }.backed_off(),
                outputs: Seq::empty(),
            }
        } else if self.phase == Phase::RefreshingForError {
            Reaction {
                worker: WorkerView { token: self.refreshed_token(outcome), ..self }.backed_off(),
                outputs: seq![OutputView::Close],
            }
        } else {
            self.unchanged()
        }
    }

    /// The wait is over: connect again.
    pub open spec fn on_backoff_elapsed(self) -> Reaction {
        if self.phase == Phase::BackingOff {
            Reaction {
                worker: WorkerView { phase: Phase::Connecting, ..self },
                outputs: Seq::empty(),
            }
        } else {
            self.unchanged()
        }
    }

    /// The socket was closed by the other side or failed: a failed attempt.
    pub open spec fn on_socket_closed(self) -> Reaction {
        if listening(self.phase) {
            Reaction { worker: self.backed_off(), outputs: Seq::empty() }
        } else {
            self.unchanged()
        }
    }

    /// A request to stop: an open socket is closed, and the worker is done.
    pub open spec fn on_stop(self) -> Reaction {
        if self.phase == Phase::Stopped {
            self.unchanged()
        } else {
            Reaction {
                worker: WorkerView { phase: Phase::Stopped, ..self },
                outputs: if socket_open(self.phase) {
                    seq![OutputView::Close]
                } else {
                    Seq::empty()
                },
            }
        }
    }

    /// The outputs that register `topics`: one, unless there is nothing to register.
    pub open spec fn registration(topics: Seq<u64>) -> Seq<OutputView> {
        if topics.len() > 0 {
            seq![OutputView::Register(topics)]
        } else {
            Seq::empty()
        }
    }

    /// The outputs that tell of topic ids passed over: one, unless there are none.
    pub open spec fn passed_over(skipped: Seq<Seq<char>>) -> Seq<OutputView> {
        if skipped.len() > 0 {
            seq![OutputView::Skipped(skipped)]
        } else {
            Seq::empty()
        }
    }

    /// What a plan tells the driver before any frame: the topic ids passed over, then
    /// the topics to register.
    pub open spec fn notices(skipped: Seq<Seq<char>>, register: Seq<u64>) -> Seq<OutputView> {
        Self::passed_over(skipped) + Self::registration(register)
    }

    /// A new desired map takes the place of the active one. On an acknowledged socket
    /// the difference goes out as frames, every `stop` before every `start`, and the
    /// pending set follows; otherwise no frame is sent. The notices come first.
    pub open spec fn apply_desired(
        self,
        desired: Seq<Planned>,
        skipped: Seq<Seq<char>>,
        register: Seq<u64>,
    ) -> Reaction {
        if self.phase == Phase::Acked {
            Reaction {
                worker: WorkerView {
                    active: desired,
                    pending: reconcile_pending(
                        self.pending,
                        ids_of(self.active).to_set(),
                        ids_of(desired).to_set(),
                    ),
                    ..self
                },
                outputs: Self::notices(skipped, register) + sends(
                    reconcile_frames(self.active, desired, self.token, self.http_uri),
                ),
            }
        } else {
            Reaction {
                worker: WorkerView { active: desired, ..self },
                outputs: Self::notices(skipped, register),
            }
        }
    }

    /// The server acknowledged the session: every active subscription is started.
    pub open spec fn on_connection_ack(self) -> Reaction {
        if listening(self.phase) {
            Reaction {
                worker: WorkerView {
                    phase: Phase::Acked,
                    pending: reconcile_pending(
                        self.pending,
                        Set::empty(),
                        ids_of(self.active).to_set(),
                    ),
                    ..self
                },
                outputs: sends(
                    reconcile_frames(Seq::empty(), self.active, self.token, self.http_uri),
                ),
            }
        } else {
            self.unchanged()
        }
    }
}

/// An update leaves the desired map in place of the active one, whatever the state. On
/// an acknowledged session its frames are one `stop` for each id that only the old map
/// held and one `start` for each id that only the new map holds, after the notices; in
/// any other state no frame goes out.
pub proof fn update_emits_the_difference(
    w: WorkerView,
    desired: Seq<Planned>,
    skipped: Seq<Seq<char>>,
    register: Seq<u64>,
)
    requires
        w.wf(),
        ids_of(desired).no_duplicates(),
    ensures
        w.apply_desired(desired, skipped, register).worker.active == desired,
        w.apply_desired(desired, skipped, register).worker.wf(),
        w.phase == Phase::Acked ==> w.apply_desired(desired, skipped, register).outputs
            == WorkerView::notices(skipped, register) + sends(
            reconcile_frames(w.active, desired, w.token, w.http_uri),
        ),
        crate::subscriptions::count_kind(
            reconcile_frames(w.active, desired, w.token, w.http_uri),
            crate::frames::FrameKind::Stop,
        ) == ids_of(w.active).to_set().difference(ids_of(desired).to_set()).len(),
        crate::subscriptions::count_kind(
            reconcile_frames(w.active, desired, w.token, w.http_uri),
            crate::frames::FrameKind::Start,
        ) == ids_of(desired).to_set().difference(ids_of(w.active).to_set()).len(),
        w.phase != Phase::Acked ==> w.apply_desired(desired, skipped, register).outputs
            == WorkerView::notices(skipped, register),
{
    crate::subscriptions::reconcile_emits_the_difference(w.active, desired, w.token, w.http_uri);
    vstd::seq_lib::seq_to_set_is_finite(ids_of(desired));
    vstd::seq_lib::seq_to_set_is_finite(ids_of(w.active));
}

/// An update on an acknowledged session renews every subscription: since the ids it
/// draws are new, every old subscription is stopped and every planned one is started,
/// also where the topics are the same as before. Afterwards exactly the new ids are
/// active and pending.
pub proof fn update_renews_every_subscription(
    w: WorkerView,
    topic_ids: Seq<Seq<char>>,
    ids: Seq<Seq<char>>,
)
    requires
        w.wf(),
        w.phase == Phase::Acked,
        fresh_for(w, topic_ids, ids),
    ensures
        ids_of(planned_update(w, topic_ids, ids).worker.active) == ids,
        planned_update(w, topic_ids, ids).worker.active.len() == valid_topics(
            distinct(topic_ids),
        ).len(),
        planned_update(w, topic_ids, ids).worker.pending == ids.to_set(),
        planned_update(w, topic_ids, ids).worker.wf(),
        crate::subscriptions::count_kind(
            reconcile_frames(
                w.active,
                plan(valid_topics(distinct(topic_ids)), ids),
                w.token,
                w.http_uri,
            ),
            crate::frames::FrameKind::Stop,
        ) == w.active.len(),
        crate::subscriptions::count_kind(
            reconcile_frames(
                w.active,
                plan(valid_topics(distinct(topic_ids)), ids),
                w.token,
                w.http_uri,
            ),
            crate::frames::FrameKind::Start,
        ) == ids.len(),
        forall|i: int|
            0 <= i < w.active.len() ==> !ids.contains(#[trigger] ids_of(w.active)[i]),
{
    let wanted = valid_topics(distinct(topic_ids));
    let desired = plan(wanted, ids);
    let old_ids = ids_of(w.active);
    crate::subscriptions::plan_with_distinct_ids(wanted, ids, wanted.len() as int);
    assert(ids_of(desired) =~= ids);
    crate::subscriptions::reconcile_emits_the_difference(w.active, desired, w.token, w.http_uri);
    vstd::seq_lib::seq_to_set_is_finite(ids);
    vstd::seq_lib::seq_to_set_is_finite(old_ids);
    old_ids.unique_seq_to_set();
    ids.unique_seq_to_set();
    assert(old_ids.to_set().difference(ids.to_set()) =~= old_ids.to_set());
    assert(ids.to_set().difference(old_ids.to_set()) =~= ids.to_set());
    assert(old_ids.len() == w.active.len());
    assert(planned_update(w, topic_ids, ids).worker.pending =~= ids.to_set());
    assert forall|i: int| 0 <= i < w.active.len() implies !ids.contains(
        #[trigger] ids_of(w.active)[i],
    ) by {
        if ids.contains(old_ids[i]) {
            let j = choose|j: int| 0 <= j < ids.len() && ids[j] == old_ids[i];
            assert(old_ids.contains(ids[j]));
        }
    }
}

/// Whether `ms` is the backoff delay after `attempt` failed attempts for some jitter
/// factor from one half up to, but not reaching, one and a half.
pub open spec fn jittered_delay(attempt: u32, ms: u64) -> bool {
    exists|jitter: u64|
        JITTER_MIN <= jitter < JITTER_MAX && ms == #[trigger] backoff_delay_ms_spec(
            attempt,
            jitter,
        )
}

/// What starting a worker hands back: the worker, and what to do before connecting.
pub struct Launch {
    pub worker: AppSyncWorker,
    pub outputs: Vec<Output>,
}

impl AppSyncWorker {
    /// The maps are well formed and so is the state they stand for.
    pub open spec fn wf(&self) -> bool {
        &&& self.active_subscriptions.wf()
        &&& self.pending_subscriptions.wf()
        &&& self@.wf()
    }

    /// A worker about to make its first handshake, subscribed to those of
    /// `initial_streamers` that are numbers, each once.
    ///
    /// The subscription ids are drawn at random and all differ; the active map is
    /// stated for whichever ids were drawn.
    pub fn new(
        token: String,
        http_uri: String,
        realtime_uri: String,
        user_id: String,
        initial_streamers: &Vec<String>,
    ) -> (launch: Launch)
        ensures
            launch.worker.wf(),
            launch.worker@.token == token@,
            launch.worker@.http_uri == http_uri@,
            launch.worker@.realtime_uri == realtime_uri@,
            launch.worker@.user_id == user_id@,
            launch.worker@.phase == Phase::Connecting,
            launch.worker@.backoff_attempt == 0,
            launch.worker@.pending == Set::<Seq<char>>::empty(),
            launch.worker@.active.len() == valid_topics(
                distinct(texts(initial_streamers@)),
            ).len(),
            exists|ids: Seq<Seq<char>>|
                ids.len() == valid_topics(distinct(texts(initial_streamers@))).len()
                    && ids.no_duplicates() && launch.worker@.active == #[trigger] plan(
                    valid_topics(distinct(texts(initial_streamers@))),
                    ids,
                ),
            output_views(launch.outputs@) == WorkerView::notices(
                invalid_topics(distinct(texts(initial_streamers@))),
                topic_numbers(distinct(texts(initial_streamers@))),
            ),
    {
        let desired = generate_desired_subscriptions(initial_streamers);
        let ghost ids = choose|ids: Seq<Seq<char>>| #[trigger]
            planned_with(desired, texts(initial_streamers@), Set::empty(), ids);
        let pending_subscriptions = PendingSet::new();
        proof {
            lemma_plan_ids(desired.subscriptions);
            pending_subscriptions.lemma_finite();
            assert(plan_of(desired.subscriptions) == plan(
                valid_topics(distinct(texts(initial_streamers@))),
                ids,
            ));
        }
        let outputs = notice_outputs(desired.skipped, desired.register);
        let worker = AppSyncWorker {
            token,
            http_uri,
            realtime_uri,
            user_id,
            active_subscriptions: desired.subscriptions,
            pending_subscriptions,
            phase: Phase::Connecting,
            backoff_attempt: 0,
        };
        Launch { worker, outputs }
    }

    /// Tests whether the state is well formed, for callers that nothing else holds to
    /// it: the two collections keep themselves well formed, the rest is tested here.
    pub fn is_consistent(&self) -> (consistent: bool)
        requires
            self.active_subscriptions.wf(),
            self.pending_subscriptions.wf(),
        ensures
            consistent == self.wf(),
    {
        proof {
            lemma_plan_ids(self.active_subscriptions);
            self.pending_subscriptions.lemma_finite();
            self.pending_subscriptions.lemma_members();
        }
        if self.phase == Phase::Unacked {
            let empty = self.pending_subscriptions.len() == 0;
            proof {
                if empty {
                    assert(self.pending_subscriptions@ =~= Set::<Seq<char>>::empty());
                }
            }
            empty
        } else if self.phase == Phase::Acked {
            let ids = self.pending_subscriptions.to_vec();
            let ghost members = self.pending_subscriptions.members();
            let mut i: usize = 0;
            while i < ids.len()
                invariant
                    i <= ids@.len(),
                    self.phase == Phase::Acked,
                    self.active_subscriptions.wf(),
                    self.pending_subscriptions.wf(),
                    self.pending_subscriptions@.finite(),
                    ids_of(plan_of(self.active_subscriptions)) == self.active_subscriptions.keys(),
                    texts(ids@) == members,
                    members.to_set() == self.pending_subscriptions@,
                    forall|k: int|
                        0 <= k < i ==> self.active_subscriptions.has(#[trigger] members[k]),
                decreases ids@.len() - i,
            {
                assert(members[i as int] == ids@[i as int]@);
                if !self.active_subscriptions.contains_key(ids[i].as_str()) {
                    assert(self.pending_subscriptions@.contains(members[i as int]));
                    assert(!ids_of(self@.active).to_set().contains(members[i as int]));
                    return false;
                }
                i = i + 1;
            }
            assert forall|id: Seq<char>| self.pending_subscriptions@.contains(id) implies ids_of(
                self@.active,
            ).to_set().contains(id) by {
                let k = choose|k: int| 0 <= k < members.len() && members[k] == id;
                assert(self.active_subscriptions.has(members[k]));
            }
            true
        } else {
            true
        }
    }

    /// The state of the connection as seen from outside.
    pub fn connection_state(&self) -> (state: ConnectionState)
        ensures
            state == self@.connection_state(),
    {
        match self.phase {
            Phase::Connecting => ConnectionState::Connecting,
            Phase::Unacked => ConnectionState::ConnectedUnacked,
            Phase::Acked => ConnectionState::ConnectedAcked,
            _ => ConnectionState::Disconnected,
        }
    }

    /// Whether the server has acknowledged the current session.
    pub fn is_connected(&self) -> (connected: bool)
        ensures
            connected == (self@.phase == Phase::Acked),
    {
        self.phase == Phase::Acked
    }

    /// What the driver does next. While the worker waits, the delay is the backoff
    /// delay for the current count of failed attempts, with a jitter factor drawn
    /// anew at every call from one half up to, but not reaching, one and a half.
    pub fn next(&self) -> (next: Next)
        ensures
            match self@.phase {
                Phase::Connecting => next == Next::Connect,
                Phase::RefreshingForHandshake => next == Next::Refresh,
                Phase::RefreshingForFailure => next == Next::Refresh,
                Phase::RefreshingForError => next == Next::Refresh,
                Phase::Unacked => next == Next::Listen,
                Phase::Acked => next == Next::Listen,
                Phase::Stopped => next == Next::Stop,
                Phase::BackingOff => next matches Next::Sleep(ms) && jittered_delay(
                    self@.backoff_attempt,
                    ms,
                ),
            },
    {
        match self.phase {
            Phase::Connecting => Next::Connect,
            Phase::RefreshingForHandshake => Next::Refresh,
            Phase::RefreshingForFailure => Next::Refresh,
            Phase::RefreshingForError => Next::Refresh,
            Phase::Unacked => Next::Listen,
            Phase::Acked => Next::Listen,
            Phase::Stopped => Next::Stop,
            Phase::BackingOff => {
                let jitter: u64 = random_in_range(JITTER_MIN, JITTER_MAX);
                let ms: u64 = backoff_delay_ms(self.backoff_attempt, jitter);
                assert(ms == backoff_delay_ms_spec(self.backoff_attempt, jitter));
                Next::Sleep(ms)
            },
        }
    }

    /// The upgrade request for the next handshake; `None` where the address of the
    /// realtime host is no URL with a host.
    pub fn connect_request(&self) -> (request: Option<crate::handshake::UpgradeRequest>)
        ensures
            match url_host(crate::handshake::endpoint(self@.realtime_uri)) {
                Some(Some(host)) => request matches Some(r) && r@
                    == crate::handshake::upgrade_request_view(
                    self@.token,
                    self@.http_uri,
                    self@.realtime_uri,
                    host,
                    crate::handshake::key_of(r@),
                ),
                _ => request is None,
            },
    {
        crate::handshake::connect_request(
            self.token.as_str(),
            self.http_uri.as_str(),
            self.realtime_uri.as_str(),
        )
    }

    /// Counts one more failed attempt and starts waiting.
    pub(crate) fn back_off(&mut self)
        requires
            old(self).wf(),
        ensures
            final(self).wf(),
            final(self)@ == old(self)@.backed_off(),
    {
        self.backoff_attempt = next_attempt(self.backoff_attempt);
        self.phase = Phase::BackingOff;
    }

    /// Takes the outcome of a handshake: the status of the response, or `None` where
    /// the attempt brought no response (the address is no URL, the host cannot be
    /// reached, the connection fails).
    pub fn on_handshake(&mut self, status: Option<u16>) -> (outputs: Vec<Output>)
        requires
            old(self).wf(),
        ensures
            final(self).wf(),
            final(self)@ == old(self)@.on_handshake(status).worker,
            output_views(outputs@) == old(self)@.on_handshake(status).outputs,
    {
        let mut outputs: Vec<Output> = Vec::new();
        if self.phase == Phase::Connecting {
            match status {
                Some(code) => {
                    if code == SWITCHING_PROTOCOLS {
                        self.phase = Phase::Unacked;
                        self.backoff_attempt = 0;
                        self.pending_subscriptions.clear();
                        outputs.push(Output::Send(init_frame()));
                        proof {
                            self.pending_subscriptions.lemma_finite();
                        }
                    } else {
                        self.phase = Phase::RefreshingForHandshake;
                    }
                },
                None => {
                    self.phase = Phase::RefreshingForFailure;
                },
            }
        }
        assert(output_views(outputs@) =~= old(self)@.on_handshake(status).outputs);
        outputs
    }

    /// Takes the outcome of a credential refresh: the new credential, or `None` where
    /// there was no refresh credential, the refresh failed, or it took too long.
    pub fn on_refreshed(&mut self, outcome: Option<String>) -> (outputs: Vec<Output>)
        requires
            old(self).wf(),
        ensures
            final(self).wf(),
            final(self)@ == old(self)@.on_refreshed(text_of(outcome)).worker,
            output_views(outputs@) == old(self)@.on_refreshed(text_of(outcome)).outputs,
    {
        let ghost seen = text_of(outcome);
        let mut outputs: Vec<Output> = Vec::new();
        if self.phase == Phase::RefreshingForHandshake {
            match outcome {
                Some(token) => {
                    self.token = token;
                    self.phase = Phase::Connecting;
                },
                None => {
                    self.back_off();
                },
            }
        } else if self.phase == Phase::RefreshingForFailure || self.phase
            == Phase::RefreshingForError {
            let closing = self.phase == Phase::RefreshingForError;
            match outcome {
                Some(token) => {
                    self.token = token;
                },
                None => {},
            }
            self.back_off();
            if closing {
                outputs.push(Output::Close);
            }
        }
        assert(output_views(outputs@) =~= old(self)@.on_refreshed(seen).outputs);
        outputs
    }

    /// The wait before the next attempt is over.
    pub fn on_backoff_elapsed(&mut self) -> (outputs: Vec<Output>)
        requires
            old(self).wf(),
        ensures
            final(self).wf(),
            final(self)@ == old(self)@.on_backoff_elapsed().worker,
            output_views(outputs@) == old(self)@.on_backoff_elapsed().outputs,
    {
        if self.phase == Phase::BackingOff {
            self.phase = Phase::Connecting;
        }
        let outputs: Vec<Output> = Vec::new();
        assert(output_views(outputs@) =~= Seq::<OutputView>::empty());
        outputs
    }

    /// The socket delivered a close frame, failed, or ended.
    pub fn on_socket_closed(&mut self) -> (outputs: Vec<Output>)
        requires
            old(self).wf(),
        ensures
            final(self).wf(),
            final(self)@ == old(self)@.on_socket_closed().worker,
            output_views(outputs@) == old(self)@.on_socket_closed().outputs,
    {
        if self.phase == Phase::Unacked || self.phase == Phase::Acked {
            self.back_off();
        }
        let outputs: Vec<Output> = Vec::new();
        assert(output_views(outputs@) =~= Seq::<OutputView>::empty());
        outputs
    }

    /// Stops the worker for good.
    pub fn on_stop(&mut self) -> (outputs: Vec<Output>)
        requires
            old(self).wf(),
        ensures
            final(self).wf(),
            final(self)@ == old(self)@.on_stop().worker,
            output_views(outputs@) == old(self)@.on_stop().outputs,
    {
        let mut outputs: Vec<Output> = Vec::new();
        if self.phase != Phase::Stopped {
            if self.phase == Phase::Unacked || self.phase == Phase::Acked || self.phase
                == Phase::RefreshingForError {
                outputs.push(Output::Close);
            }
            self.phase = Phase::Stopped;
        }
        assert(output_views(outputs@) =~= old(self)@.on_stop().outputs);
        outputs
    }

    /// Puts a planned set of subscriptions in place of the active one.
    pub fn apply_desired(&mut self, desired: DesiredSubscriptions) -> (outputs: Vec<Output>)
        requires
            old(self).wf(),
            desired.subscriptions.wf(),
        ensures
            final(self).wf(),
            final(self)@ == old(self)@.apply_desired(
                plan_of(desired.subscriptions),
                texts(desired.skipped@),
                desired.register@,
            ).worker,
            output_views(outputs@) == old(self)@.apply_desired(
                plan_of(desired.subscriptions),
                texts(desired.skipped@),
                desired.register@,
            ).outputs,
    {
        proof {
            lemma_plan_ids(desired.subscriptions);
            lemma_plan_ids(self.active_subscriptions);
        }
        let mut outputs = notice_outputs(desired.skipped, desired.register);
        if self.phase == Phase::Acked {
            let frames = manage_subscriptions(
                self.token.as_str(),
                self.http_uri.as_str(),
                &self.active_subscriptions,
                &desired.subscriptions,
                &mut self.pending_subscriptions,
            );
            let mut more = send_all(frames);
            let ghost first = output_views(outputs@);
            let ghost second = output_views(more@);
            outputs.append(&mut more);
            assert(output_views(outputs@) =~= first + second);
            proof {
                self.pending_subscriptions.lemma_finite();
            }
        }
        self.active_subscriptions = desired.subscriptions;
        outputs
    }

    /// Takes a request from the surrounding application.
    ///
    /// `Stop` is [`AppSyncWorker::on_stop`]. An update plans the subscriptions for the
    /// topics given and applies them as [`AppSyncWorker::apply_desired`] does; the
    /// subscription ids are drawn at random, so the result is stated for whatever ids
    /// were drawn.
    pub fn on_control(&mut self, msg: ControlMsg) -> (outputs: Vec<Output>)
        requires
            old(self).wf(),
        ensures
            final(self).wf(),
            match msg {
                ControlMsg::Stop => final(self)@ == old(self)@.on_stop().worker && output_views(
                    outputs@,
                ) == old(self)@.on_stop().outputs,
                ControlMsg::UpdateSubscriptions { streamer_ids } => updated(
                    old(self)@,
                    texts(streamer_ids@),
                    final(self)@,
                    output_views(outputs@),
                ),
            },
    {
        match msg {
            ControlMsg::Stop => self.on_stop(),
            ControlMsg::UpdateSubscriptions { streamer_ids } => update_and_manage_subscriptions(
                self,
                streamer_ids,
            ),
        }
    }

    /// Takes the outcome of the periodic reload of the topics of interest: the full
    /// list, or `None` where fetching it failed, which changes nothing.
    pub fn on_tick(&mut self, fetched: Option<Vec<String>>) -> (outputs: Vec<Output>)
        requires
            old(self).wf(),
        ensures
            final(self).wf(),
            match fetched {
                Some(streamer_ids) => updated(
                    old(self)@,
                    texts(streamer_ids@),
                    final(self)@,
                    output_views(outputs@),
                ),
                None => final(self)@ == old(self)@ && outputs@.len() == 0,
            },
    {
        match fetched {
            Some(streamer_ids) => update_and_manage_subscriptions(self, streamer_ids),
            None => Vec::new(),
        }
    }
}

/// The outputs that tell the driver of topic ids passed over and of topics to register.
fn notice_outputs(skipped: Vec<String>, register: Vec<u64>) -> (outputs: Vec<Output>)
    ensures
        output_views(outputs@) == WorkerView::notices(texts(skipped@), register@),
{
    let mut outputs: Vec<Output> = Vec::new();
    if skipped.len() > 0 {
        outputs.push(Output::Skipped(skipped));
    }
    if register.len() > 0 {
        outputs.push(Output::Register(register));
    }
    assert(output_views(outputs@) =~= WorkerView::notices(texts(skipped@), register@));
    outputs
}

/// The ids `ids` can be the ones an update to `topic_ids` draws for `before`: one for
/// each distinct topic id that is a number, all different, and none of them active.
pub open spec fn fresh_for(before: WorkerView, topic_ids: Seq<Seq<char>>, ids: Seq<Seq<char>>) -> bool {
    &&& ids.len() == valid_topics(distinct(topic_ids)).len()
    &&& ids.no_duplicates()
    &&& forall|i: int| 0 <= i < ids.len() ==> !ids_of(before.active).contains(#[trigger] ids[i])
}

/// What an update to the topics `topic_ids` makes of `before` when the subscription
/// ids drawn are `ids`: the topic ids that are numbers are planned, each once; the
/// others are passed over.
pub open spec fn planned_update(
    before: WorkerView,
    topic_ids: Seq<Seq<char>>,
    ids: Seq<Seq<char>>,
) -> Reaction {
    before.apply_desired(
        plan(valid_topics(distinct(topic_ids)), ids),
        invalid_topics(distinct(topic_ids)),
        topic_numbers(distinct(topic_ids)),
    )
}

/// `after` and `outputs` are what an update to the topics `topic_ids` makes of
/// `before` when the subscription ids drawn are `ids`.
pub open spec fn after_update(
    before: WorkerView,
    topic_ids: Seq<Seq<char>>,
    ids: Seq<Seq<char>>,
    after: WorkerView,
    outputs: Seq<OutputView>,
) -> bool {
    &&& fresh_for(before, topic_ids, ids)
    &&& after == planned_update(before, topic_ids, ids).worker
    &&& outputs == planned_update(before, topic_ids, ids).outputs
}

/// `after` and `outputs` are what an update to the topics `topic_ids` makes of
/// `before`, for some choice of fresh subscription ids.
pub open spec fn updated(
    before: WorkerView,
    topic_ids: Seq<Seq<char>>,
    after: WorkerView,
    outputs: Seq<OutputView>,
) -> bool {
    exists|ids: Seq<Seq<char>>| #[trigger] after_update(before, topic_ids, ids, after, outputs)
}

/// Brings the subscriptions in line with a new list of topics of interest.
///
/// Plans one subscription for each distinct topic id that is a number, each under an
/// id that is new to the worker, and puts the plan in place of the active map, as
/// [`AppSyncWorker::apply_desired`] does. The ids are drawn at random, so the result is
/// stated for whichever ids were drawn.
pub fn update_and_manage_subscriptions(worker: &mut AppSyncWorker, streamer_ids: Vec<String>) -> (outputs:
    Vec<Output>)
    requires
        old(worker).wf(),
    ensures
        final(worker).wf(),
        updated(old(worker)@, texts(streamer_ids@), final(worker)@, output_views(outputs@)),
{
    let desired = plan_fresh_subscriptions(&streamer_ids, &worker.active_subscriptions);
    let ghost ids = choose|ids: Seq<Seq<char>>| #[trigger]
        planned_with(
            desired,
            texts(streamer_ids@),
            worker.active_subscriptions.dom(),
            ids,
        );
    proof {
        lemma_plan_ids(worker.active_subscriptions);
    }
    let outputs = worker.apply_desired(desired);
    assert(after_update(
        old(worker)@,
        texts(streamer_ids@),
        ids,
        worker@,
        output_views(outputs@),
    ));
    outputs
}

} // verus!
