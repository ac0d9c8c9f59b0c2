//! Planning the subscriptions for a list of topics, and reconciling what is registered
//! with what is wanted.

use vstd::prelude::*;
use vstd::string::*;
use crate::frames::{
    frame_views, start_frame, start_frame_view, stop_frame, stop_frame_view, text_field, Frame,
    FrameKind, FrameView,
};
use crate::json::{Json, JsonValue, Member};
use crate::pending::PendingSet;
use crate::strmap::{Entry, StrMap};
use crate::text::{lemma_last_to_set, lemma_prefix_to_set, texts};
use crate::topics::{
    distinct, distinct_topics, holds, invalid_topics, partition_topics, topic_numbers,
    valid_topics,
};

verus! {

/// The query document of every subscription.
pub const SUBSCRIPTION_QUERY: &'static str =
    "subscription OnUpdateStreamer($broadcaster_id: String!) {\n        onUpdateStreamer(broadcaster_id: $broadcaster_id) {\n            broadcaster_id\n            broadcaster_name\n            category\n            title\n            is_live\n            type\n        }\n    }";

/// What the server is asked to run for one subscription.
#[derive(Debug, PartialEq)]
pub struct ActiveSubscription {
    pub query: String,
    pub variables: Json,
}

/// The mathematical value of an [`ActiveSubscription`].
pub struct Descriptor {
    pub query: Seq<char>,
    pub variables: JsonValue,
}

impl View for ActiveSubscription {
    type V = Descriptor;

    open spec fn view(&self) -> Descriptor {
        Descriptor { query: self.query@, variables: self.variables@ }
    }
}

/// The subscriptions the client holds, by subscription id.
pub type SubscriptionMap = StrMap<ActiveSubscription>;

/// `{"broadcaster_id":<topic>}`
pub open spec fn variables_for(topic: Seq<char>) -> JsonValue {
    JsonValue::Object(seq![text_field("broadcaster_id"@, topic)])
}

/// The descriptor for a topic: the fixed query with the topic as its one variable.
pub open spec fn descriptor_for(topic: Seq<char>) -> Descriptor {
    Descriptor { query: SUBSCRIPTION_QUERY@, variables: variables_for(topic) }
}

/// One entry of a subscription map: an id and the descriptor held under it.
pub struct Planned {
    pub id: Seq<char>,
    pub descriptor: Descriptor,
}

/// The entries of a subscription map as mathematical values, in order.
pub open spec fn described(entries: Seq<Entry<ActiveSubscription>>) -> Seq<Planned> {
    entries.map_values(|e: Entry<ActiveSubscription>| Planned { id: e.key@, descriptor: e.value@ })
}

/// The ids of a sequence of entries, in order.
pub open spec fn ids_of(plan: Seq<Planned>) -> Seq<Seq<char>> {
    plan.map_values(|p: Planned| p.id)
}

/// `plan` after storing `descriptor` under `id`: an id already there keeps its place and
/// gets the new descriptor; a new id goes to the end.
pub open spec fn planned_insert(plan: Seq<Planned>, id: Seq<char>, descriptor: Descriptor) -> Seq<
    Planned,
> {
    if ids_of(plan).contains(id) {
        plan.update(ids_of(plan).index_of(id), Planned { id, descriptor })
    } else {
        plan.push(Planned { id, descriptor })
    }
}

/// The map planned for the first `n` of `topics`, where topic `i` gets the id `ids[i]`.
pub open spec fn plan_prefix(topics: Seq<Seq<char>>, ids: Seq<Seq<char>>, n: int) -> Seq<Planned>
    decreases n,
{
    if n <= 0 {
        Seq::empty()
    } else {
        planned_insert(plan_prefix(topics, ids, n - 1), ids[n - 1], descriptor_for(topics[n - 1]))
    }
}

/// The map planned for `topics`, where topic `i` gets the id `ids[i]`.
pub open spec fn plan(topics: Seq<Seq<char>>, ids: Seq<Seq<char>>) -> Seq<Planned> {
    plan_prefix(topics, ids, topics.len() as int)
}

/// The plan for the first `n` topics reads only the first `n` ids.
pub proof fn lemma_plan_prefix_reads_prefix(
    topics: Seq<Seq<char>>,
    ids: Seq<Seq<char>>,
    more: Seq<Seq<char>>,
    n: int,
)
    requires
        n <= ids.len(),
        ids.len() <= more.len(),
        forall|i: int| 0 <= i < ids.len() ==> ids[i] == more[i],
    ensures
        plan_prefix(topics, ids, n) == plan_prefix(topics, more, n),
    decreases n,
{
    if n > 0 {
        lemma_plan_prefix_reads_prefix(topics, ids, more, n - 1);
    }
}

/// With ids that are all different, the plan holds one entry per topic, in order: topic
/// `i` under the id `ids[i]`.
pub proof fn plan_with_distinct_ids(topics: Seq<Seq<char>>, ids: Seq<Seq<char>>, n: int)
    requires
        0 <= n <= topics.len(),
        ids.len() == topics.len(),
        ids.no_duplicates(),
    ensures
        plan_prefix(topics, ids, n).len() == n,
        forall|i: int|
            0 <= i < n ==> #[trigger] plan_prefix(topics, ids, n)[i] == (Planned {
                id: ids[i],
                descriptor: descriptor_for(topics[i]),
            }),
    decreases n,
{
    if n > 0 {
        plan_with_distinct_ids(topics, ids, n - 1);
        let before = plan_prefix(topics, ids, n - 1);
        if ids_of(before).contains(ids[n - 1]) {
            let j = ids_of(before).index_of(ids[n - 1]);
            assert(ids_of(before)[j] == ids[n - 1]);
            assert(before[j].id == ids[j]);
        }
    }
}

/// The query document of every subscription.
pub fn subscription_query() -> (query: String)
    ensures
        query@ == SUBSCRIPTION_QUERY@,
{
    String::from_str(SUBSCRIPTION_QUERY)
}

/// Builds the descriptor for `topic`.
pub fn descriptor_for_topic(topic: &str) -> (descriptor: ActiveSubscription)
    ensures
        descriptor@ == descriptor_for(topic@),
{
    let mut members: Vec<Member> = Vec::new();
    members.push(Member::new("broadcaster_id", Json::string(topic)));
    assert(crate::json::fields_of(members@) =~= seq![text_field("broadcaster_id"@, topic@)]);
    ActiveSubscription { query: subscription_query(), variables: Json::object(members) }
}

/// A new subscription id: a random version 4 UUID from `uuid::Uuid::new_v4`, written
/// out by its `Display`. Nothing is claimed of the value.
#[verifier::external_body]
fn fresh_subscription_id() -> String {
    uuid::Uuid::new_v4().to_string()
}

/// `base` followed by `k` times the letter `x`.
pub open spec fn padded(base: Seq<char>, k: nat) -> Seq<char> {
    base + Seq::new(k, |i: int| 'x')
}

/// Where a finite set holds `base` with none to `k` letters added, it has more than `k`
/// elements: the `k + 1` texts all differ in length.
proof fn lemma_padded_fill(base: Seq<char>, used: Set<Seq<char>>, k: nat)
    requires
        used.finite(),
        forall|j: nat| j <= k ==> used.contains(#[trigger] padded(base, j)),
    ensures
        k + 1 <= used.len(),
{
    let candidates = Seq::new(k + 1, |j: int| padded(base, j as nat));
    assert forall|a: int, b: int|
        0 <= a < candidates.len() && 0 <= b < candidates.len() && a != b implies candidates[a]
        != candidates[b] by {
        assert(candidates[a].len() == base.len() + a);
        assert(candidates[b].len() == base.len() + b);
    }
    candidates.unique_seq_to_set();
    assert forall|t: Seq<char>| candidates.to_set().contains(t) implies used.contains(t) by {
        let a = choose|a: int| 0 <= a < candidates.len() && candidates[a] == t;
        assert(t == padded(base, a as nat));
    }
    vstd::set_lib::lemma_len_subset(candidates.to_set(), used);
}

/// A subscription id that neither `taken` nor `drawn` holds: a freshly drawn one, with
/// letters added for as long as it is already in use.
fn unused_id(taken: &SubscriptionMap, drawn: &Vec<String>) -> (id: String)
    requires
        taken.wf(),
    ensures
        !taken.has(id@),
        !texts(drawn@).contains(id@),
{
    let mut id = fresh_subscription_id();
    let ghost base = id@;
    let ghost used = taken.dom().union(texts(drawn@).to_set());
    let ghost mut k: nat = 0;
    proof {
        taken.lemma_len_is_dom_len();
        vstd::seq_lib::seq_to_set_is_finite(texts(drawn@));
        assert(id@ =~= padded(base, 0));
        reveal_strlit("x");
    }
    while taken.contains_key(id.as_str()) || holds(drawn, &id)
        invariant
            used == taken.dom().union(texts(drawn@).to_set()),
            used.finite(),
            id@ == padded(base, k),
            "x"@ == seq!['x'],
            forall|j: nat| j < k ==> used.contains(#[trigger] padded(base, j)),
            k <= used.len(),
        decreases used.len() - k,
    {
        proof {
            assert(used.contains(padded(base, k)));
            lemma_padded_fill(base, used, k);
        }
        id.append("x");
        proof {
            assert(id@ =~= padded(base, k + 1));
            k = k + 1;
        }
    }
    id
}

/// Draws `count` subscription ids that all differ and that `taken` does not hold.
fn fresh_ids(count: usize, taken: &SubscriptionMap) -> (ids: Vec<String>)
    requires
        taken.wf(),
    ensures
        ids@.len() == count,
        texts(ids@).no_duplicates(),
        forall|i: int| 0 <= i < count ==> !taken.has(#[trigger] texts(ids@)[i]),
{
    let mut ids: Vec<String> = Vec::new();
    while ids.len() < count
        invariant
            ids@.len() <= count,
            taken.wf(),
            texts(ids@).no_duplicates(),
            forall|i: int| 0 <= i < ids@.len() ==> !taken.has(#[trigger] texts(ids@)[i]),
        decreases count - ids@.len(),
    {
        let ghost before = texts(ids@);
        let id = unused_id(taken, &ids);
        ids.push(id);
        assert(texts(ids@) =~= before.push(id@));
    }
    ids
}

/// What the planner hands back.
pub struct DesiredSubscriptions {
    /// One subscription for each distinct topic id that is a number, each under a
    /// subscription id of its own.
    pub subscriptions: SubscriptionMap,
    /// The numbers of those topic ids, one for one: the topics to register for
    /// delivery.
    pub register: Vec<u64>,
    /// The distinct topic ids that are no numbers. They are passed over; the caller may
    /// log them.
    pub skipped: Vec<String>,
}

/// `desired` is the plan for the topic ids `topic_ids` where the subscription ids
/// drawn are `ids`: one for each distinct topic id that is a number, all different, and
/// none of them among `taken`.
pub open spec fn planned_with(
    desired: DesiredSubscriptions,
    topic_ids: Seq<Seq<char>>,
    taken: Set<Seq<char>>,
    ids: Seq<Seq<char>>,
) -> bool {
    &&& ids.len() == valid_topics(distinct(topic_ids)).len()
    &&& ids.no_duplicates()
    &&& forall|i: int| 0 <= i < ids.len() ==> !taken.contains(#[trigger] ids[i])
    &&& plan_of(desired.subscriptions) == plan(valid_topics(distinct(topic_ids)), ids)
    &&& ids_of(plan_of(desired.subscriptions)) == ids
}

/// The smaller of two lengths.
pub open spec fn shorter(a: nat, b: nat) -> int {
    if a <= b {
        a as int
    } else {
        b as int
    }
}

/// Plans the subscriptions for `topics` under the subscription ids given: topic `i`
/// under `ids[i]`, for as many topics as there are ids. An id given twice keeps its
/// first place and the descriptor of the later topic.
pub fn plan_subscriptions(topics: &Vec<String>, ids: &Vec<String>) -> (map: SubscriptionMap)
    ensures
        map.wf(),
        plan_of(map) == plan_prefix(
            texts(topics@),
            texts(ids@),
            shorter(topics@.len(), ids@.len()),
        ),
        topics@.len() == ids@.len() ==> plan_of(map) == plan(texts(topics@), texts(ids@)),
{
    let mut map: SubscriptionMap = StrMap::new();
    let count: usize = if topics.len() <= ids.len() {
        topics.len()
    } else {
        ids.len()
    };
    let ghost wanted = texts(topics@);
    let ghost given = texts(ids@);
    let mut i: usize = 0;
    assert(described(map.entries()) =~= plan_prefix(wanted, given, 0));
    while i < count
        invariant
            i <= count,
            count <= topics@.len(),
            count <= ids@.len(),
            wanted == texts(topics@),
            given == texts(ids@),
            map.wf(),
            described(map.entries()) == plan_prefix(wanted, given, i as int),
        decreases count - i,
    {
        let descriptor = descriptor_for_topic(topics[i].as_str());
        let ghost before = map.entries();
        proof {
            assert(ids_of(described(before)) =~= map.keys());
        }
        let added = map.insert(ids[i].clone(), descriptor);
        proof {
            let planned = Planned { id: given[i as int], descriptor: descriptor_for(wanted[i as int]) };
            if added {
                assert(described(map.entries()) =~= described(before).push(planned));
            } else {
                assert(described(map.entries()) =~= described(before).update(
                    ids_of(described(before)).index_of(given[i as int]),
                    planned,
                ));
            }
        }
        i = i + 1;
    }
    map
}

/// Plans the subscriptions for a list of topic ids, apart from those in `taken`.
///
/// Topic ids that repeat count once, and those that are no numbers are passed over and
/// handed back. Every other topic id gets one descriptor under a subscription id of its
/// own, freshly drawn, different from all others and from every id in `taken`. The
/// ids are random, so the map is stated for whichever ids were drawn.
pub fn plan_fresh_subscriptions(streamer_ids: &Vec<String>, taken: &SubscriptionMap) -> (desired:
    DesiredSubscriptions)
    requires
        taken.wf(),
    ensures
        desired.subscriptions.wf(),
        desired.register@ == topic_numbers(distinct(texts(streamer_ids@))),
        texts(desired.skipped@) == invalid_topics(distinct(texts(streamer_ids@))),
        desired.subscriptions.entries().len() == valid_topics(
            distinct(texts(streamer_ids@)),
        ).len(),
        exists|ids: Seq<Seq<char>>| #[trigger]
            planned_with(desired, texts(streamer_ids@), taken.dom(), ids),
{
    let topics = distinct_topics(streamer_ids);
    let split = partition_topics(&topics);
    let ids = fresh_ids(split.valid.len(), taken);
    let subscriptions = plan_subscriptions(&split.valid, &ids);
    let desired = DesiredSubscriptions {
        subscriptions,
        register: split.numbers,
        skipped: split.skipped,
    };
    proof {
        let wanted = valid_topics(distinct(texts(streamer_ids@)));
        let drawn = texts(ids@);
        plan_with_distinct_ids(wanted, drawn, wanted.len() as int);
        lemma_plan_ids(desired.subscriptions);
        assert(ids_of(plan(wanted, drawn)) =~= drawn);
        assert(planned_with(desired, texts(streamer_ids@), taken.dom(), drawn));
    }
    desired
}

/// Plans the subscriptions for a list of topic ids.
///
/// Topic ids that repeat count once, and those that are no numbers are passed over and
/// handed back. Every other topic id gets one descriptor under a subscription id of its
/// own, freshly drawn and different from all others. The ids are random, so the map is
/// stated for whichever ids were drawn.
pub fn generate_desired_subscriptions(streamer_ids: &Vec<String>) -> (desired:
    DesiredSubscriptions)
    ensures
        desired.subscriptions.wf(),
        desired.register@ == topic_numbers(distinct(texts(streamer_ids@))),
        texts(desired.skipped@) == invalid_topics(distinct(texts(streamer_ids@))),
        desired.subscriptions.entries().len() == valid_topics(
            distinct(texts(streamer_ids@)),
        ).len(),
        exists|ids: Seq<Seq<char>>| #[trigger]
            planned_with(desired, texts(streamer_ids@), Set::empty(), ids),
{
    let taken: SubscriptionMap = StrMap::new();
    let desired = plan_fresh_subscriptions(streamer_ids, &taken);
    proof {
        let ids = choose|ids: Seq<Seq<char>>| #[trigger]
            planned_with(desired, texts(streamer_ids@), taken.dom(), ids);
        assert(planned_with(desired, texts(streamer_ids@), Set::empty(), ids));
    }
    desired
}

/// The `stop` frames for the ids of `current` that `desired` lacks, in the order of
/// `current`.
pub open spec fn stop_frames(current: Seq<Seq<char>>, desired: Set<Seq<char>>) -> Seq<FrameView>
    decreases current.len(),
{
    if current.len() == 0 {
        Seq::empty()
    } else {
        let rest = stop_frames(current.drop_last(), desired);
        if desired.contains(current.last()) {
            rest
        } else {
            rest.push(stop_frame_view(current.last()))
        }
    }
}

/// The `start` frames for the entries of `desired` whose ids `current` lacks, in the
/// order of `desired`.
pub open spec fn start_frames(
    desired: Seq<Planned>,
    current: Set<Seq<char>>,
    token: Seq<char>,
    host: Seq<char>,
) -> Seq<FrameView>
    decreases desired.len(),
{
    if desired.len() == 0 {
        Seq::empty()
    } else {
        let rest = start_frames(desired.drop_last(), current, token, host);
        let last = desired.last();
        if current.contains(last.id) {
            rest
        } else {
            rest.push(
                start_frame_view(
                    last.id,
                    last.descriptor.query,
                    last.descriptor.variables,
                    token,
                    host,
                ),
            )
        }
    }
}

/// Every frame of `stop_frames` is a `stop`, and there is one for each id of `current`
/// that `desired` lacks.
pub proof fn lemma_stop_frames(current: Seq<Seq<char>>, desired: Set<Seq<char>>)
    requires
        current.no_duplicates(),
    ensures
        stop_frames(current, desired).len() == current.to_set().difference(desired).len(),
        forall|i: int|
            0 <= i < stop_frames(current, desired).len() ==> (#[trigger] stop_frames(
                current,
                desired,
            )[i]).kind == FrameKind::Stop,
    decreases current.len(),
{
    if current.len() == 0 {
        assert(current.to_set().difference(desired) =~= Set::<Seq<char>>::empty());
    } else {
        let init = current.drop_last();
        let last = current.last();
        lemma_stop_frames(init, desired);
        vstd::seq_lib::seq_to_set_is_finite(init);
        assert(!init.contains(last)) by {
            if init.contains(last) {
                let j = choose|j: int| 0 <= j < init.len() && init[j] == last;
                assert(current[j] == current[current.len() - 1]);
            }
        }
        lemma_last_to_set(current);
        if desired.contains(last) {
            assert(current.to_set().difference(desired) =~= init.to_set().difference(desired));
        } else {
            assert(current.to_set().difference(desired) =~= init.to_set().difference(
                desired,
            ).insert(last));
        }
    }
}

/// Every frame of `start_frames` is a `start`, and there is one for each id of
/// `desired` that `current` lacks.
pub proof fn lemma_start_frames(
    desired: Seq<Planned>,
    current: Set<Seq<char>>,
    token: Seq<char>,
    host: Seq<char>,
)
    requires
        ids_of(desired).no_duplicates(),
    ensures
        start_frames(desired, current, token, host).len() == ids_of(desired).to_set().difference(
            current,
        ).len(),
        forall|i: int|
            0 <= i < start_frames(desired, current, token, host).len() ==> (#[trigger] start_frames(
                desired,
                current,
                token,
                host,
            )[i]).kind == FrameKind::Start,
    decreases desired.len(),
{
    let ids = ids_of(desired);
    if desired.len() == 0 {
        assert(ids.to_set().difference(current) =~= Set::<Seq<char>>::empty());
    } else {
        let init = desired.drop_last();
        let init_ids = ids_of(init);
        let last = desired.last().id;
        assert(init_ids =~= ids.drop_last());
        assert(init_ids.no_duplicates());
        lemma_start_frames(init, current, token, host);
        vstd::seq_lib::seq_to_set_is_finite(init_ids);
        assert(!init_ids.contains(last)) by {
            if init_ids.contains(last) {
                let j = choose|j: int| 0 <= j < init_ids.len() && init_ids[j] == last;
                assert(ids[j] == ids[ids.len() - 1]);
            }
        }
        lemma_last_to_set(ids);
        if current.contains(last) {
            assert(ids.to_set().difference(current) =~= init_ids.to_set().difference(current));
        } else {
            assert(ids.to_set().difference(current) =~= init_ids.to_set().difference(
                current,
            ).insert(last));
        }
    }
}

/// Against an empty current map every desired entry is started, in order, and nothing
/// is stopped.
pub proof fn lemma_start_everything(desired: Seq<Planned>, token: Seq<char>, host: Seq<char>)
    ensures
        start_frames(desired, Set::empty(), token, host).len() == desired.len(),
        forall|i: int|
            0 <= i < desired.len() ==> #[trigger] start_frames(
                desired,
                Set::empty(),
                token,
                host,
            )[i] == start_frame_view(
                desired[i].id,
                desired[i].descriptor.query,
                desired[i].descriptor.variables,
                token,
                host,
            ),
        stop_frames(Seq::empty(), ids_of(desired).to_set()) == Seq::<FrameView>::empty(),
    decreases desired.len(),
{
    if desired.len() > 0 {
        lemma_start_everything(desired.drop_last(), token, host);
    }
}

/// The entries of a subscription map as mathematical values, in order.
pub open spec fn plan_of(map: SubscriptionMap) -> Seq<Planned> {
    described(map.entries())
}

/// The ids of a subscription map's entries are its keys.
pub proof fn lemma_plan_ids(map: SubscriptionMap)
    ensures
        ids_of(plan_of(map)) == map.keys(),
        plan_of(map).len() == map.entries().len(),
{
    assert(ids_of(plan_of(map)) =~= map.keys());
}

/// The frames of one reconciliation pass: every `stop`, then every `start`.
pub open spec fn reconcile_frames(
    current: Seq<Planned>,
    desired: Seq<Planned>,
    token: Seq<char>,
    host: Seq<char>,
) -> Seq<FrameView> {
    stop_frames(ids_of(current), ids_of(desired).to_set()) + start_frames(
        desired,
        ids_of(current).to_set(),
        token,
        host,
    )
}

/// The pending set after one reconciliation pass: the stopped ids leave, the started
/// ids come in.
pub open spec fn reconcile_pending(
    pending: Set<Seq<char>>,
    current: Set<Seq<char>>,
    desired: Set<Seq<char>>,
) -> Set<Seq<char>> {
    pending.difference(current.difference(desired)).union(desired.difference(current))
}

/// The number of frames of `frames` that are of `kind`.
pub open spec fn count_kind(frames: Seq<FrameView>, kind: FrameKind) -> nat
    decreases frames.len(),
{
    if frames.len() == 0 {
        0
    } else {
        count_kind(frames.drop_last(), kind) + if frames.last().kind == kind {
            1nat
        } else {
            0nat
        }
    }
}

/// Counting a kind over two lists put together adds up.
pub proof fn lemma_count_kind_add(a: Seq<FrameView>, b: Seq<FrameView>, kind: FrameKind)
    ensures
        count_kind(a + b, kind) == count_kind(a, kind) + count_kind(b, kind),
    decreases b.len(),
{
    if b.len() == 0 {
        assert(a + b =~= a);
    } else {
        assert((a + b).drop_last() =~= a + b.drop_last());
        lemma_count_kind_add(a, b.drop_last(), kind);
    }
}

/// In a list whose frames are all of one kind, that kind counts them all and any other
/// kind counts none.
pub proof fn lemma_count_kind_uniform(frames: Seq<FrameView>, of: FrameKind, kind: FrameKind)
    requires
        forall|i: int| 0 <= i < frames.len() ==> (#[trigger] frames[i]).kind == of,
    ensures
        count_kind(frames, kind) == if kind == of {
            frames.len()
        } else {
            0
        },
    decreases frames.len(),
{
    if frames.len() > 0 {
        lemma_count_kind_uniform(frames.drop_last(), of, kind);
    }
}

/// A reconciliation pass emits exactly one `stop` frame for each id that only the
/// current map holds and exactly one `start` frame for each id that only the desired
/// map holds, and nothing else.
pub proof fn reconcile_emits_the_difference(
    current: Seq<Planned>,
    desired: Seq<Planned>,
    token: Seq<char>,
    host: Seq<char>,
)
    requires
        ids_of(current).no_duplicates(),
        ids_of(desired).no_duplicates(),
    ensures
        count_kind(reconcile_frames(current, desired, token, host), FrameKind::Stop) == ids_of(
            current,
        ).to_set().difference(ids_of(desired).to_set()).len(),
        count_kind(reconcile_frames(current, desired, token, host), FrameKind::Start) == ids_of(
            desired,
        ).to_set().difference(ids_of(current).to_set()).len(),
        count_kind(reconcile_frames(current, desired, token, host), FrameKind::Init) == 0,
        reconcile_frames(current, desired, token, host).len() == ids_of(
            current,
        ).to_set().difference(ids_of(desired).to_set()).len() + ids_of(
            desired,
        ).to_set().difference(ids_of(current).to_set()).len(),
{
    let stops = stop_frames(ids_of(current), ids_of(desired).to_set());
    let starts = start_frames(desired, ids_of(current).to_set(), token, host);
    lemma_stop_frames(ids_of(current), ids_of(desired).to_set());
    lemma_start_frames(desired, ids_of(current).to_set(), token, host);
    lemma_count_kind_add(stops, starts, FrameKind::Stop);
    lemma_count_kind_add(stops, starts, FrameKind::Start);
    lemma_count_kind_add(stops, starts, FrameKind::Init);
    lemma_count_kind_uniform(stops, FrameKind::Stop, FrameKind::Stop);
    lemma_count_kind_uniform(stops, FrameKind::Stop, FrameKind::Start);
    lemma_count_kind_uniform(stops, FrameKind::Stop, FrameKind::Init);
    lemma_count_kind_uniform(starts, FrameKind::Start, FrameKind::Stop);
    lemma_count_kind_uniform(starts, FrameKind::Start, FrameKind::Start);
    lemma_count_kind_uniform(starts, FrameKind::Start, FrameKind::Init);
}

/// Reconciles what is registered (`current`) with what is wanted (`desired`).
///
/// Returns the frames to send, in order: one `stop` for every id that only `current`
/// has, then one `start` for every id that only `desired` has. Ids are compared as
/// subscription ids; topics play no part. Stopped ids leave `pending`, started ids
/// enter it.
pub fn manage_subscriptions(
    token: &str,
    http_uri: &str,
    current_subs: &SubscriptionMap,
    desired_subs: &SubscriptionMap,
    pending_subscriptions: &mut PendingSet,
) -> (frames: Vec<Frame>)
    requires
        current_subs.wf(),
        desired_subs.wf(),
        old(pending_subscriptions).wf(),
    ensures
        final(pending_subscriptions).wf(),
        frame_views(frames@) == reconcile_frames(
            plan_of(*current_subs),
            plan_of(*desired_subs),
            token@,
            http_uri@,
        ),
        final(pending_subscriptions)@ == reconcile_pending(
            old(pending_subscriptions)@,
            current_subs.dom(),
            desired_subs.dom(),
        ),
{
    let mut frames: Vec<Frame> = Vec::new();
    proof {
        lemma_plan_ids(*current_subs);
        lemma_plan_ids(*desired_subs);
    }
    let ghost current_keys = current_subs.keys();
    let ghost desired_plan = described(desired_subs.entries());
    let ghost pending0 = pending_subscriptions@;
    let mut i: usize = 0;
    assert(current_keys.subrange(0, 0) =~= Seq::<Seq<char>>::empty());
    assert(frame_views(frames@) =~= Seq::<FrameView>::empty());
    assert(pending_subscriptions@ =~= pending0.difference(
        current_keys.subrange(0, 0).to_set().difference(desired_subs.dom()),
    ));
    while i < current_subs.len()
        invariant
            i <= current_subs.entries().len(),
            current_keys == current_subs.keys(),
            pending_subscriptions.wf(),
            frame_views(frames@) == stop_frames(
                current_keys.subrange(0, i as int),
                desired_subs.dom(),
            ),
            pending_subscriptions@ == pending0.difference(
                current_keys.subrange(0, i as int).to_set().difference(desired_subs.dom()),
            ),
        decreases current_subs.entries().len() - i,
    {
        let ghost seen = current_keys.subrange(0, i as int);
        let ghost next = current_keys.subrange(0, i + 1);
        let ghost before = frame_views(frames@);
        let id = current_subs.key_at(i);
        assert(next.drop_last() =~= seen);
        assert(next.last() == id@);
        proof {
            lemma_prefix_to_set(current_keys, i as int);
        }
        if !desired_subs.contains_key(id) {
            let frame = stop_frame(id);
            frames.push(frame);
            let _ = pending_subscriptions.remove(id);
            assert(frame_views(frames@) =~= before.push(stop_frame_view(id@)));
            assert(pending_subscriptions@ =~= pending0.difference(
                next.to_set().difference(desired_subs.dom()),
            ));
        } else {
            assert(pending_subscriptions@ =~= pending0.difference(
                next.to_set().difference(desired_subs.dom()),
            ));
        }
        i = i + 1;
    }
    assert(current_keys.subrange(0, current_keys.len() as int) =~= current_keys);
    let ghost stops = frame_views(frames@);
    let ghost pending1 = pending_subscriptions@;
    let mut j: usize = 0;
    assert(desired_plan.subrange(0, 0) =~= Seq::<Planned>::empty());
    assert(desired_subs.keys().subrange(0, 0) =~= Seq::<Seq<char>>::empty());
    assert(frame_views(frames@) =~= stops + Seq::<FrameView>::empty());
    assert(pending_subscriptions@ =~= pending1.union(
        desired_subs.keys().subrange(0, 0).to_set().difference(current_subs.dom()),
    ));
    while j < desired_subs.len()
        invariant
            j <= desired_subs.entries().len(),
            desired_plan == described(desired_subs.entries()),
            desired_subs.wf(),
            pending_subscriptions.wf(),
            frame_views(frames@) == stops + start_frames(
                desired_plan.subrange(0, j as int),
                current_subs.dom(),
                token@,
                http_uri@,
            ),
            pending_subscriptions@ == pending1.union(
                desired_subs.keys().subrange(0, j as int).to_set().difference(current_subs.dom()),
            ),
        decreases desired_subs.entries().len() - j,
    {
        let ghost seen = desired_plan.subrange(0, j as int);
        let ghost next = desired_plan.subrange(0, j + 1);
        let ghost seen_keys = desired_subs.keys().subrange(0, j as int);
        let ghost next_keys = desired_subs.keys().subrange(0, j + 1);
        let ghost before = frame_views(frames@);
        let id = desired_subs.key_at(j);
        let sub = desired_subs.value_at(j);
        assert(next.drop_last() =~= seen);
        assert(next.last() == Planned { id: id@, descriptor: sub@ });
        proof {
            lemma_prefix_to_set(desired_subs.keys(), j as int);
        }
        if !current_subs.contains_key(id) {
            let frame = start_frame(id, sub.query.as_str(), &sub.variables, token, http_uri);
            frames.push(frame);
            let _ = pending_subscriptions.insert(String::from_str(id));
            assert(frame_views(frames@) =~= before.push(
                start_frame_view(id@, sub@.query, sub@.variables, token@, http_uri@),
            ));
            assert(pending_subscriptions@ =~= pending1.union(
                next_keys.to_set().difference(current_subs.dom()),
            ));
        } else {
            assert(pending_subscriptions@ =~= pending1.union(
                next_keys.to_set().difference(current_subs.dom()),
            ));
        }
        j = j + 1;
    }
    assert(desired_plan.subrange(0, desired_plan.len() as int) =~= desired_plan);
    assert(desired_subs.keys().subrange(0, desired_subs.keys().len() as int)
        =~= desired_subs.keys());
    frames
}

} // verus!
