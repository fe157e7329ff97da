//! What the assistant remembers: conversations, request times, feedback, running tasks and recent
//! queries.

use crate::config::{AppConfig, ConfigView};
use crate::models;
use crate::models::{ConversationState, ConversationView, FeedbackView, UserFeedback};
use crate::pieces;
use crate::text;
use std::collections::HashMap;
use std::collections::HashSet;
use vstd::prelude::*;

verus! {

broadcast use {
    vstd::std_specs::hash::group_hash_axioms,
    text::lemma_views_push,
    models::lemma_feedback_views_push,
};

/// How many past queries of a user are kept.
pub const MAX_CHAT_HISTORY_PER_USER: usize = 5;

/// How many feedback entries are kept in memory.
pub const MAX_CACHED_FEEDBACK: usize = 100;

/// An hour in nanoseconds.
pub const HOUR_NANOS: u64 = 3_600_000_000_000;

/// The state of the application. Times are in nanoseconds since a fixed moment.
pub struct AppState {
    pub config: AppConfig,
    /// The conversation with each chat.
    pub sessions: HashMap<i64, ConversationState>,
    /// When each chat made its recent requests.
    pub rate_limits: HashMap<i64, Vec<u64>>,
    /// Recent feedback, the newest first.
    pub feedback_cache: Vec<UserFeedback>,
    /// The users for whom a task is running.
    pub active_tasks: HashSet<i64>,
    /// The recent queries of each user, the oldest first.
    pub chat_history: HashMap<i64, Vec<String>>,
}

pub struct StateView {
    pub config: ConfigView,
    pub sessions: Map<i64, ConversationView>,
    pub rate_limits: Map<i64, Seq<u64>>,
    pub feedback: Seq<FeedbackView>,
    pub active_tasks: Set<i64>,
    pub chat_history: Map<i64, Seq<Seq<char>>>,
}

/// The contents of conversations.
pub open spec fn session_views(m: Map<i64, ConversationState>) -> Map<i64, ConversationView> {
    m.map_values(|s: ConversationState| s@)
}

/// The contents of lists of times.
pub open spec fn time_views(m: Map<i64, Vec<u64>>) -> Map<i64, Seq<u64>> {
    m.map_values(|v: Vec<u64>| v@)
}

/// The contents of lists of queries.
pub open spec fn history_views(m: Map<i64, Vec<String>>) -> Map<i64, Seq<Seq<char>>> {
    m.map_values(|v: Vec<String>| text::views(v@))
}

impl View for AppState {
    type V = StateView;

    open spec fn view(&self) -> StateView {
        StateView {
            config: self.config@,
            sessions: session_views(self.sessions@),
            rate_limits: time_views(self.rate_limits@),
            feedback: models::feedback_views(self.feedback_cache@),
            active_tasks: self.active_tasks@,
            chat_history: history_views(self.chat_history@),
        }
    }
}

impl AppState {
    /// The state at the start, with the feedback that was found.
    pub fn new(config: AppConfig, feedback: Vec<UserFeedback>) -> (r: Self)
        ensures
            r@ == (StateView {
                config: config@,
                sessions: Map::empty(),
                rate_limits: Map::empty(),
                feedback: models::feedback_views(feedback@),
                active_tasks: Set::empty(),
                chat_history: Map::empty(),
            }),
            feedback@.len() <= MAX_CACHED_FEEDBACK ==> is_bounded(r@),
    {
        let r = AppState {
            config,
            sessions: HashMap::new(),
            rate_limits: HashMap::new(),
            feedback_cache: feedback,
            active_tasks: HashSet::new(),
            chat_history: HashMap::new(),
        };
        assert(r@.sessions =~= Map::empty());
        assert(r@.rate_limits =~= Map::empty());
        assert(r@.chat_history =~= Map::empty());
        r
    }
}

// Conversations

/// The conversation with a chat; idle where there was none.
pub open spec fn session_of(sessions: Map<i64, ConversationView>, chat_id: i64) ->
    ConversationView {
    if sessions.dom().contains(chat_id) {
        sessions[chat_id]
    } else {
        ConversationView::Idle
    }
}

/// The conversation with a chat.
pub fn get_session(state: &AppState, chat_id: i64) -> (r: ConversationState)
    ensures
        r@ == session_of(state@.sessions, chat_id),
{
    match state.sessions.get(&chat_id) {
        Some(s) => s.clone(),
        None => ConversationState::Idle,
    }
}

/// Sets the conversation with a chat.
pub fn set_session(state: &mut AppState, chat_id: i64, new_state: ConversationState)
    ensures
        final(state)@ == (StateView {
            sessions: old(state)@.sessions.insert(chat_id, new_state@),
            ..old(state)@
        }),
{
    let ghost before = state@;
    state.sessions.insert(chat_id, new_state);
    assert(state@.sessions =~= before.sessions.insert(chat_id, new_state@));
}

/// What was set for a chat is what is read for it, and nothing changes for any other.
pub proof fn law_session_reads_back(
    sessions: Map<i64, ConversationView>,
    chat_id: i64,
    s: ConversationView,
    other: i64,
)
    ensures
        session_of(sessions.insert(chat_id, s), chat_id) == s,
        other != chat_id ==> session_of(sessions.insert(chat_id, s), other) == session_of(
            sessions,
            other,
        ),
{
}

// Recent queries

/// The recent queries of a user, the oldest first.
pub open spec fn history_of(history: Map<i64, Seq<Seq<char>>>, user_key: i64) -> Seq<Seq<char>> {
    if history.dom().contains(user_key) {
        history[user_key]
    } else {
        seq![]
    }
}

/// A list of queries with one more; the oldest goes where there are too many.
pub open spec fn remembered(list: Seq<Seq<char>>, query: Seq<char>) -> Seq<Seq<char>> {
    if list.len() + 1 > MAX_CHAT_HISTORY_PER_USER {
        list.push(query).skip(1)
    } else {
        list.push(query)
    }
}

/// Remembers a query of a user.
pub fn push_chat_history(state: &mut AppState, user_key: i64, query: &str)
    ensures
        final(state)@ == (StateView {
            chat_history: old(state)@.chat_history.insert(
                user_key,
                remembered(history_of(old(state)@.chat_history, user_key), query@),
            ),
            ..old(state)@
        }),
{
    let ghost before = state@;
    let mut entries = get_chat_history(state, user_key);
    let ghost known = text::views(entries@);
    entries.push(text::copy(query));
    assert(text::views(entries@).len() == entries@.len());
    if entries.len() > MAX_CHAT_HISTORY_PER_USER {
        let ghost full = entries@;
        entries.remove(0);
        assert(text::views(entries@) =~= text::views(full).skip(1));
    }
    state.chat_history.insert(user_key, entries);
    assert(state@.chat_history =~= before.chat_history.insert(user_key, remembered(known, query@)));
}

/// The recent queries of a user, the oldest first.
pub fn get_chat_history(state: &AppState, user_key: i64) -> (r: Vec<String>)
    ensures
        text::views(r@) == history_of(state@.chat_history, user_key),
{
    match state.chat_history.get(&user_key) {
        Some(list) => text::copy_list(list),
        None => {
            let r: Vec<String> = Vec::new();
            assert(text::views(r@) =~= seq![]);
            r
        },
    }
}

/// Forgets the queries of a user.
pub fn clear_chat_history(state: &mut AppState, user_key: i64)
    ensures
        final(state)@ == (StateView {
            chat_history: old(state)@.chat_history.remove(user_key),
            ..old(state)@
        }),
{
    let ghost before = state@;
    state.chat_history.remove(&user_key);
    assert(state@.chat_history =~= before.chat_history.remove(user_key));
}

/// No more than five queries are remembered, and the newest always is, last.
pub proof fn law_history_is_short(list: Seq<Seq<char>>, query: Seq<char>)
    requires
        list.len() <= MAX_CHAT_HISTORY_PER_USER,
    ensures
        remembered(list, query).len() <= MAX_CHAT_HISTORY_PER_USER,
        remembered(list, query).last() == query,
        remembered(list, query).drop_last().is_suffix_of(list),
{
    let r = remembered(list, query);
    if list.len() + 1 > MAX_CHAT_HISTORY_PER_USER {
        assert(r.drop_last() =~= list.skip(1));
        assert(list.skip(1) =~= list.subrange(1, list.len() as int));
    } else {
        assert(r.drop_last() =~= list);
        assert(list =~= list.subrange(0, list.len() as int));
    }
}

// Running tasks

/// Marks that a task is running for a user; false where one was running already.
pub fn begin_task(state: &mut AppState, user_key: i64) -> (r: bool)
    ensures
        r == !old(state)@.active_tasks.contains(user_key),
        final(state)@ == (StateView {
            active_tasks: old(state)@.active_tasks.insert(user_key),
            ..old(state)@
        }),
{
    let ghost before = state@;
    if state.active_tasks.contains(&user_key) {
        assert(before.active_tasks.insert(user_key) =~= before.active_tasks);
        return false;
    }
    state.active_tasks.insert(user_key);
    true
}

/// Marks that no task is running for a user.
pub fn end_task(state: &mut AppState, user_key: i64)
    ensures
        final(state)@ == (StateView {
            active_tasks: old(state)@.active_tasks.remove(user_key),
            ..old(state)@
        }),
{
    state.active_tasks.remove(&user_key);
}

// Feedback

/// A list with a new entry first, cut to the limit.
pub open spec fn cached(list: Seq<FeedbackView>, f: FeedbackView) -> Seq<FeedbackView> {
    let all = seq![f] + list;
    if all.len() > MAX_CACHED_FEEDBACK {
        all.take(MAX_CACHED_FEEDBACK as int)
    } else {
        all
    }
}

/// Adds feedback to what is kept in memory.
pub fn cache_feedback(state: &mut AppState, feedback: UserFeedback)
    ensures
        final(state)@ == (StateView {
            feedback: cached(old(state)@.feedback, feedback@),
            ..old(state)@
        }),
{
    let ghost before = state@;
    let ghost start = state.feedback_cache@;
    let ghost added = feedback;
    state.feedback_cache.insert(0, feedback);
    assert(state.feedback_cache@ =~= seq![added] + start);
    let ghost all = state.feedback_cache@;
    state.feedback_cache.truncate(MAX_CACHED_FEEDBACK);
    proof {
        if all.len() > MAX_CACHED_FEEDBACK {
            assert(state.feedback_cache@ =~= all.take(MAX_CACHED_FEEDBACK as int));
        } else {
            assert(state.feedback_cache@ =~= all);
        }
    }
    assert(models::feedback_views(state.feedback_cache@) =~= cached(before.feedback, added@));
}

/// The feedback that is kept in memory, the newest first.
pub fn get_feedback_snapshot(state: &AppState) -> (r: Vec<UserFeedback>)
    ensures
        models::feedback_views(r@) == state@.feedback,
{
    let mut list: Vec<UserFeedback> = Vec::new();
    let mut i: usize = 0;
    assert(models::feedback_views(list@) =~= state@.feedback.take(0));
    while i < state.feedback_cache.len()
        invariant
            i <= state.feedback_cache@.len(),
            models::feedback_views(list@) == state@.feedback.take(i as int),
        decreases state.feedback_cache@.len() - i,
    {
        let f = state.feedback_cache[i].clone();
        assert(state@.feedback.take(i + 1) =~= state@.feedback.take(i as int).push(f@));
        list.push(f);
        i += 1;
    }
    assert(state@.feedback.take(i as int) =~= state@.feedback);
    list
}

/// The newest feedback is first, and no more than a hundred entries are kept.
pub proof fn law_cache_is_short(list: Seq<FeedbackView>, f: FeedbackView)
    ensures
        cached(list, f).len() <= MAX_CACHED_FEEDBACK,
        cached(list, f)[0] == f,
        forall|i: int| 0 < i < cached(list, f).len() ==> #[trigger] cached(list, f)[i] == list[i - 1],
{
}

// The rate limit

/// The times that are less than an hour before another.
pub open spec fn recent_test(now: u64) -> spec_fn(u64) -> bool {
    |t: u64| now - t < HOUR_NANOS
}

/// The times of requests of a chat.
pub open spec fn times_of(limits: Map<i64, Seq<u64>>, chat_id: i64) -> Seq<u64> {
    if limits.dom().contains(chat_id) {
        limits[chat_id]
    } else {
        seq![]
    }
}

/// Whether one more request is admitted.
pub open spec fn is_admitted(times: Seq<u64>, now: u64, max: int) -> bool {
    times.filter(recent_test(now)).len() < max
}

/// The times that are kept after a request.
pub open spec fn times_after(times: Seq<u64>, now: u64, max: int) -> Seq<u64> {
    if is_admitted(times, now, max) {
        times.filter(recent_test(now)).push(now)
    } else {
        times.filter(recent_test(now))
    }
}

/// Whether a request of a chat is admitted: while it made fewer than the configured number within
/// the last hour. An admitted request counts from then on.
pub fn check_rate_limit(state: &mut AppState, chat_id: i64, now: u64) -> (r: bool)
    ensures
        r == is_admitted(
            times_of(old(state)@.rate_limits, chat_id),
            now,
            old(state)@.config.max_requests_per_hour,
        ),
        final(state)@ == (StateView {
            rate_limits: old(state)@.rate_limits.insert(
                chat_id,
                times_after(
                    times_of(old(state)@.rate_limits, chat_id),
                    now,
                    old(state)@.config.max_requests_per_hour,
                ),
            ),
            ..old(state)@
        }),
{
    let ghost before = state@;
    let ghost times = times_of(before.rate_limits, chat_id);
    let mut recent: Vec<u64> = Vec::new();
    proof {
        pieces::lemma_filter_ends(times, recent_test(now));
    }
    match state.rate_limits.get(&chat_id) {
        Some(list) => {
            let mut i: usize = 0;
            while i < list.len()
                invariant
                    i <= list@.len(),
                    list@ == times,
                    recent@ == times.take(i as int).filter(recent_test(now)),
                decreases list@.len() - i,
            {
                proof {
                    pieces::lemma_filter_step(times, recent_test(now), i as int);
                }
                let t = list[i];
                if t > now || now - t < HOUR_NANOS {
                    recent.push(t);
                }
                i += 1;
            }
        },
        None => {},
    }
    assert(recent@ == times.filter(recent_test(now)));
    let admitted = recent.len() < state.config.max_requests_per_hour;
    if admitted {
        recent.push(now);
    }
    state.rate_limits.insert(chat_id, recent);
    assert(state@.rate_limits =~= before.rate_limits.insert(
        chat_id,
        times_after(times, now, before.config.max_requests_per_hour),
    ));
    admitted
}

/// The requests that are admitted of those made at given times.
pub open spec fn admitted(times: Seq<u64>, max: int) -> Seq<u64>
    decreases times.len(),
{
    if times.len() == 0 {
        seq![]
    } else if is_admitted(admitted(times.drop_last(), max), times.last(), max) {
        admitted(times.drop_last(), max).push(times.last())
    } else {
        admitted(times.drop_last(), max)
    }
}

/// The times that are kept after requests at given times.
pub open spec fn kept(times: Seq<u64>, max: int) -> Seq<u64>
    decreases times.len(),
{
    if times.len() == 0 {
        seq![]
    } else {
        times_after(kept(times.drop_last(), max), times.last(), max)
    }
}

/// Times in order.
pub open spec fn in_time(times: Seq<u64>) -> bool {
    forall|i: int, j: int| 0 <= i <= j < times.len() ==> #[trigger] times[i] <= #[trigger] times[j]
}

proof fn lemma_admitted(times: Seq<u64>, max: int)
    requires
        in_time(times),
    ensures
        in_time(admitted(times, max)),
        forall|i: int|
            0 <= i < admitted(times, max).len() ==> times.contains(#[trigger] admitted(times, max)[i]),
    decreases times.len(),
{
    if times.len() > 0 {
        let front = times.drop_last();
        let less = admitted(front, max);
        let all = admitted(times, max);
        assert(in_time(front)) by {
            assert forall|i: int, j: int| 0 <= i <= j < front.len() implies #[trigger] front[i]
                <= #[trigger] front[j] by {
                assert(times[i] <= times[j]);
            }
        }
        lemma_admitted(front, max);
        assert forall|i: int| 0 <= i < all.len() implies times.contains(#[trigger] all[i]) by {
            if i < less.len() {
                assert(front.contains(less[i]));
                let k = choose|k: int| 0 <= k < front.len() && front[k] == less[i];
                assert(times[k] == less[i]);
            } else {
                assert(times[times.len() - 1] == all[i]);
            }
        }
        assert forall|i: int, j: int| 0 <= i <= j < all.len() implies #[trigger] all[i]
            <= #[trigger] all[j] by {
            if j < less.len() {
                assert(all[i] == less[i] && all[j] == less[j]);
            } else if i < less.len() {
                assert(front.contains(less[i]));
                let k = choose|k: int| 0 <= k < front.len() && front[k] == less[i];
                assert(times[k] <= times[times.len() - 1]);
            }
        }
    }
}

/// Where the last elements all pass a filter, at least as many are let through.
proof fn lemma_filter_tail<A>(s: Seq<A>, p: spec_fn(A) -> bool, from: int)
    requires
        0 <= from <= s.len(),
        forall|i: int| from <= i < s.len() ==> p(#[trigger] s[i]),
    ensures
        s.filter(p).len() >= s.len() - from,
{
    let tail = s.skip(from);
    assert forall|i: int| 0 <= i < tail.len() implies p(#[trigger] tail[i]) by {
        assert(tail[i] == s[from + i]);
    }
    crate::excerpt::lemma_filter_all(tail, p);
    assert(s.take(from) + tail =~= s);
    Seq::filter_distributes_over_add(s.take(from), tail, p);
}

/// What a later moment counts as recent, an earlier one did too.
proof fn lemma_filter_later(s: Seq<u64>, earlier: u64, later: u64)
    requires
        earlier <= later,
    ensures
        s.filter(recent_test(earlier)).filter(recent_test(later)) == s.filter(recent_test(later)),
    decreases s.len(),
{
    reveal(Seq::filter);
    if s.len() > 0 {
        lemma_filter_later(s.drop_last(), earlier, later);
        let front = s.drop_last().filter(recent_test(earlier));
        if recent_test(earlier)(s.last()) {
            assert(front.push(s.last()).drop_last() =~= front);
        }
    }
}

/// What is kept of requests in time is what was admitted within the last hour.
proof fn lemma_kept(times: Seq<u64>, max: int)
    requires
        in_time(times),
        times.len() > 0,
    ensures
        kept(times, max) == admitted(times, max).filter(recent_test(times.last())),
    decreases times.len(),
{
    let front = times.drop_last();
    let now = times.last();
    let less = admitted(front, max);
    assert forall|i: int, j: int| 0 <= i <= j < front.len() implies #[trigger] front[i]
        <= #[trigger] front[j] by {
        assert(times[i] <= times[j]);
    }
    if front.len() > 0 {
        lemma_kept(front, max);
        assert(times[front.len() - 1] <= times[front.len() as int]);
        lemma_filter_later(less, front.last(), now);
    }
    assert(kept(front, max).filter(recent_test(now)) == less.filter(recent_test(now))) by {
        if front.len() == 0 {
            assert(kept(front, max) =~= less);
        }
    }
    if is_admitted(less, now, max) {
        reveal(Seq::filter);
        assert(less.push(now).drop_last() =~= less);
    }
}

/// However often a chat asks, no more requests than the limit are admitted within any hour: from
/// one admitted request to the one that comes as many later as the limit there is an hour or more.
/// And the times that are kept suffice to decide: what they admit is what all times would.
pub proof fn law_rate_limit(times: Seq<u64>, max: int)
    requires
        in_time(times),
        max > 0,
    ensures
        forall|i: int|
            0 <= i && i + max < admitted(times, max).len() ==> (#[trigger] admitted(times, max)[i
                + max]) - admitted(times, max)[i] >= HOUR_NANOS,
        times.len() > 0 ==> kept(times, max) == admitted(times, max).filter(
            recent_test(times.last()),
        ),
    decreases times.len(),
{
    if times.len() > 0 {
        let front = times.drop_last();
        let now = times.last();
        let less = admitted(front, max);
        let all = admitted(times, max);
        assert forall|i: int, j: int| 0 <= i <= j < front.len() implies #[trigger] front[i]
            <= #[trigger] front[j] by {
            assert(times[i] <= times[j]);
        }
        law_rate_limit(front, max);
        lemma_kept(times, max);
        lemma_admitted(front, max);
        assert forall|i: int| 0 <= i && i + max < all.len() implies (#[trigger] all[i + max])
            - all[i] >= HOUR_NANOS by {
            if i + max < less.len() {
                assert(all[i + max] == less[i + max] && all[i] == less[i]);
            } else {
                assert(all[i + max] == now);
                assert(all[i] == less[i]);
                if recent_test(now)(less[i]) {
                    assert forall|k: int| i <= k < less.len() implies recent_test(now)(
                        #[trigger] less[k],
                    ) by {
                        assert(less[i] <= less[k]);
                    }
                    lemma_filter_tail(less, recent_test(now), i);
                }
            }
        }
    }
}

// Bounds

/// No more is remembered than the limits allow: of queries, of feedback and of request times.
pub open spec fn is_bounded(s: StateView) -> bool {
    &&& forall|k: i64|
        #![trigger history_of(s.chat_history, k)]
        history_of(s.chat_history, k).len() <= MAX_CHAT_HISTORY_PER_USER
    &&& s.feedback.len() <= MAX_CACHED_FEEDBACK
    &&& forall|k: i64|
        #![trigger times_of(s.rate_limits, k)]
        times_of(s.rate_limits, k).len() <= s.config.max_requests_per_hour
}

/// Each change keeps the limits: a conversation that is set, a query that is remembered or
/// forgotten, a task that begins or ends, feedback, and a request.
pub proof fn law_bounds_are_kept(
    s: StateView,
    key: i64,
    session: ConversationView,
    query: Seq<char>,
    f: FeedbackView,
    now: u64,
)
    requires
        is_bounded(s),
    ensures
        is_bounded(StateView { sessions: s.sessions.insert(key, session), ..s }),
        is_bounded(
            StateView {
                chat_history: s.chat_history.insert(
                    key,
                    remembered(history_of(s.chat_history, key), query),
                ),
                ..s
            },
        ),
        is_bounded(StateView { chat_history: s.chat_history.remove(key), ..s }),
        is_bounded(StateView { active_tasks: s.active_tasks.insert(key), ..s }),
        is_bounded(StateView { active_tasks: s.active_tasks.remove(key), ..s }),
        is_bounded(StateView { feedback: cached(s.feedback, f), ..s }),
        is_bounded(
            StateView {
                rate_limits: s.rate_limits.insert(
                    key,
                    times_after(
                        times_of(s.rate_limits, key),
                        now,
                        s.config.max_requests_per_hour,
                    ),
                ),
                ..s
            },
        ),
{
    let told = s.chat_history.insert(key, remembered(history_of(s.chat_history, key), query));
    assert forall|k: i64|
        #![trigger history_of(told, k)]
        history_of(told, k).len() <= MAX_CHAT_HISTORY_PER_USER by {
        assert(history_of(s.chat_history, k).len() <= MAX_CHAT_HISTORY_PER_USER);
        law_history_is_short(history_of(s.chat_history, key), query);
    }
    let forgotten = s.chat_history.remove(key);
    assert forall|k: i64|
        #![trigger history_of(forgotten, k)]
        history_of(forgotten, k).len() <= MAX_CHAT_HISTORY_PER_USER by {
        assert(history_of(s.chat_history, k).len() <= MAX_CHAT_HISTORY_PER_USER);
    }
    let max = s.config.max_requests_per_hour;
    let times = times_of(s.rate_limits, key);
    let counted = s.rate_limits.insert(key, times_after(times, now, max));
    assert forall|k: i64| #![trigger times_of(counted, k)] times_of(counted, k).len() <= max by {
        assert(times_of(s.rate_limits, k).len() <= max);
        times.lemma_filter_len(recent_test(now));
    }
}

} // verus!
