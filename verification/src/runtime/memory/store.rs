//! In-memory session store.
//!
//! Sessions are keyed by `"{actor}:{session}"` (the actor defaulting to `anonymous`); each keeps
//! at most `max_turns` of its most recent summarized turns. A legacy per-session history list
//! is kept beside it.

use vstd::prelude::*;

use crate::model::History;
use crate::runtime::error::RuntimeResult;
use crate::text::{concat3, push_str, to_owned_string};

verus! {

/// Session memory scope.
#[derive(Debug, Clone, PartialEq, Eq)]
pub struct SessionMemoryScope {
    /// Session id.
    pub session_id: String,
    /// Optional actor id for isolation.
    pub actor_id: Option<String>,
}

/// One summarized memory turn.
#[derive(Debug, Clone, PartialEq, Eq)]
pub struct SessionMemoryTurn {
    /// Turn id.
    pub turn_id: String,
    /// User-side summary.
    pub user_summary: String,
    /// Answer-side summary.
    pub answer_summary: String,
    /// Intent id.
    pub intent: Option<String>,
    /// Metric id.
    pub metric: Option<String>,
    /// Asset id/name.
    pub asset: Option<String>,
    /// Time range label.
    pub time_range_label: Option<String>,
    /// Option id.
    pub option_id: Option<String>,
    /// Creation timestamp.
    pub created_at_ms: u64,
}

/// Session memory value.
#[derive(Debug, Clone, Default, PartialEq, Eq)]
pub struct SessionMemory {
    /// Recent turns, oldest first.
    pub recent_turns: Vec<SessionMemoryTurn>,
}

/// The store key of a scope: `"{actor}:{session}"`, the actor defaulting to `anonymous`.
pub open spec fn scope_key(scope: SessionMemoryScope) -> Seq<char> {
    (match scope.actor_id {
        Some(a) => a@,
        None => "anonymous"@,
    }) + ":"@ + scope.session_id@
}

/// `turns` cut down to its last `max` entries.
pub open spec fn keep_last<T>(turns: Seq<T>, max: nat) -> Seq<T> {
    if turns.len() > max {
        turns.skip(turns.len() - max)
    } else {
        turns
    }
}

/// A copy of an optional string.
pub fn clone_opt(s: &Option<String>) -> (r: Option<String>)
    ensures
        r == *s,
{
    match s {
        Some(v) => Some(v.clone()),
        None => None,
    }
}

/// A field-by-field copy of a turn.
pub fn copy_turn(t: &SessionMemoryTurn) -> (r: SessionMemoryTurn)
    ensures
        r == *t,
{
    SessionMemoryTurn {
        turn_id: t.turn_id.clone(),
        user_summary: t.user_summary.clone(),
        answer_summary: t.answer_summary.clone(),
        intent: clone_opt(&t.intent),
        metric: clone_opt(&t.metric),
        asset: clone_opt(&t.asset),
        time_range_label: clone_opt(&t.time_range_label),
        option_id: clone_opt(&t.option_id),
        created_at_ms: t.created_at_ms,
    }
}

/// A copy of `turns[from..]`.
pub fn copy_turns_from(turns: &Vec<SessionMemoryTurn>, from: usize) -> (r: Vec<SessionMemoryTurn>)
    requires
        from <= turns.len(),
    ensures
        r@ == turns@.skip(from as int),
{
    let mut out: Vec<SessionMemoryTurn> = Vec::new();
    let mut i = from;
    while i < turns.len()
        invariant
            from <= i <= turns.len(),
            out@ == turns@.subrange(from as int, i as int),
        decreases turns.len() - i,
    {
        out.push(copy_turn(&turns[i]));
        i += 1;
        assert(out@ =~= turns@.subrange(from as int, i as int));
    }
    assert(turns@.skip(from as int) =~= turns@.subrange(from as int, turns@.len() as int));
    out
}

/// A copy of a history entry.
pub fn copy_history(h: &History) -> (r: History)
    ensures
        r == *h,
{
    History { user_prompt: h.user_prompt.clone(), model_response: h.model_response.clone() }
}

/// A copy of a history list.
pub fn copy_histories(v: &Vec<History>) -> (r: Vec<History>)
    ensures
        r@ == v@,
{
    let mut out: Vec<History> = Vec::new();
    let mut i: usize = 0;
    while i < v.len()
        invariant
            i <= v.len(),
            out@ == v@.take(i as int),
        decreases v.len() - i,
    {
        out.push(copy_history(&v[i]));
        i += 1;
        assert(out@ =~= v@.take(i as int));
    }
    assert(v@.take(v@.len() as int) =~= v@);
    out
}

/// Entries of a keyed list hold distinct keys.
pub open spec fn unique_keys<V>(v: Seq<(String, V)>) -> bool {
    forall|i: int, j: int| 0 <= i < j < v.len() ==> (#[trigger] v[i]).0@ != (#[trigger] v[j]).0@
}

/// Some entry of a keyed list has key `k`.
pub open spec fn has_key<V>(v: Seq<(String, V)>, k: Seq<char>) -> bool {
    exists|i: int| 0 <= i < v.len() && (#[trigger] v[i]).0@ == k
}

/// The value stored under `k`.
pub open spec fn value_of<V>(v: Seq<(String, V)>, k: Seq<char>) -> V {
    v[choose|i: int| 0 <= i < v.len() && (#[trigger] v[i]).0@ == k].1
}

/// The keyed list as a map.
pub open spec fn keyed_map<V>(v: Seq<(String, V)>) -> Map<Seq<char>, V> {
    Map::new(|k: Seq<char>| has_key(v, k), |k: Seq<char>| value_of(v, k))
}

proof fn lemma_value_at<V>(v: Seq<(String, V)>, i: int)
    requires
        unique_keys(v),
        0 <= i < v.len(),
    ensures
        keyed_map(v).contains_key(v[i].0@),
        keyed_map(v)[v[i].0@] == v[i].1,
{
    let k = v[i].0@;
    assert(has_key(v, k));
    let j = choose|j: int| 0 <= j < v.len() && (#[trigger] v[j]).0@ == k;
    if j != i {
        if j < i {
            assert(v[j].0@ != v[i].0@);
        } else {
            assert(v[i].0@ != v[j].0@);
        }
    }
}

proof fn lemma_update<V>(v: Seq<(String, V)>, i: int, x: V)
    requires
        unique_keys(v),
        0 <= i < v.len(),
    ensures
        unique_keys(v.update(i, (v[i].0, x))),
        keyed_map(v.update(i, (v[i].0, x))) == keyed_map(v).insert(v[i].0@, x),
{
    let w = v.update(i, (v[i].0, x));
    assert(unique_keys(w)) by {
        assert forall|a: int, b: int| 0 <= a < b < w.len() implies (#[trigger] w[a]).0@ != (#[trigger] w[b]).0@ by {
            assert(w[a].0 == v[a].0);
            assert(w[b].0 == v[b].0);
        }
    }
    let k = v[i].0@;
    assert forall|q: Seq<char>| #[trigger] has_key(w, q) == has_key(v, q) by {
        if has_key(v, q) {
            let a = choose|a: int| 0 <= a < v.len() && (#[trigger] v[a]).0@ == q;
            assert(w[a].0@ == q);
        }
        if has_key(w, q) {
            let a = choose|a: int| 0 <= a < w.len() && (#[trigger] w[a]).0@ == q;
            assert(v[a].0@ == q);
        }
    }
    assert forall|q: Seq<char>| #[trigger] keyed_map(w).contains_key(q) implies keyed_map(w)[q] == keyed_map(v).insert(k, x)[q] by {
        let a = choose|a: int| 0 <= a < w.len() && (#[trigger] w[a]).0@ == q;
        lemma_value_at(w, a);
        lemma_value_at(v, a);
    }
    assert(keyed_map(w) =~= keyed_map(v).insert(k, x));
}

proof fn lemma_push<V>(v: Seq<(String, V)>, key: String, x: V)
    requires
        unique_keys(v),
        !has_key(v, key@),
    ensures
        unique_keys(v.push((key, x))),
        keyed_map(v.push((key, x))) == keyed_map(v).insert(key@, x),
{
    let w = v.push((key, x));
    assert(unique_keys(w)) by {
        assert forall|a: int, b: int| 0 <= a < b < w.len() implies (#[trigger] w[a]).0@ != (#[trigger] w[b]).0@ by {
            if b == v.len() {
                assert(w[a] == v[a]);
            } else {
                assert(w[a] == v[a] && w[b] == v[b]);
            }
        }
    }
    assert forall|q: Seq<char>| #[trigger] keyed_map(w).contains_key(q) == keyed_map(v).insert(key@, x).contains_key(q) by {
        if has_key(v, q) {
            let a = choose|a: int| 0 <= a < v.len() && (#[trigger] v[a]).0@ == q;
            assert(w[a].0@ == q);
        }
        if has_key(w, q) {
            let a = choose|a: int| 0 <= a < w.len() && (#[trigger] w[a]).0@ == q;
            if a < v.len() {
                assert(v[a].0@ == q);
            }
        }
        if q == key@ {
            assert(w[v.len() as int].0@ == q);
        }
    }
    assert forall|q: Seq<char>| #[trigger] keyed_map(w).contains_key(q) implies keyed_map(w)[q] == keyed_map(v).insert(key@, x)[q] by {
        let a = choose|a: int| 0 <= a < w.len() && (#[trigger] w[a]).0@ == q;
        lemma_value_at(w, a);
        if a < v.len() {
            assert(w[a] == v[a]);
            lemma_value_at(v, a);
        }
    }
    assert(keyed_map(w) =~= keyed_map(v).insert(key@, x));
}

proof fn lemma_remove<V>(v: Seq<(String, V)>, i: int)
    requires
        unique_keys(v),
        0 <= i < v.len(),
    ensures
        unique_keys(v.remove(i)),
        keyed_map(v.remove(i)) == keyed_map(v).remove(v[i].0@),
{
    let w = v.remove(i);
    let k = v[i].0@;
    assert forall|a: int| 0 <= a < w.len() implies #[trigger] w[a] == (if a < i { v[a] } else { v[a + 1] }) by {}
    assert(unique_keys(w)) by {
        assert forall|a: int, b: int| 0 <= a < b < w.len() implies (#[trigger] w[a]).0@ != (#[trigger] w[b]).0@ by {
            let a2 = if a < i { a } else { a + 1 };
            let b2 = if b < i { b } else { b + 1 };
            assert(w[a] == v[a2] && w[b] == v[b2]);
        }
    }
    assert forall|q: Seq<char>| #[trigger] keyed_map(w).contains_key(q) == keyed_map(v).remove(k).contains_key(q) by {
        if has_key(w, q) {
            let a = choose|a: int| 0 <= a < w.len() && (#[trigger] w[a]).0@ == q;
            let a2 = if a < i { a } else { a + 1 };
            assert(v[a2].0@ == q);
            if q == k {
                if a2 < i {
                    assert(v[a2].0@ != v[i].0@);
                } else {
                    assert(v[i].0@ != v[a2].0@);
                }
            }
        }
        if has_key(v, q) && q != k {
            let a = choose|a: int| 0 <= a < v.len() && (#[trigger] v[a]).0@ == q;
            assert(a != i);
            let a2 = if a < i { a } else { a - 1 };
            assert(w[a2].0@ == q);
        }
    }
    assert forall|q: Seq<char>| #[trigger] keyed_map(w).contains_key(q) implies keyed_map(w)[q] == keyed_map(v).remove(k)[q] by {
        let a = choose|a: int| 0 <= a < w.len() && (#[trigger] w[a]).0@ == q;
        let a2 = if a < i { a } else { a + 1 };
        lemma_value_at(w, a);
        lemma_value_at(v, a2);
    }
    assert(keyed_map(w) =~= keyed_map(v).remove(k));
}

/// In-memory session store used by the initial runtime pack.
#[derive(Debug, Default)]
pub struct InMemorySessionStore {
    max_turns: usize,
    sessions: Vec<(String, SessionMemory)>,
    legacy_history: Vec<(String, Vec<History>)>,
}

/// The turns a session holds after appending `turn` to what it held (`None`: nothing).
pub open spec fn appended(prev: Option<Seq<SessionMemoryTurn>>, turn: SessionMemoryTurn, max: nat) -> Seq<SessionMemoryTurn> {
    keep_last(
        match prev {
            Some(p) => p,
            None => Seq::empty(),
        }.push(turn),
        max,
    )
}

/// Finds the index of the entry keyed `k`.
fn find_key<V>(v: &Vec<(String, V)>, k: &str) -> (r: Option<usize>)
    requires
        unique_keys(v@),
    ensures
        r is None <==> !has_key(v@, k@),
        r matches Some(i) ==> i < v.len() && v@[i as int].0@ == k@,
{
    let mut i: usize = 0;
    while i < v.len()
        invariant
            i <= v.len(),
            forall|j: int| 0 <= j < i ==> (#[trigger] v@[j]).0@ != k@,
        decreases v.len() - i,
    {
        if crate::text::str_eq(v[i].0.as_str(), k) {
            return Some(i);
        }
        i += 1;
    }
    None
}

/// The actor a scope is keyed under (`anonymous` when none is given).
pub open spec fn actor_name(scope: SessionMemoryScope) -> Seq<char> {
    match scope.actor_id {
        Some(a) => a@,
        None => "anonymous"@,
    }
}

/// Two scopes of one session but different actors are keyed apart, so one actor never reads
/// another's memory.
pub proof fn law_actors_are_keyed_apart(a: SessionMemoryScope, b: SessionMemoryScope)
    requires
        a.session_id@ == b.session_id@,
        actor_name(a) != actor_name(b),
    ensures
        scope_key(a) != scope_key(b),
{
    let (x, y) = (actor_name(a), actor_name(b));
    let tail = ":"@ + a.session_id@;
    assert(scope_key(a) =~= x + tail);
    assert(scope_key(b) =~= y + tail);
    if scope_key(a) == scope_key(b) {
        assert(x.len() == y.len());
        assert(x =~= (x + tail).subrange(0, x.len() as int));
        assert(y =~= (y + tail).subrange(0, y.len() as int));
    }
}

/// Writing or clearing one scope leaves every scope with a different key exactly as it was.
pub proof fn law_scopes_are_isolated(
    sessions: Map<Seq<char>, Seq<SessionMemoryTurn>>,
    written: SessionMemoryScope,
    other: SessionMemoryScope,
    turns: Seq<SessionMemoryTurn>,
)
    requires
        scope_key(written) != scope_key(other),
    ensures
        sessions.insert(scope_key(written), turns).contains_key(scope_key(other))
            == sessions.contains_key(scope_key(other)),
        sessions.insert(scope_key(written), turns)[scope_key(other)] == sessions[scope_key(other)],
        sessions.remove(scope_key(written)).contains_key(scope_key(other))
            == sessions.contains_key(scope_key(other)),
        sessions.remove(scope_key(written))[scope_key(other)] == sessions[scope_key(other)],
{
}

/// After a clear, the scope has no memory to get.
pub proof fn law_clear_then_get_is_none(
    sessions: Map<Seq<char>, Seq<SessionMemoryTurn>>,
    scope: SessionMemoryScope,
)
    ensures
        !sessions.remove(scope_key(scope)).contains_key(scope_key(scope)),
{
}

/// An append keeps at most `max` turns: the most recent ones, in order, ending with the appended
/// turn whenever `max` is positive.
pub proof fn law_append_keeps_the_most_recent_turns(
    prev: Option<Seq<SessionMemoryTurn>>,
    turn: SessionMemoryTurn,
    max: nat,
)
    ensures
        ({
            let all = match prev {
                Some(p) => p,
                None => Seq::empty(),
            }.push(turn);
            let kept = appended(prev, turn, max);
            &&& kept.len() == if all.len() > max { max } else { all.len() }
            &&& kept =~= all.subrange(all.len() - kept.len(), all.len() as int)
            &&& max > 0 ==> kept.last() == turn
        }),
{
}

impl InMemorySessionStore {
    #[verifier::type_invariant]
    spec fn keys_unique(self) -> bool {
        unique_keys(self.sessions@) && unique_keys(self.legacy_history@)
    }

    /// The session memories by key.
    pub closed spec fn sessions(self) -> Map<Seq<char>, Seq<SessionMemoryTurn>> {
        keyed_map(self.sessions@).map_values(|m: SessionMemory| m.recent_turns@)
    }

    /// The legacy history lists by session id.
    pub closed spec fn histories(self) -> Map<Seq<char>, Seq<History>> {
        keyed_map(self.legacy_history@).map_values(|h: Vec<History>| h@)
    }

    /// The recent-turn cap.
    pub closed spec fn max_turns(self) -> usize {
        self.max_turns
    }

    /// Create an empty in-memory store with a max recent-turn cap.
    pub fn new(max_turns: usize) -> (s: Self)
        ensures
            s.max_turns() == max_turns,
            s.sessions() == Map::<Seq<char>, Seq<SessionMemoryTurn>>::empty(),
            s.histories() == Map::<Seq<char>, Seq<History>>::empty(),
    {
        let s = InMemorySessionStore { max_turns, sessions: Vec::new(), legacy_history: Vec::new() };
        assert(s.sessions() =~= Map::<Seq<char>, Seq<SessionMemoryTurn>>::empty());
        assert(s.histories() =~= Map::<Seq<char>, Seq<History>>::empty());
        s
    }

    /// The store key of a scope.
    pub fn key(scope: &SessionMemoryScope) -> (k: String)
        ensures
            k@ == scope_key(*scope),
    {
        match &scope.actor_id {
            Some(a) => concat3(a.as_str(), ":", scope.session_id.as_str()),
            None => concat3("anonymous", ":", scope.session_id.as_str()),
        }
    }

    /// Get session memory.
    pub fn get(&self, scope: &SessionMemoryScope) -> (r: Option<SessionMemory>)
        ensures
            r is Some <==> self.sessions().contains_key(scope_key(*scope)),
            r matches Some(m) ==> m.recent_turns@ == self.sessions()[scope_key(*scope)],
    {
        proof {
            use_type_invariant(self);
        }
        let k = Self::key(scope);
        match find_key(&self.sessions, k.as_str()) {
            Some(i) => {
                proof {
                    lemma_value_at(self.sessions@, i as int);
                }
                Some(SessionMemory { recent_turns: copy_turns_from(&self.sessions[i].1.recent_turns, 0) })
            },
            None => None,
        }
    }

    /// Append one summarized turn, keeping only the `max_turns` most recent; returns the
    /// session's memory after the append. No other session changes.
    pub fn append_turn(&mut self, scope: &SessionMemoryScope, turn: SessionMemoryTurn) -> (m: SessionMemory)
        ensures
            final(self).max_turns() == old(self).max_turns(),
            final(self).histories() == old(self).histories(),
            m.recent_turns@ == appended(
                if old(self).sessions().contains_key(scope_key(*scope)) { Some(old(self).sessions()[scope_key(*scope)]) } else { None },
                turn,
                old(self).max_turns() as nat,
            ),
            final(self).sessions() == old(self).sessions().insert(scope_key(*scope), m.recent_turns@),
    {
        proof {
            use_type_invariant(&*self);
        }
        let k = Self::key(scope);
        let ghost old_sessions = self.sessions@;
        let mut sessions: Vec<(String, SessionMemory)> = Vec::new();
        std::mem::swap(&mut sessions, &mut self.sessions);
        let idx = find_key(&sessions, k.as_str());
        let mut turns: Vec<SessionMemoryTurn> = match idx {
            Some(i) => copy_turns_from(&sessions[i].1.recent_turns, 0),
            None => Vec::new(),
        };
        proof {
            if let Some(i) = idx {
                lemma_value_at(old_sessions, i as int);
            }
        }
        turns.push(turn);
        let overflow: usize = if turns.len() > self.max_turns { turns.len() - self.max_turns } else { 0 };
        let kept = copy_turns_from(&turns, overflow);
        assert(kept@ == keep_last(turns@, self.max_turns as nat));
        let result = SessionMemory { recent_turns: copy_turns_from(&kept, 0) };
        assert(kept@.skip(0) =~= kept@);
        match idx {
            Some(i) => {
                let entry_key = sessions[i].0.clone();
                proof {
                    lemma_update(old_sessions, i as int, SessionMemory { recent_turns: kept });
                }
                sessions.set(i, (entry_key, SessionMemory { recent_turns: kept }));
            },
            None => {
                proof {
                    lemma_push(old_sessions, k, SessionMemory { recent_turns: kept });
                }
                sessions.push((k, SessionMemory { recent_turns: kept }));
            },
        }
        self.sessions = sessions;
        assert(self.sessions() =~= keyed_map(old_sessions).map_values(|m: SessionMemory| m.recent_turns@).insert(scope_key(*scope), result.recent_turns@));
        result
    }

    /// Clear session memory. No other session changes.
    pub fn clear(&mut self, scope: &SessionMemoryScope)
        ensures
            final(self).max_turns() == old(self).max_turns(),
            final(self).histories() == old(self).histories(),
            final(self).sessions() == old(self).sessions().remove(scope_key(*scope)),
    {
        proof {
            use_type_invariant(&*self);
        }
        let k = Self::key(scope);
        let ghost old_sessions = self.sessions@;
        let mut sessions: Vec<(String, SessionMemory)> = Vec::new();
        std::mem::swap(&mut sessions, &mut self.sessions);
        match find_key(&sessions, k.as_str()) {
            Some(i) => {
                proof {
                    lemma_remove(old_sessions, i as int);
                }
                sessions.remove(i);
            },
            None => {
                assert(!keyed_map(old_sessions).contains_key(k@));
            },
        }
        self.sessions = sessions;
        assert(self.sessions() =~= keyed_map(old_sessions).map_values(|m: SessionMemory| m.recent_turns@).remove(scope_key(*scope)));
    }

    /// Load history for a session id (empty when none was appended).
    pub fn load(&self, session_id: &str) -> (r: Vec<History>)
        ensures
            self.histories().contains_key(session_id@) ==> r@ == self.histories()[session_id@],
            !self.histories().contains_key(session_id@) ==> r@.len() == 0,
    {
        proof {
            use_type_invariant(self);
        }
        match find_key(&self.legacy_history, session_id) {
            Some(i) => {
                proof {
                    lemma_value_at(self.legacy_history@, i as int);
                }
                copy_histories(&self.legacy_history[i].1)
            },
            None => Vec::new(),
        }
    }

    /// Append one turn to a session id's history. No other state changes.
    pub fn append(&mut self, session_id: &str, turn: History)
        ensures
            final(self).max_turns() == old(self).max_turns(),
            final(self).sessions() == old(self).sessions(),
            final(self).histories() == old(self).histories().insert(
                session_id@,
                (if old(self).histories().contains_key(session_id@) { old(self).histories()[session_id@] } else { Seq::empty() }).push(turn),
            ),
    {
        proof {
            use_type_invariant(&*self);
        }
        let ghost old_hist = self.legacy_history@;
        let ghost expected = (if self.histories().contains_key(session_id@) { self.histories()[session_id@] } else { Seq::<History>::empty() }).push(turn);
        let mut legacy: Vec<(String, Vec<History>)> = Vec::new();
        std::mem::swap(&mut legacy, &mut self.legacy_history);
        match find_key(&legacy, session_id) {
            Some(i) => {
                proof {
                    lemma_value_at(old_hist, i as int);
                }
                let mut list = copy_histories(&legacy[i].1);
                list.push(turn);
                let entry_key = legacy[i].0.clone();
                proof {
                    lemma_update(old_hist, i as int, list);
                }
                legacy.set(i, (entry_key, list));
            },
            None => {
                let mut list: Vec<History> = Vec::new();
                list.push(turn);
                let key = to_owned_string(session_id);
                proof {
                    lemma_push(old_hist, key, list);
                }
                legacy.push((key, list));
            },
        }
        self.legacy_history = legacy;
        assert(self.histories() =~= keyed_map(old_hist).map_values(|h: Vec<History>| h@).insert(session_id@, expected));
    }
}


/// The session memory persistence contract: what a store holds is a map from scope key to the
/// scope's recent turns (at most the store's cap) and one from session id to its legacy history.
pub trait SessionMemoryStore {
    /// The memories held, by scope key.
    spec fn memory_map(&self) -> Map<Seq<char>, Seq<SessionMemoryTurn>>;

    /// The legacy histories held, by session id.
    spec fn history_map(&self) -> Map<Seq<char>, Seq<History>>;

    /// The most recent turns a scope keeps.
    spec fn turn_cap(&self) -> nat;

    /// The scope's memory, if it has any.
    fn get(&self, scope: &SessionMemoryScope) -> (r: Option<SessionMemory>)
        ensures
            r is Some <==> self.memory_map().contains_key(scope_key(*scope)),
            r matches Some(m) ==> m.recent_turns@ == self.memory_map()[scope_key(*scope)];

    /// Appends a turn to the scope, keeping the most recent `turn_cap` ones; returns the scope's
    /// memory after the append. Nothing else changes.
    fn append_turn(&mut self, scope: &SessionMemoryScope, turn: SessionMemoryTurn) -> (m:
        SessionMemory)
        ensures
            m.recent_turns@ == appended(
                if old(self).memory_map().contains_key(scope_key(*scope)) {
                    Some(old(self).memory_map()[scope_key(*scope)])
                } else {
                    None
                },
                turn,
                old(self).turn_cap(),
            ),
            final(self).memory_map() == old(self).memory_map().insert(scope_key(*scope), m.recent_turns@),
            final(self).history_map() == old(self).history_map(),
            final(self).turn_cap() == old(self).turn_cap();

    /// Forgets the scope's memory. Nothing else changes.
    fn clear(&mut self, scope: &SessionMemoryScope)
        ensures
            final(self).memory_map() == old(self).memory_map().remove(scope_key(*scope)),
            final(self).history_map() == old(self).history_map(),
            final(self).turn_cap() == old(self).turn_cap();

    /// The session's legacy history (empty when none was appended).
    fn load(&self, session_id: &str) -> (r: RuntimeResult<Vec<History>>)
        ensures
            r matches Ok(h) && h@ == if self.history_map().contains_key(session_id@) {
                self.history_map()[session_id@]
            } else {
                Seq::empty()
            };

    /// Appends one turn to the session's legacy history. Nothing else changes.
    fn append(&mut self, session_id: &str, turn: History) -> (r: RuntimeResult<()>)
        ensures
            r is Ok,
            final(self).history_map() == old(self).history_map().insert(
                session_id@,
                (if old(self).history_map().contains_key(session_id@) {
                    old(self).history_map()[session_id@]
                } else {
                    Seq::empty()
                }).push(turn),
            ),
            final(self).memory_map() == old(self).memory_map(),
            final(self).turn_cap() == old(self).turn_cap();
}

impl SessionMemoryStore for InMemorySessionStore {
    open spec fn memory_map(&self) -> Map<Seq<char>, Seq<SessionMemoryTurn>> {
        self.sessions()
    }

    open spec fn history_map(&self) -> Map<Seq<char>, Seq<History>> {
        self.histories()
    }

    open spec fn turn_cap(&self) -> nat {
        self.max_turns() as nat
    }

    fn get(&self, scope: &SessionMemoryScope) -> (r: Option<SessionMemory>) {
        InMemorySessionStore::get(self, scope)
    }

    fn append_turn(&mut self, scope: &SessionMemoryScope, turn: SessionMemoryTurn) -> (m:
        SessionMemory) {
        InMemorySessionStore::append_turn(self, scope, turn)
    }

    fn clear(&mut self, scope: &SessionMemoryScope) {
        InMemorySessionStore::clear(self, scope)
    }

    fn load(&self, session_id: &str) -> (r: RuntimeResult<Vec<History>>) {
        let h = InMemorySessionStore::load(self, session_id);
        assert(!self.histories().contains_key(session_id@) ==> h@ =~= Seq::<History>::empty());
        Ok(h)
    }

    fn append(&mut self, session_id: &str, turn: History) -> (r: RuntimeResult<()>) {
        InMemorySessionStore::append(self, session_id, turn);
        Ok(())
    }
}

} // verus!
