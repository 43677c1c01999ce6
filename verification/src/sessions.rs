//! The decisions of the current turns, by session: a bounded memory that forgets the session
//! that was written first.
use crate::text::same;
use crate::tier::Tier;
use std::collections::VecDeque;
use vstd::hash_map::StringHashMap;
use vstd::prelude::*;

verus! {

/// How many sessions are remembered.
pub const MAX_SESSIONS: usize = 1024;

/// The decision of a turn, and the request that it was made for.
#[derive(Debug, Clone, Copy, PartialEq, Eq, Structural)]
pub struct CachedRoute {
    pub req_id: u64,
    pub tier: Tier,
}

/// The remembered sessions, the one written first at the front.
pub type SessionList = Seq<(Seq<char>, CachedRoute)>;

/// The position of a session, or the number of sessions where it is not remembered.
pub open spec fn session_at(list: SessionList, k: Seq<char>) -> int
    decreases list.len(),
{
    if list.len() == 0 || list[0].0 == k {
        0
    } else {
        1 + session_at(list.skip(1), k)
    }
}

/// The decision that is remembered for a session.
pub open spec fn recalled(list: SessionList, k: Seq<char>) -> Option<CachedRoute> {
    if 0 <= session_at(list, k) < list.len() {
        Some(list[session_at(list, k)].1)
    } else {
        None
    }
}

/// The sessions after a decision was written: in place for a session that is remembered, else
/// at the end, where the one at the front is forgotten once there are too many.
pub open spec fn remembered(list: SessionList, k: Seq<char>, c: CachedRoute) -> SessionList {
    if 0 <= session_at(list, k) < list.len() {
        list.update(session_at(list, k), (k, c))
    } else if list.len() < MAX_SESSIONS {
        list.push((k, c))
    } else {
        list.push((k, c)).skip(1)
    }
}

/// No session stands in the list twice.
pub open spec fn distinct_sessions(list: SessionList) -> bool {
    forall|i: int, j: int|
        0 <= i < j < list.len() ==> (#[trigger] list[i]).0 != (#[trigger] list[j]).0
}

/// `session_at` is the first position of the session.
pub proof fn lemma_session_at(list: SessionList, k: Seq<char>)
    ensures
        0 <= session_at(list, k) <= list.len(),
        session_at(list, k) < list.len() ==> list[session_at(list, k)].0 == k,
        forall|j: int| 0 <= j < session_at(list, k) ==> (#[trigger] list[j]).0 != k,
    decreases list.len(),
{
    if list.len() > 0 && list[0].0 != k {
        let rest = list.skip(1);
        lemma_session_at(rest, k);
        assert forall|j: int| 0 <= j < session_at(list, k) implies (#[trigger] list[j]).0 != k by {
            if j > 0 {
                assert(list[j] == rest[j - 1]);
            }
        }
    }
}

proof fn lemma_session_at_unique(list: SessionList, k: Seq<char>, at: int)
    requires
        0 <= at <= list.len(),
        at < list.len() ==> list[at].0 == k,
        forall|j: int| 0 <= j < at ==> (#[trigger] list[j]).0 != k,
    ensures
        session_at(list, k) == at,
{
    lemma_session_at(list, k);
    let f = session_at(list, k);
    if f < at {
        assert(list[f].0 != k);
    }
    if at < f {
        assert(list[at].0 != k);
    }
}

/// What was written for a session is what is recalled for it. Every other session is recalled
/// as before, but for the one at the front, which a full memory forgets for a new session.
pub proof fn law_remember_then_recall(
    list: SessionList,
    k: Seq<char>,
    c: CachedRoute,
    q: Seq<char>,
)
    requires
        distinct_sessions(list),
        list.len() <= MAX_SESSIONS,
    ensures
        recalled(remembered(list, k, c), q) == (if q == k {
            Some(c)
        } else if recalled(list, k) is None && list.len() == MAX_SESSIONS && q == list[0].0 {
            None
        } else {
            recalled(list, q)
        }),
{
    lemma_session_at(list, k);
    lemma_session_at(list, q);
    let new = remembered(list, k, c);
    let at = session_at(list, q);
    if recalled(list, k) is Some {
        if q == k {
            lemma_session_at_unique(new, q, at);
        } else if at < list.len() {
            assert(new[at] == list[at]);
            lemma_session_at_unique(new, q, at);
        } else {
            lemma_session_at_unique(new, q, new.len() as int);
        }
    } else if list.len() < MAX_SESSIONS {
        if q == k {
            lemma_session_at_unique(new, q, list.len() as int);
        } else if at < list.len() {
            lemma_session_at_unique(new, q, at);
        } else {
            lemma_session_at_unique(new, q, new.len() as int);
        }
    } else {
        let last = new.len() - 1;
        assert forall|j: int| 0 <= j < last implies #[trigger] new[j] == list[j + 1] by {}
        if q == k {
            lemma_session_at_unique(new, q, last);
        } else if q == list[0].0 {
            assert forall|j: int| 0 <= j < new.len() implies (#[trigger] new[j]).0 != q by {
                if j < last {
                    assert(list[0].0 != list[j + 1].0);
                }
            }
            lemma_session_at_unique(new, q, new.len() as int);
        } else if at < list.len() {
            assert(at > 0);
            assert(new[at - 1] == list[at]);
            lemma_session_at_unique(new, q, at - 1);
        } else {
            assert forall|j: int| 0 <= j < new.len() implies (#[trigger] new[j]).0 != q by {
                if j < last {
                    assert(list[j + 1].0 != q);
                }
            }
            lemma_session_at_unique(new, q, new.len() as int);
        }
    }
}

/// Writing a decision keeps the sessions distinct and their number bounded.
pub proof fn law_memory_is_bounded(list: SessionList, k: Seq<char>, c: CachedRoute)
    requires
        distinct_sessions(list),
        list.len() <= MAX_SESSIONS,
    ensures
        distinct_sessions(remembered(list, k, c)),
        remembered(list, k, c).len() <= MAX_SESSIONS,
{
    lemma_session_at(list, k);
    let new = remembered(list, k, c);
    if recalled(list, k) is None && list.len() == MAX_SESSIONS {
        let last = new.len() - 1;
        assert forall|j: int| 0 <= j < last implies #[trigger] new[j] == list[j + 1] by {}
        assert forall|i: int, j: int| 0 <= i < j < new.len() implies (#[trigger] new[i]).0 != (
        #[trigger] new[j]).0 by {
            if j < last {
                assert(list[i + 1].0 != list[j + 1].0);
            } else {
                assert(list[i + 1].0 != k);
            }
        }
    }
}

/// The sessions after one was forgotten.
pub open spec fn forgotten(list: SessionList, k: Seq<char>) -> SessionList {
    if 0 <= session_at(list, k) < list.len() {
        list.remove(session_at(list, k))
    } else {
        list
    }
}

/// A session that was forgotten is not recalled, and every other session is recalled as before.
pub proof fn law_forget_then_recall(list: SessionList, k: Seq<char>, q: Seq<char>)
    requires
        distinct_sessions(list),
    ensures
        recalled(forgotten(list, k), q) == (if q == k {
            None
        } else {
            recalled(list, q)
        }),
        distinct_sessions(forgotten(list, k)),
        forgotten(list, k).len() <= list.len(),
{
    lemma_session_at(list, k);
    lemma_session_at(list, q);
    let new = forgotten(list, k);
    let gone = session_at(list, k);
    let at = session_at(list, q);
    if gone < list.len() {
        assert forall|j: int| 0 <= j < new.len() implies #[trigger] new[j] == list[if j < gone {
            j
        } else {
            j + 1
        }] by {}
        assert forall|i: int, j: int| 0 <= i < j < new.len() implies (#[trigger] new[i]).0 != (
        #[trigger] new[j]).0 by {
            let a = if i < gone { i } else { i + 1 };
            let b = if j < gone { j } else { j + 1 };
            assert(list[a].0 != list[b].0);
        }
        if q == k {
            assert forall|j: int| 0 <= j < new.len() implies (#[trigger] new[j]).0 != q by {
                if j < gone {
                    assert(list[j].0 != k);
                } else {
                    assert(list[gone].0 != list[j + 1].0);
                }
            }
            lemma_session_at_unique(new, q, new.len() as int);
        } else if at < list.len() {
            let pos = if at < gone { at } else { at - 1 };
            assert(new[pos] == list[at]);
            assert forall|j: int| 0 <= j < pos implies (#[trigger] new[j]).0 != q by {
                assert(list[if j < gone { j } else { j + 1 }].0 != q);
            }
            lemma_session_at_unique(new, q, pos);
        } else {
            assert forall|j: int| 0 <= j < new.len() implies (#[trigger] new[j]).0 != q by {
                assert(list[if j < gone { j } else { j + 1 }].0 != q);
            }
            lemma_session_at_unique(new, q, new.len() as int);
        }
    } else if q == k {
        lemma_session_at_unique(new, q, new.len() as int);
    }
}

/// What happens to the memory: for a session, a decision is written, or it is forgotten.
pub type MemoryEvents = Seq<(Seq<char>, Option<CachedRoute>)>;

/// The sessions after one event.
pub open spec fn after_event(
    list: SessionList,
    k: Seq<char>,
    written: Option<CachedRoute>,
) -> SessionList {
    match written {
        Some(c) => remembered(list, k, c),
        None => forgotten(list, k),
    }
}

/// The sessions after several events, in turn.
pub open spec fn after_events(list: SessionList, events: MemoryEvents) -> SessionList
    decreases events.len(),
{
    if events.len() == 0 {
        list
    } else {
        after_event(
            after_events(list, events.drop_last()),
            events.last().0,
            events.last().1,
        )
    }
}

/// How many of the events write a decision for a session that is not remembered at that time.
pub open spec fn newcomers(list: SessionList, events: MemoryEvents) -> nat
    decreases events.len(),
{
    if events.len() == 0 {
        0
    } else {
        newcomers(list, events.drop_last()) + (if events.last().1 is Some && recalled(
            after_events(list, events.drop_last()),
            events.last().0,
        ) is None {
            1nat
        } else {
            0nat
        })
    }
}

/// How many of the remembered sessions were first written after a session.
pub open spec fn younger(list: SessionList, k: Seq<char>) -> int {
    list.len() - 1 - session_at(list, k)
}

/// A turn keeps its decision whatever happens to other sessions, until as many sessions as the
/// memory holds have been newly written since this one was.
pub proof fn law_turn_keeps_its_decision(
    list: SessionList,
    k: Seq<char>,
    c: CachedRoute,
    events: MemoryEvents,
)
    requires
        distinct_sessions(list),
        list.len() <= MAX_SESSIONS,
        forall|i: int| 0 <= i < events.len() ==> (#[trigger] events[i]).0 != k,
        younger(remembered(list, k, c), k) + newcomers(remembered(list, k, c), events)
            < MAX_SESSIONS,
    ensures
        recalled(after_events(remembered(list, k, c), events), k) == Some(c),
{
    law_remember_then_recall(list, k, c, k);
    law_memory_is_bounded(list, k, c);
    lemma_events_keep(remembered(list, k, c), k, events);
}

/// A session that was not remembered keeps its first decision for at least as many newly written
/// sessions as the memory holds, less one.
pub proof fn law_new_session_is_the_youngest(list: SessionList, k: Seq<char>, c: CachedRoute)
    requires
        distinct_sessions(list),
        list.len() <= MAX_SESSIONS,
        recalled(list, k) is None,
    ensures
        younger(remembered(list, k, c), k) == 0,
{
    lemma_session_at(list, k);
    let new = remembered(list, k, c);
    let last = new.len() - 1;
    assert forall|j: int| 0 <= j < last implies (#[trigger] new[j]).0 != k by {
        if list.len() < MAX_SESSIONS {
            assert(new[j] == list[j]);
        } else {
            assert(new[j] == list[j + 1]);
        }
    }
    lemma_session_at_unique(new, k, last);
}

proof fn lemma_events_keep(list: SessionList, k: Seq<char>, events: MemoryEvents)
    requires
        distinct_sessions(list),
        list.len() <= MAX_SESSIONS,
        recalled(list, k) is Some,
        forall|i: int| 0 <= i < events.len() ==> (#[trigger] events[i]).0 != k,
        younger(list, k) + newcomers(list, events) < MAX_SESSIONS,
    ensures
        ({
            let end = after_events(list, events);
            &&& recalled(end, k) == recalled(list, k)
            &&& distinct_sessions(end)
            &&& end.len() <= MAX_SESSIONS
            &&& younger(end, k) <= younger(list, k) + newcomers(list, events)
        }),
    decreases events.len(),
{
    if events.len() > 0 {
        let before = events.drop_last();
        assert forall|i: int| 0 <= i < before.len() implies (#[trigger] before[i]).0 != k by {
            assert(events[i].0 != k);
        }
        lemma_events_keep(list, k, before);
        assert(events[events.len() - 1].0 != k);
        lemma_event_keeps(after_events(list, before), k, events.last().0, events.last().1);
    }
}

proof fn lemma_event_keeps(
    list: SessionList,
    k: Seq<char>,
    other: Seq<char>,
    written: Option<CachedRoute>,
)
    requires
        distinct_sessions(list),
        list.len() <= MAX_SESSIONS,
        recalled(list, k) is Some,
        other != k,
        younger(list, k) + (if written is Some && recalled(list, other) is None {
            1int
        } else {
            0
        }) < MAX_SESSIONS,
    ensures
        ({
            let end = after_event(list, other, written);
            &&& recalled(end, k) == recalled(list, k)
            &&& distinct_sessions(end)
            &&& end.len() <= MAX_SESSIONS
            &&& younger(end, k) <= younger(list, k) + (if written is Some && recalled(list, other)
                is None {
                1int
            } else {
                0
            })
        }),
{
    let end = after_event(list, other, written);
    lemma_session_at(list, k);
    lemma_session_at(list, other);
    lemma_session_at(end, k);
    let at = session_at(list, k);
    let theirs = session_at(list, other);
    match written {
        Some(c) => {
            law_remember_then_recall(list, other, c, k);
            law_memory_is_bounded(list, other, c);
            if theirs < list.len() {
                assert(end[at] == list[at]);
                lemma_position_unique(end, k, at);
            } else if list.len() < MAX_SESSIONS {
                assert(end[at] == list[at]);
                lemma_position_unique(end, k, at);
            } else {
                assert(at > 0);
                assert(end[at - 1] == list[at]);
                lemma_position_unique(end, k, at - 1);
            }
        },
        None => {
            law_forget_then_recall(list, other, k);
            if theirs < list.len() {
                let pos = if at < theirs { at } else { at - 1 };
                assert(end[pos] == list[at]);
                lemma_position_unique(end, k, pos);
            }
        },
    }
}

/// In a list without repetition a session stands at one position.
proof fn lemma_position_unique(list: SessionList, k: Seq<char>, at: int)
    requires
        distinct_sessions(list),
        0 <= at < list.len(),
        list[at].0 == k,
    ensures
        session_at(list, k) == at,
{
    assert forall|j: int| 0 <= j < at implies (#[trigger] list[j]).0 != k by {
        assert(list[j].0 != list[at].0);
    }
    lemma_session_at_unique(list, k, at);
}

/// The decisions of the current turns.
pub struct Sessions {
    map: StringHashMap<CachedRoute>,
    order: VecDeque<String>,
}

impl Sessions {
    /// The remembered sessions, the one written first at the front.
    pub closed spec fn list(self) -> SessionList {
        Seq::new(
            self.order@.len(),
            |i: int| (self.order@[i]@, self.map@[self.order@[i]@]),
        )
    }

    #[verifier::type_invariant]
    spec fn wf(self) -> bool {
        &&& self.order@.len() <= MAX_SESSIONS
        &&& forall|i: int, j: int|
            0 <= i < j < self.order@.len() ==> (#[trigger] self.order@[i])@ != (
            #[trigger] self.order@[j])@
        &&& forall|i: int|
            0 <= i < self.order@.len() ==> self.map@.contains_key((#[trigger] self.order@[i])@)
        &&& forall|k: Seq<char>|
            self.map@.contains_key(k) ==> exists|i: int|
                0 <= i < self.order@.len() && (#[trigger] self.order@[i])@ == k
    }

    proof fn lemma_list(self)
        requires
            self.wf(),
        ensures
            distinct_sessions(self.list()),
            self.list().len() == self.order@.len(),
    {
        let list = self.list();
        assert forall|i: int, j: int| 0 <= i < j < list.len() implies (#[trigger] list[i]).0 != (
        #[trigger] list[j]).0 by {
            assert(self.order@[i]@ != self.order@[j]@);
        }
    }

    proof fn lemma_position(self, k: Seq<char>)
        requires
            self.wf(),
        ensures
            self.map@.contains_key(k) <==> session_at(self.list(), k) < self.list().len(),
            self.map@.contains_key(k) ==> recalled(self.list(), k) == Some(self.map@[k]),
            0 <= session_at(self.list(), k) <= self.list().len(),
    {
        self.lemma_list();
        lemma_session_at(self.list(), k);
        let at = session_at(self.list(), k);
        if at < self.list().len() {
            assert(self.order@[at]@ == k);
        } else if self.map@.contains_key(k) {
            let i = choose|i: int| 0 <= i < self.order@.len() && (#[trigger] self.order@[i])@ == k;
            assert(self.list()[i].0 == k);
        }
    }

    /// No sessions.
    pub fn new() -> (r: Sessions)
        ensures
            r.list() == SessionList::empty(),
    {
        let r = Sessions { map: StringHashMap::new(), order: VecDeque::new() };
        assert(r.list() =~= SessionList::empty());
        r
    }

    /// The decision that is remembered for a session. No session is remembered twice, and never
    /// more of them than the memory holds.
    pub fn recall(&self, k: &str) -> (r: Option<CachedRoute>)
        ensures
            r == recalled(self.list(), k@),
            distinct_sessions(self.list()),
            self.list().len() <= MAX_SESSIONS,
    {
        proof {
            use_type_invariant(self);
            self.lemma_position(k@);
            self.lemma_list();
        }
        match self.map.get(k) {
            Some(c) => Some(*c),
            None => None,
        }
    }

    /// Forgets the decision of a session.
    pub fn forget(self, k: &str) -> (r: Sessions)
        ensures
            r.list() == forgotten(self.list(), k@),
    {
        proof {
            use_type_invariant(&self);
            self.lemma_position(k@);
            self.lemma_list();
            lemma_session_at(self.list(), k@);
            law_forget_then_recall(self.list(), k@, k@);
        }
        let ghost before = self;
        let mut map = self.map;
        let mut order = self.order;
        if !map.contains_key(k) {
            return Sessions { map, order };
        }
        let mut at: usize = 0;
        while !same(order[at].as_str(), k)
            invariant
                before.wf(),
                order@ == before.order@,
                at < order@.len(),
                exists|i: int| at <= i < order@.len() && (#[trigger] order@[i])@ == k@,
                forall|j: int| 0 <= j < at ==> (#[trigger] order@[j])@ != k@,
            decreases order@.len() - at,
        {
            at = at + 1;
        }
        proof {
            assert forall|j: int| 0 <= j < at implies (#[trigger] before.list()[j]).0 != k@ by {
                assert(before.order@[j]@ != k@);
            }
            lemma_session_at_unique(before.list(), k@, at as int);
        }
        map.remove(k);
        let _ = order.remove(at);
        proof {
            assert forall|i: int| 0 <= i < order@.len() implies #[trigger] order@[i]
                == before.order@[if i < at { i } else { i + 1 }] by {}
            assert forall|i: int| 0 <= i < order@.len() implies (#[trigger] order@[i])@ != k@ by {
                if i < at {
                    assert(before.order@[i]@ != before.order@[at as int]@);
                } else {
                    assert(before.order@[at as int]@ != before.order@[i + 1]@);
                }
            }
            assert forall|i: int, j: int| 0 <= i < j < order@.len() implies (
            #[trigger] order@[i])@ != (#[trigger] order@[j])@ by {
                let a = if i < at { i } else { i + 1 };
                let b = if j < at { j } else { j + 1 };
                assert(before.order@[a]@ != before.order@[b]@);
            }
            assert forall|i: int| 0 <= i < order@.len() implies map@.contains_key(
                (#[trigger] order@[i])@,
            ) by {
                assert(before.map@.contains_key(
                    before.order@[if i < at { i } else { i + 1 }]@,
                ));
            }
            assert forall|q: Seq<char>| map@.contains_key(q) implies exists|i: int|
                0 <= i < order@.len() && (#[trigger] order@[i])@ == q by {
                assert(before.map@.contains_key(q));
                let i = choose|i: int|
                    0 <= i < before.order@.len() && (#[trigger] before.order@[i])@ == q;
                assert(i != at);
                assert(order@[if i < at { i } else { i - 1 }]@ == q);
            }
        }
        let r = Sessions { map, order };
        proof {
            assert(r.list() =~= forgotten(before.list(), k@)) by {
                assert forall|i: int| 0 <= i < r.list().len() implies #[trigger] r.list()[i]
                    == forgotten(before.list(), k@)[i] by {
                    assert(r.order@[i]@ != k@);
                }
            }
        }
        r
    }

    /// Writes the decision of a session.
    pub fn remember(self, k: &str, c: CachedRoute) -> (r: Sessions)
        ensures
            r.list() == remembered(self.list(), k@, c),
    {
        proof {
            use_type_invariant(&self);
            self.lemma_position(k@);
            self.lemma_list();
            lemma_session_at(self.list(), k@);
        }
        let ghost before = self;
        let mut map = self.map;
        let mut order = self.order;
        let known = map.contains_key(k);
        map.insert(k.to_owned(), c);
        if known {
            let r = Sessions { map, order };
            proof {
                let at = session_at(before.list(), k@);
                assert(r.list() =~= remembered(before.list(), k@, c)) by {
                    assert forall|i: int| 0 <= i < r.list().len() implies #[trigger] r.list()[i]
                        == remembered(before.list(), k@, c)[i] by {
                        assert(before.list()[i].0 == before.order@[i]@);
                        if i != at {
                            if i < at {
                                assert(before.list()[i].0 != before.list()[at].0);
                            } else {
                                assert(before.list()[at].0 != before.list()[i].0);
                            }
                        }
                    }
                }
            }
            return r;
        }
        let ghost had = order@;
        order.push_back(k.to_owned());
        if order.len() > MAX_SESSIONS {
            match order.pop_front() {
                Some(oldest) => {
                    map.remove(oldest.as_str());
                    proof {
                        assert(oldest@ == before.list()[0].0);
                        assert(oldest@ != k@);
                        assert forall|i: int| 0 <= i < order@.len() implies (#[trigger] order@[i])@
                            == (if i < order@.len() - 1 {
                            had[i + 1]@
                        } else {
                            k@
                        }) && order@[i]@ != oldest@ by {
                            if i < order@.len() - 1 {
                                assert(before.list()[0].0 != before.list()[i + 1].0);
                            }
                        }
                        assert forall|i: int, j: int| 0 <= i < j < order@.len() implies (
                        #[trigger] order@[i])@ != (#[trigger] order@[j])@ by {
                            if j < order@.len() - 1 {
                                assert(had[i + 1]@ != had[j + 1]@);
                            } else {
                                assert(before.list()[i + 1].0 != k@);
                            }
                        }
                        assert forall|q: Seq<char>| map@.contains_key(q) implies exists|i: int|
                            0 <= i < order@.len() && (#[trigger] order@[i])@ == q by {
                            if q == k@ {
                                assert(order@[order@.len() - 1]@ == q);
                            } else {
                                assert(before.map@.contains_key(q));
                                let i = choose|i: int|
                                    0 <= i < had.len() && (#[trigger] had[i])@ == q;
                                assert(i > 0);
                                assert(order@[i - 1]@ == q);
                            }
                        }
                        assert forall|i: int| 0 <= i < order@.len() implies map@.contains_key(
                            (#[trigger] order@[i])@,
                        ) by {
                            if i < order@.len() - 1 {
                                assert(before.map@.contains_key(had[i + 1]@));
                            }
                        }
                    }
                },
                None => {},
            }
            let r = Sessions { map, order };
            proof {
                assert(r.list() =~= remembered(before.list(), k@, c)) by {
                    assert forall|i: int| 0 <= i < r.list().len() implies #[trigger] r.list()[i]
                        == remembered(before.list(), k@, c)[i] by {
                        if i < r.list().len() - 1 {
                            assert(r.order@[i]@ == had[i + 1]@);
                            assert(before.list()[i + 1].0 != k@);
                        }
                    }
                }
            }
            return r;
        }
        proof {
            assert forall|i: int, j: int| 0 <= i < j < order@.len() implies (
            #[trigger] order@[i])@ != (#[trigger] order@[j])@ by {
                if j < order@.len() - 1 {
                    assert(had[i]@ != had[j]@);
                } else {
                    assert(before.list()[i].0 != k@);
                }
            }
            assert forall|q: Seq<char>| map@.contains_key(q) implies exists|i: int|
                0 <= i < order@.len() && (#[trigger] order@[i])@ == q by {
                if q == k@ {
                    assert(order@[order@.len() - 1]@ == q);
                } else {
                    assert(before.map@.contains_key(q));
                    let i = choose|i: int| 0 <= i < had.len() && (#[trigger] had[i])@ == q;
                    assert(order@[i]@ == q);
                }
            }
            assert forall|i: int| 0 <= i < order@.len() implies map@.contains_key(
                (#[trigger] order@[i])@,
            ) by {
                if i < order@.len() - 1 {
                    assert(before.map@.contains_key(had[i]@));
                }
            }
        }
        let r = Sessions { map, order };
        proof {
            assert(r.list() =~= remembered(before.list(), k@, c)) by {
                assert forall|i: int| 0 <= i < r.list().len() implies #[trigger] r.list()[i]
                    == remembered(before.list(), k@, c)[i] by {
                    if i < r.list().len() - 1 {
                        assert(before.list()[i].0 != k@);
                    }
                }
            }
        }
        r
    }
}

} // verus!
