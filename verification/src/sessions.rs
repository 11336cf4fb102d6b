//! The sessions that wait for the data socket of an agent.

use crate::control::ControlMessage;
use crate::text::same_text;
use vstd::prelude::*;

verus! {

/// Seconds that a manager waits for an agent to dial back.
pub const DIAL_BACK_SECS: u64 = 10;

/// The sessions that wait for a data socket, by identifier. Each holds the
/// slot that the socket is handed to.
pub struct PendingSessions<S> {
    entries: Vec<(String, S)>,
}

/// No identifier occurs twice.
spec fn distinct<S>(entries: Seq<(String, S)>) -> bool {
    forall|i: int, j: int|
        0 <= i < entries.len() && 0 <= j < entries.len() && #[trigger] entries[i].0@
            == #[trigger] entries[j].0@ ==> i == j
}

/// Whether an entry stands at an index under an identifier.
spec fn entry_at<S>(entries: Seq<(String, S)>, i: int, id: Seq<char>) -> bool {
    0 <= i < entries.len() && entries[i].0@ == id
}

/// The slots of the entries by identifier.
spec fn slots<S>(entries: Seq<(String, S)>) -> Map<Seq<char>, S> {
    Map::new(
        |id: Seq<char>| exists|i: int| entry_at(entries, i, id),
        |id: Seq<char>| entries[choose|i: int| entry_at(entries, i, id)].1,
    )
}

proof fn lemma_slot_at<S>(entries: Seq<(String, S)>, i: int)
    requires
        distinct(entries),
        0 <= i < entries.len(),
    ensures
        slots(entries).contains_key(entries[i].0@),
        slots(entries)[entries[i].0@] == entries[i].1,
{
    let id = entries[i].0@;
    assert(entry_at(entries, i, id));
    let j = choose|j: int| entry_at(entries, j, id);
    assert(entry_at(entries, j, id));
    assert(entries[i].0@ == entries[j].0@);
}

impl<S> View for PendingSessions<S> {
    type V = Map<Seq<char>, S>;

    closed spec fn view(&self) -> Map<Seq<char>, S> {
        slots(self.entries@)
    }
}

impl<S> PendingSessions<S> {
    #[verifier::type_invariant]
    spec fn inv(self) -> bool {
        distinct(self.entries@)
    }

    /// No session waits.
    pub fn new() -> (r: Self)
        ensures
            r@ == Map::<Seq<char>, S>::empty(),
    {
        let r = PendingSessions { entries: Vec::new() };
        assert(r@ =~= Map::<Seq<char>, S>::empty());
        r
    }

    /// The index of a session.
    fn find(&self, session_id: &str) -> (r: Option<usize>)
        ensures
            match r {
                Some(i) => i < self.entries@.len() && self.entries@[i as int].0@ == session_id@,
                None => !self@.contains_key(session_id@),
            },
    {
        let mut i: usize = 0;
        while i < self.entries.len()
            invariant
                i <= self.entries@.len(),
                forall|k: int| 0 <= k < i ==> (#[trigger] self.entries@[k]).0@ != session_id@,
            decreases self.entries@.len() - i,
        {
            if same_text(self.entries[i].0.as_str(), session_id) {
                return Some(i);
            }
            i += 1;
        }
        assert(!self@.contains_key(session_id@)) by {
            if self@.contains_key(session_id@) {
                let k = choose|k: int| entry_at(self.entries@, k, session_id@);
                assert(entry_at(self.entries@, k, session_id@));
            }
        }
        None
    }

    /// Takes a session out and hands over its slot, where it waits.
    pub fn claim(&mut self, session_id: &str) -> (r: Option<S>)
        ensures
            final(self)@ == old(self)@.remove(session_id@),
            r is Some <==> old(self)@.contains_key(session_id@),
            r matches Some(slot) ==> slot == old(self)@[session_id@],
    {
        proof {
            use_type_invariant(&*self);
        }
        let ghost before = self.entries@;
        match self.find(session_id) {
            Some(i) => {
                let mut entries: Vec<(String, S)> = Vec::new();
                std::mem::swap(&mut entries, &mut self.entries);
                let (_, slot) = entries.swap_remove(i);
                proof {
                    lemma_slot_at(before, i as int);
                    lemma_swap_removed(before, entries@, i as int);
                }
                self.entries = entries;
                Some(slot)
            },
            None => {
                assert(self@.remove(session_id@) =~= self@);
                None
            },
        }
    }

    /// Lets a session wait with a slot; it takes the place of one of the same
    /// identifier.
    pub fn insert(&mut self, session_id: String, slot: S)
        ensures
            final(self)@ == old(self)@.insert(session_id@, slot),
    {
        let _ = self.claim(session_id.as_str());
        proof {
            use_type_invariant(&*self);
        }
        let ghost before = self.entries@;
        let ghost id = session_id@;
        let mut entries: Vec<(String, S)> = Vec::new();
        std::mem::swap(&mut entries, &mut self.entries);
        entries.push((session_id, slot));
        proof {
            assert(entries@.drop_last() =~= before);
            lemma_pushed(before, entries@, id, slot);
        }
        self.entries = entries;
        assert(self@ =~= old(self)@.insert(id, slot));
    }
}

proof fn lemma_swap_removed<S>(before: Seq<(String, S)>, after: Seq<(String, S)>, i: int)
    requires
        distinct(before),
        0 <= i < before.len(),
        after == before.update(i, before.last()).drop_last(),
    ensures
        distinct(after),
        slots(after) == slots(before).remove(before[i].0@),
{
    let n = before.len() - 1;
    assert forall|a: int, b: int|
        0 <= a < after.len() && 0 <= b < after.len() && #[trigger] after[a].0@
            == #[trigger] after[b].0@ implies a == b by {
        let x = if a == i {
            n
        } else {
            a
        };
        let y = if b == i {
            n
        } else {
            b
        };
        assert(before[x].0@ == before[y].0@);
    }
    let removed = slots(before).remove(before[i].0@);
    assert forall|id: Seq<char>| #[trigger] slots(after).contains_key(id) implies removed.contains_key(
        id,
    ) && removed[id] == slots(after)[id] by {
        let k = choose|k: int| entry_at(after, k, id);
        assert(entry_at(after, k, id));
        let x = if k == i {
            n
        } else {
            k
        };
        lemma_slot_at(after, k);
        lemma_slot_at(before, x);
        if id == before[i].0@ {
            assert(before[x].0@ == before[i].0@);
        }
    }
    assert forall|id: Seq<char>| #[trigger] removed.contains_key(id) implies slots(
        after,
    ).contains_key(id) by {
        let k = choose|k: int| entry_at(before, k, id);
        assert(entry_at(before, k, id));
        let x = if k == n {
            i
        } else {
            k
        };
        assert(entry_at(after, x, id));
    }
    assert(slots(after) =~= removed);
}

proof fn lemma_pushed<S>(
    before: Seq<(String, S)>,
    after: Seq<(String, S)>,
    id: Seq<char>,
    slot: S,
)
    requires
        distinct(before),
        !slots(before).contains_key(id),
        after.len() == before.len() + 1,
        after.drop_last() == before,
        after.last().0@ == id,
        after.last().1 == slot,
    ensures
        distinct(after),
        slots(after) == slots(before).insert(id, slot),
{
    let n = before.len() as int;
    assert forall|a: int| 0 <= a < n implies (#[trigger] after[a]).0@ != id by {
        assert(after[a] == before[a]);
        if before[a].0@ == id {
            assert(entry_at(before, a, id));
        }
    }
    assert forall|a: int, b: int|
        0 <= a < after.len() && 0 <= b < after.len() && #[trigger] after[a].0@
            == #[trigger] after[b].0@ implies a == b by {
        if a < n && b < n {
            assert(before[a].0@ == before[b].0@);
        }
    }
    let inserted = slots(before).insert(id, slot);
    assert forall|k: Seq<char>| #[trigger] slots(after).contains_key(k) implies inserted.contains_key(
        k,
    ) && inserted[k] == slots(after)[k] by {
        let a = choose|a: int| entry_at(after, a, k);
        assert(entry_at(after, a, k));
        lemma_slot_at(after, a);
        if a < n {
            assert(after[a] == before[a]);
            lemma_slot_at(before, a);
        }
    }
    assert forall|k: Seq<char>| #[trigger] inserted.contains_key(k) implies slots(
        after,
    ).contains_key(k) by {
        if k == id {
            assert(entry_at(after, n, k));
        } else {
            let a = choose|a: int| entry_at(before, a, k);
            assert(entry_at(before, a, k));
            assert(after[a] == before[a]);
            assert(entry_at(after, a, k));
        }
    }
    assert(slots(after) =~= inserted);
}

/// How far the request of a manager has come.
#[derive(PartialEq, Eq, Structural, Clone, Copy, Debug)]
pub enum ManagerStage {
    /// The session waits in its slot, and the agent is looked up.
    LookingUp,
    /// The agent is told of the session.
    Notifying,
    /// The agent is awaited to dial back.
    AwaitingData,
    /// The two sockets are bridged.
    Bridging,
    /// The session came to nothing.
    GivenUp,
}

/// What happens to the request of a manager.
#[derive(PartialEq, Eq, Structural, Clone, Copy, Debug)]
pub enum ManagerEvent {
    /// The agent was looked up.
    LookedUp { online: bool },
    /// The agent's control channel took the message, or did not.
    Notified { delivered: bool },
    /// The agent's data socket arrived in time, or did not.
    DialedBack { arrived: bool },
}

/// Why a session came to nothing.
#[derive(PartialEq, Eq, Structural, Clone, Copy, Debug)]
pub enum GiveUpReason {
    AgentOffline,
    AgentUnreachable,
    NoDataSocket,
}

/// What the request of a manager calls for next.
pub enum ManagerAction {
    /// Send a message to the agent.
    Notify(ControlMessage),
    /// Wait for the agent's data socket for some seconds.
    AwaitData { seconds: u64 },
    /// Bridge the manager's socket and the agent's.
    Bridge,
    /// Close the manager's socket.
    GiveUp(GiveUpReason),
    /// Nothing: the event was not awaited.
    Nothing,
}

/// The stage that follows an event. An event that the stage does not await
/// changes nothing.
pub open spec fn next_stage(stage: ManagerStage, event: ManagerEvent) -> ManagerStage {
    match (stage, event) {
        (ManagerStage::LookingUp, ManagerEvent::LookedUp { online }) => if online {
            ManagerStage::Notifying
        } else {
            ManagerStage::GivenUp
        },
        (ManagerStage::Notifying, ManagerEvent::Notified { delivered }) => if delivered {
            ManagerStage::AwaitingData
        } else {
            ManagerStage::GivenUp
        },
        (ManagerStage::AwaitingData, ManagerEvent::DialedBack { arrived }) => if arrived {
            ManagerStage::Bridging
        } else {
            ManagerStage::GivenUp
        },
        _ => stage,
    }
}

/// Whether an action is the one that an event calls for at a stage.
pub open spec fn manager_reacts(
    session_id: Seq<char>,
    stage: ManagerStage,
    event: ManagerEvent,
    action: ManagerAction,
) -> bool {
    match (stage, event) {
        (ManagerStage::LookingUp, ManagerEvent::LookedUp { online }) => if online {
            action is Notify && crate::control::session_of(action->Notify_0) == session_id
        } else {
            action == ManagerAction::GiveUp(GiveUpReason::AgentOffline)
        },
        (ManagerStage::Notifying, ManagerEvent::Notified { delivered }) => if delivered {
            action == (ManagerAction::AwaitData { seconds: DIAL_BACK_SECS })
        } else {
            action == ManagerAction::GiveUp(GiveUpReason::AgentUnreachable)
        },
        (ManagerStage::AwaitingData, ManagerEvent::DialedBack { arrived }) => if arrived {
            action is Bridge
        } else {
            action == ManagerAction::GiveUp(GiveUpReason::NoDataSocket)
        },
        _ => action is Nothing,
    }
}

/// The waiting sessions after an event: a session that comes to nothing waits
/// no longer.
pub open spec fn pending_after_step<S>(
    pending: Map<Seq<char>, S>,
    session_id: Seq<char>,
    stage: ManagerStage,
    event: ManagerEvent,
) -> Map<Seq<char>, S> {
    if stage != ManagerStage::GivenUp && next_stage(stage, event) == ManagerStage::GivenUp {
        pending.remove(session_id)
    } else {
        pending
    }
}

/// The request of a manager for a session with an agent.
pub struct ManagerSession {
    session_id: String,
    stage: ManagerStage,
}

impl ManagerSession {
    /// The identifier of the session.
    pub closed spec fn id(self) -> Seq<char> {
        self.session_id@
    }

    /// How far the request has come.
    pub closed spec fn stage(self) -> ManagerStage {
        self.stage
    }

    /// Opens a session. Its slot waits from now on, before the agent hears of
    /// it, so that not even the fastest agent dials back in vain.
    pub fn open<S>(session_id: String, slot: S, pending: &mut PendingSessions<S>) -> (r: Self)
        ensures
            r.id() == session_id@,
            r.stage() == ManagerStage::LookingUp,
            final(pending)@ == old(pending)@.insert(session_id@, slot),
    {
        pending.insert(session_id.clone(), slot);
        ManagerSession { session_id, stage: ManagerStage::LookingUp }
    }

    /// The identifier of the session.
    pub fn session_id(&self) -> (r: &str)
        ensures
            r@ == self.id(),
    {
        self.session_id.as_str()
    }

    /// Ends the wait of the session.
    fn give_up<S>(&mut self, reason: GiveUpReason, pending: &mut PendingSessions<S>) -> (r:
        ManagerAction)
        ensures
            r == ManagerAction::GiveUp(reason),
            final(self).id() == old(self).id(),
            final(self).stage() == ManagerStage::GivenUp,
            final(pending)@ == old(pending)@.remove(old(self).id()),
    {
        self.stage = ManagerStage::GivenUp;
        let _ = pending.claim(self.session_id.as_str());
        ManagerAction::GiveUp(reason)
    }

    /// Takes an event and tells what it calls for.
    pub fn step<S>(&mut self, event: ManagerEvent, pending: &mut PendingSessions<S>) -> (r:
        ManagerAction)
        ensures
            final(self).id() == old(self).id(),
            final(self).stage() == next_stage(old(self).stage(), event),
            manager_reacts(old(self).id(), old(self).stage(), event, r),
            r matches ManagerAction::Notify(ControlMessage::NewConnection { session_id })
                ==> session_id@ == old(self).id(),
            final(pending)@ == pending_after_step(
                old(pending)@,
                old(self).id(),
                old(self).stage(),
                event,
            ),
    {
        match (self.stage, event) {
            (ManagerStage::LookingUp, ManagerEvent::LookedUp { online }) => if online {
                self.stage = ManagerStage::Notifying;
                ManagerAction::Notify(
                    ControlMessage::NewConnection { session_id: self.session_id.clone() },
                )
            } else {
                self.give_up(GiveUpReason::AgentOffline, pending)
            },
            (ManagerStage::Notifying, ManagerEvent::Notified { delivered }) => if delivered {
                self.stage = ManagerStage::AwaitingData;
                ManagerAction::AwaitData { seconds: DIAL_BACK_SECS }
            } else {
                self.give_up(GiveUpReason::AgentUnreachable, pending)
            },
            (ManagerStage::AwaitingData, ManagerEvent::DialedBack { arrived }) => if arrived {
                self.stage = ManagerStage::Bridging;
                ManagerAction::Bridge
            } else {
                self.give_up(GiveUpReason::NoDataSocket, pending)
            },
            _ => ManagerAction::Nothing,
        }
    }
}

/// The stage after a history of events.
pub open spec fn stage_after(events: Seq<ManagerEvent>) -> ManagerStage
    decreases events.len(),
{
    if events.len() == 0 {
        ManagerStage::LookingUp
    } else {
        next_stage(stage_after(events.drop_last()), events.last())
    }
}

/// What can happen to the sessions that wait.
pub enum PendingEvent<S> {
    /// A manager opens a session.
    Opened { session_id: Seq<char>, slot: S },
    /// A data socket claims a session, or its manager gives it up.
    Closed { session_id: Seq<char> },
}

/// The waiting sessions after one event.
pub open spec fn after_pending_event<S>(
    pending: Map<Seq<char>, S>,
    event: PendingEvent<S>,
) -> Map<Seq<char>, S> {
    match event {
        PendingEvent::Opened { session_id, slot } => pending.insert(session_id, slot),
        PendingEvent::Closed { session_id } => pending.remove(session_id),
    }
}

/// The waiting sessions after a history of events.
pub open spec fn after_pending_events<S>(
    pending: Map<Seq<char>, S>,
    events: Seq<PendingEvent<S>>,
) -> Map<Seq<char>, S>
    decreases events.len(),
{
    if events.len() == 0 {
        pending
    } else {
        after_pending_event(after_pending_events(pending, events.drop_last()), events.last())
    }
}

/// Whether an event is about a session.
pub open spec fn touches<S>(event: PendingEvent<S>, id: Seq<char>) -> bool {
    match event {
        PendingEvent::Opened { session_id, .. } => session_id == id,
        PendingEvent::Closed { session_id } => session_id == id,
    }
}

/// Whether an event opens a session.
pub open spec fn opens<S>(event: PendingEvent<S>, id: Seq<char>) -> bool {
    match event {
        PendingEvent::Opened { session_id, .. } => session_id == id,
        PendingEvent::Closed { .. } => false,
    }
}

/// A session that was opened waits in its slot until it is claimed or given up,
/// whatever happens to other sessions; in particular it waits when its agent is
/// told, and telling the agent leaves it waiting.
pub proof fn law_opened_session_waits<S>(
    pending: Map<Seq<char>, S>,
    session_id: Seq<char>,
    slot: S,
    events: Seq<PendingEvent<S>>,
)
    requires
        forall|i: int| 0 <= i < events.len() ==> !touches(#[trigger] events[i], session_id),
    ensures
        ({
            let waiting = after_pending_events(pending.insert(session_id, slot), events);
            let told = pending_after_step(
                waiting,
                session_id,
                ManagerStage::LookingUp,
                ManagerEvent::LookedUp { online: true },
            );
            &&& waiting.contains_key(session_id)
            &&& waiting[session_id] == slot
            &&& told == waiting
        }),
    decreases events.len(),
{
    if events.len() > 0 {
        assert forall|i: int| 0 <= i < events.drop_last().len() implies !touches(
            #[trigger] events.drop_last()[i],
            session_id,
        ) by {
            assert(!touches(events[i], session_id));
        }
        law_opened_session_waits(pending, session_id, slot, events.drop_last());
        assert(!touches(events[events.len() - 1], session_id));
    }
}

/// A session is claimed once: after a claim, and after it was given up, a data
/// socket finds nothing, unless a session of that identifier is opened anew.
pub proof fn law_session_is_claimed_once<S>(
    pending: Map<Seq<char>, S>,
    session_id: Seq<char>,
    events: Seq<PendingEvent<S>>,
)
    requires
        forall|i: int| 0 <= i < events.len() ==> !opens(#[trigger] events[i], session_id),
    ensures
        !after_pending_events(pending.remove(session_id), events).contains_key(session_id),
    decreases events.len(),
{
    if events.len() > 0 {
        assert forall|i: int| 0 <= i < events.drop_last().len() implies !opens(
            #[trigger] events.drop_last()[i],
            session_id,
        ) by {
            assert(!opens(events[i], session_id));
        }
        law_session_is_claimed_once(pending, session_id, events.drop_last());
        assert(!opens(events[events.len() - 1], session_id));
    }
}

/// Nothing waits that was not opened: starting from no sessions at all, a data
/// socket finds a slot only under an identifier that a manager's request opened.
pub proof fn law_only_opened_sessions_wait<S>(
    events: Seq<PendingEvent<S>>,
    session_id: Seq<char>,
)
    requires
        after_pending_events(Map::<Seq<char>, S>::empty(), events).contains_key(session_id),
    ensures
        exists|i: int| 0 <= i < events.len() && opens(#[trigger] events[i], session_id),
    decreases events.len(),
{
    if events.len() > 0 {
        if opens(events.last(), session_id) {
            assert(opens(events[events.len() - 1], session_id));
        } else {
            law_only_opened_sessions_wait(events.drop_last(), session_id);
            let i = choose|i: int|
                0 <= i < events.drop_last().len() && opens(
                    #[trigger] events.drop_last()[i],
                    session_id,
                );
            assert(opens(events[i], session_id));
        }
    }
}

/// A session that comes to nothing, for whatever reason, is not left waiting.
pub proof fn law_given_up_session_is_gone<S>(
    pending: Map<Seq<char>, S>,
    session_id: Seq<char>,
    stage: ManagerStage,
    event: ManagerEvent,
)
    requires
        stage != ManagerStage::GivenUp,
        next_stage(stage, event) == ManagerStage::GivenUp,
    ensures
        !pending_after_step(pending, session_id, stage, event).contains_key(session_id),
        forall|other: Seq<char>|
            other != session_id ==> (#[trigger] pending_after_step(
                pending,
                session_id,
                stage,
                event,
            ).contains_key(other) <==> pending.contains_key(other)),
{
}

/// A manager is bridged only to an agent that was found online, was told of the
/// session and then dialed back, in that order.
pub proof fn law_bridge_follows_lookup_notice_and_dial_back(events: Seq<ManagerEvent>)
    requires
        stage_after(events) == ManagerStage::Bridging,
    ensures
        exists|i: int, j: int, k: int|
            0 <= i < j < k < events.len() && #[trigger] events[i] == (ManagerEvent::LookedUp {
                online: true,
            }) && #[trigger] events[j] == (ManagerEvent::Notified { delivered: true })
                && #[trigger] events[k] == (ManagerEvent::DialedBack { arrived: true }),
{
    let k = lemma_entered(events, ManagerStage::Bridging);
    let j = lemma_entered(events.take(k), ManagerStage::AwaitingData);
    assert(events.take(k).take(j) =~= events.take(j));
    let i = lemma_entered(events.take(j), ManagerStage::Notifying);
    assert(events[i] == events.take(j)[i]);
    assert(events[j] == events.take(k)[j]);
}

/// Every stage but the first and the last was entered by the one event that
/// leads to it from the stage before.
proof fn lemma_entered(events: Seq<ManagerEvent>, stage: ManagerStage) -> (at: int)
    requires
        stage_after(events) == stage,
        stage != ManagerStage::LookingUp,
        stage != ManagerStage::GivenUp,
    ensures
        0 <= at < events.len(),
        stage == ManagerStage::Notifying ==> events[at] == (ManagerEvent::LookedUp {
            online: true,
        }),
        stage == ManagerStage::AwaitingData ==> events[at] == (ManagerEvent::Notified {
            delivered: true,
        }) && stage_after(events.take(at)) == ManagerStage::Notifying,
        stage == ManagerStage::Bridging ==> events[at] == (ManagerEvent::DialedBack {
            arrived: true,
        }) && stage_after(events.take(at)) == ManagerStage::AwaitingData,
    decreases events.len(),
{
    let n = events.len() - 1;
    assert(events.take(n) =~= events.drop_last());
    if stage_after(events.drop_last()) == stage {
        let at = lemma_entered(events.drop_last(), stage);
        assert(events.drop_last().take(at) =~= events.take(at));
        at
    } else {
        n
    }
}

/// A request that is bridged or given up stays so: no later event notifies an
/// agent, bridges again or touches the waiting sessions.
pub proof fn law_settled_request_stays_settled<S>(
    pending: Map<Seq<char>, S>,
    session_id: Seq<char>,
    stage: ManagerStage,
    event: ManagerEvent,
    action: ManagerAction,
)
    requires
        stage == ManagerStage::Bridging || stage == ManagerStage::GivenUp,
        manager_reacts(session_id, stage, event, action),
    ensures
        next_stage(stage, event) == stage,
        action is Nothing,
        pending_after_step(pending, session_id, stage, event) == pending,
{
}

/// The agent is told the identifier under which the manager's session waits, all
/// of it, and the session goes on waiting: whoever claims what the agent was told
/// gets the slot that the manager opened.
pub proof fn law_agent_is_told_the_session_that_waits<S>(
    session_id: String,
    slot: S,
    opening: &mut PendingSessions<S>,
    opened: ManagerSession,
    session: &mut ManagerSession,
    waiting: &mut PendingSessions<S>,
    action: ManagerAction,
    claiming: &mut PendingSessions<S>,
    named: &str,
    found: Option<S>,
)
    requires
        call_ensures(ManagerSession::open::<S>, (session_id, slot, opening), opened),
        *old(session) == opened,
        old(waiting)@.contains_pair(session_id@, slot),
        call_ensures(
            ManagerSession::step::<S>,
            (session, (ManagerEvent::LookedUp { online: true }), waiting),
            action,
        ),
        *old(claiming) == *final(waiting),
        call_ensures(PendingSessions::<S>::claim, (claiming, named), found),
    ensures
        final(opening)@.contains_pair(session_id@, slot),
        action matches ManagerAction::Notify(ControlMessage::NewConnection { session_id: told })
            && told@ == session_id@ && (named@ == told@ ==> found == Some(slot)),
        final(waiting)@ == old(waiting)@,
{
}

/// An agent that took the message has ten seconds to dial back, in which its
/// session waits; when it does dial back, the two sockets are bridged.
pub proof fn law_told_agent_is_awaited_and_bridged<S>(
    session: &mut ManagerSession,
    waiting: &mut PendingSessions<S>,
    awaiting: ManagerAction,
    bridging: ManagerAction,
    later: &mut ManagerSession,
    meanwhile: &mut PendingSessions<S>,
)
    requires
        old(session).stage() == ManagerStage::Notifying,
        call_ensures(
            ManagerSession::step::<S>,
            (session, (ManagerEvent::Notified { delivered: true }), waiting),
            awaiting,
        ),
        *old(later) == *final(session),
        call_ensures(
            ManagerSession::step::<S>,
            (later, (ManagerEvent::DialedBack { arrived: true }), meanwhile),
            bridging,
        ),
    ensures
        awaiting == (ManagerAction::AwaitData { seconds: 10 }),
        final(waiting)@ == old(waiting)@,
        bridging is Bridge,
        final(meanwhile)@ == old(meanwhile)@,
{
}

/// An agent that is offline, that does not take the message, or that does not
/// dial back ends the request, each for its own reason. The session waits no
/// longer; all others wait as before.
pub proof fn law_failure_gives_the_session_up<S>(
    session: &mut ManagerSession,
    event: ManagerEvent,
    waiting: &mut PendingSessions<S>,
    action: ManagerAction,
    other: Seq<char>,
)
    requires
        call_ensures(ManagerSession::step::<S>, (session, event, waiting), action),
        ({
            ||| old(session).stage() == ManagerStage::LookingUp && event
                == (ManagerEvent::LookedUp { online: false })
            ||| old(session).stage() == ManagerStage::Notifying && event
                == (ManagerEvent::Notified { delivered: false })
            ||| old(session).stage() == ManagerStage::AwaitingData && event
                == (ManagerEvent::DialedBack { arrived: false })
        }),
        other != old(session).id(),
    ensures
        event is LookedUp ==> action == ManagerAction::GiveUp(GiveUpReason::AgentOffline),
        event is Notified ==> action == ManagerAction::GiveUp(GiveUpReason::AgentUnreachable),
        event is DialedBack ==> action == ManagerAction::GiveUp(GiveUpReason::NoDataSocket),
        final(session).stage() == ManagerStage::GivenUp,
        !final(waiting)@.contains_key(old(session).id()),
        final(waiting)@.contains_key(other) <==> old(waiting)@.contains_key(other),
        old(waiting)@.contains_key(other) ==> final(waiting)@[other] == old(waiting)@[other],
{
}

/// A request hears the three events in their order only: any other event calls
/// for nothing and changes nothing.
pub proof fn law_event_out_of_turn_changes_nothing<S>(
    session: &mut ManagerSession,
    event: ManagerEvent,
    waiting: &mut PendingSessions<S>,
    action: ManagerAction,
)
    requires
        call_ensures(ManagerSession::step::<S>, (session, event, waiting), action),
        !(old(session).stage() == ManagerStage::LookingUp && event is LookedUp),
        !(old(session).stage() == ManagerStage::Notifying && event is Notified),
        !(old(session).stage() == ManagerStage::AwaitingData && event is DialedBack),
    ensures
        action is Nothing,
        final(session).stage() == old(session).stage(),
        final(session).id() == old(session).id(),
        final(waiting)@ == old(waiting)@,
{
}

} // verus!
