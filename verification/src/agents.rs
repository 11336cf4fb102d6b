//! The agents that are connected.

use vstd::hash_map::StringHashMap;
use vstd::prelude::*;

verus! {

/// The control channel of a registered agent. The token identifies this
/// connection, so that an older connection of the same agent that ends late
/// cannot evict it.
pub struct AgentHandle<C> {
    pub token: u128,
    pub channel: C,
}

/// The agents that are connected, by identifier.
#[verifier::reject_recursive_types(C)]
pub struct Agents<C> {
    handles: StringHashMap<AgentHandle<C>>,
}

impl<C> View for Agents<C> {
    type V = Map<Seq<char>, AgentHandle<C>>;

    closed spec fn view(&self) -> Map<Seq<char>, AgentHandle<C>> {
        self.handles@
    }
}

/// The agents after one has registered: it takes the place of an older
/// connection under its identifier.
pub open spec fn registered<C>(
    agents: Map<Seq<char>, AgentHandle<C>>,
    agent_id: Seq<char>,
    handle: AgentHandle<C>,
) -> Map<Seq<char>, AgentHandle<C>> {
    agents.insert(agent_id, handle)
}

/// Whether a connection is the one that an agent is registered with.
pub open spec fn owns<C>(
    agents: Map<Seq<char>, AgentHandle<C>>,
    agent_id: Seq<char>,
    token: u128,
) -> bool {
    agents.contains_key(agent_id) && agents[agent_id].token == token
}

/// The agents after a connection has ended: its agent leaves unless another
/// connection has replaced it.
pub open spec fn disconnected<C>(
    agents: Map<Seq<char>, AgentHandle<C>>,
    agent_id: Seq<char>,
    token: u128,
) -> Map<Seq<char>, AgentHandle<C>> {
    if owns(agents, agent_id, token) {
        agents.remove(agent_id)
    } else {
        agents
    }
}

impl<C> Agents<C> {
    /// No agent is connected.
    pub fn new() -> (r: Self)
        ensures
            r@ == Map::<Seq<char>, AgentHandle<C>>::empty(),
    {
        Agents { handles: StringHashMap::new() }
    }

    /// Registers a connection of an agent.
    pub fn register(&mut self, agent_id: String, token: u128, channel: C)
        ensures
            final(self)@ == registered(
                old(self)@,
                agent_id@,
                (AgentHandle { token, channel }),
            ),
    {
        self.handles.insert(agent_id, AgentHandle { token, channel });
    }

    /// Ends a connection of an agent. Tells whether the agent left.
    pub fn disconnect(&mut self, agent_id: &str, token: u128) -> (r: bool)
        ensures
            final(self)@ == disconnected(old(self)@, agent_id@, token),
            r == owns(old(self)@, agent_id@, token),
    {
        let owned = match self.handles.get(agent_id) {
            Some(handle) => handle.token == token,
            None => false,
        };
        if owned {
            self.handles.remove(agent_id);
        }
        owned
    }

    /// The channel of an agent, where it is connected.
    pub fn channel(&self, agent_id: &str) -> (r: Option<&C>)
        ensures
            r is Some <==> self@.contains_key(agent_id@),
            r matches Some(channel) ==> self@[agent_id@].channel == *channel,
    {
        match self.handles.get(agent_id) {
            Some(handle) => Some(&handle.channel),
            None => None,
        }
    }
}

/// What happens to the connected agents.
pub enum AgentEvent<C> {
    Register { agent_id: Seq<char>, handle: AgentHandle<C> },
    Disconnect { agent_id: Seq<char>, token: u128 },
}

/// The agents after one event.
pub open spec fn after_event<C>(
    agents: Map<Seq<char>, AgentHandle<C>>,
    event: AgentEvent<C>,
) -> Map<Seq<char>, AgentHandle<C>> {
    match event {
        AgentEvent::Register { agent_id, handle } => registered(agents, agent_id, handle),
        AgentEvent::Disconnect { agent_id, token } => disconnected(agents, agent_id, token),
    }
}

/// The agents after a history of events.
pub open spec fn after_events<C>(
    agents: Map<Seq<char>, AgentHandle<C>>,
    events: Seq<AgentEvent<C>>,
) -> Map<Seq<char>, AgentHandle<C>>
    decreases events.len(),
{
    if events.len() == 0 {
        agents
    } else {
        after_event(after_events(agents, events.drop_last()), events.last())
    }
}

/// Whether an event replaces or ends a given connection of an agent.
pub open spec fn supersedes<C>(
    event: AgentEvent<C>,
    agent: Seq<char>,
    connection: u128,
) -> bool {
    match event {
        AgentEvent::Register { agent_id, handle } => agent_id == agent,
        AgentEvent::Disconnect { agent_id, token } => agent_id == agent && token == connection,
    }
}

/// An older connection that ends late does not evict the newer one that reused
/// its agent identifier, and a connection that was not replaced leaves nothing
/// behind.
pub proof fn law_stale_connection_evicts_nobody<C>(
    agents: Map<Seq<char>, AgentHandle<C>>,
    agent_id: Seq<char>,
    older: AgentHandle<C>,
    newer: AgentHandle<C>,
)
    requires
        older.token != newer.token,
    ensures
        disconnected(
            registered(registered(agents, agent_id, older), agent_id, newer),
            agent_id,
            older.token,
        ) == registered(agents, agent_id, newer),
        disconnected(registered(agents, agent_id, older), agent_id, older.token)
            == agents.remove(agent_id),
{
    assert(registered(registered(agents, agent_id, older), agent_id, newer) =~= registered(
        agents,
        agent_id,
        newer,
    ));
    assert(disconnected(registered(agents, agent_id, older), agent_id, older.token)
        =~= agents.remove(agent_id));
}

/// A registered connection stays the one that its agent is reached by until
/// another connection registers under the identifier or it ends itself,
/// whatever else happens in between.
pub proof fn law_latest_connection_is_reached<C>(
    agents: Map<Seq<char>, AgentHandle<C>>,
    agent_id: Seq<char>,
    handle: AgentHandle<C>,
    events: Seq<AgentEvent<C>>,
)
    requires
        forall|i: int|
            0 <= i < events.len() ==> !supersedes(#[trigger] events[i], agent_id, handle.token),
    ensures
        after_events(registered(agents, agent_id, handle), events).contains_key(agent_id),
        after_events(registered(agents, agent_id, handle), events)[agent_id] == handle,
    decreases events.len(),
{
    if events.len() > 0 {
        assert forall|i: int| 0 <= i < events.drop_last().len() implies !supersedes(
            #[trigger] events.drop_last()[i],
            agent_id,
            handle.token,
        ) by {
            assert(!supersedes(events[i], agent_id, handle.token));
        }
        law_latest_connection_is_reached(agents, agent_id, handle, events.drop_last());
        assert(!supersedes(events[events.len() - 1], agent_id, handle.token));
    }
}

/// What happens to one agent does not touch another.
pub proof fn law_agents_are_independent<C>(
    agents: Map<Seq<char>, AgentHandle<C>>,
    event: AgentEvent<C>,
    other: Seq<char>,
)
    requires
        match event {
            AgentEvent::Register { agent_id, .. } => agent_id != other,
            AgentEvent::Disconnect { agent_id, .. } => agent_id != other,
        },
    ensures
        after_event(agents, event).contains_key(other) <==> agents.contains_key(other),
        agents.contains_key(other) ==> after_event(agents, event)[other] == agents[other],
{
}

/// An agent that registers is reached by the channel that it registered with,
/// whatever was registered under its identifier before; other agents are reached
/// as they were.
pub proof fn law_registered_agent_is_reached<C>(
    agents: &mut Agents<C>,
    agent_id: String,
    token: u128,
    channel: C,
    named: &str,
    found: Option<&C>,
)
    requires
        call_ensures(Agents::<C>::register, (agents, agent_id, token, channel), ()),
        call_ensures(Agents::<C>::channel, (&*final(agents), named), found),
    ensures
        named@ == agent_id@ ==> found == Some(&channel),
        named@ != agent_id@ ==> (found is Some <==> old(agents)@.contains_key(named@)),
        named@ != agent_id@ && found is Some ==> *found->0 == old(agents)@[named@].channel,
{
}

/// An agent leaves when the connection ends that it is registered with, and only
/// then: one that was replaced ends without a trace. Other agents stay.
pub proof fn law_agent_leaves_with_its_own_connection<C>(
    agents: &mut Agents<C>,
    agent_id: &str,
    token: u128,
    left: bool,
    other: Seq<char>,
)
    requires
        call_ensures(Agents::<C>::disconnect, (agents, agent_id, token), left),
        other != agent_id@,
    ensures
        left <==> old(agents)@.contains_key(agent_id@) && old(agents)@[agent_id@].token == token,
        left ==> !final(agents)@.contains_key(agent_id@),
        !left ==> final(agents)@ == old(agents)@,
        final(agents)@.contains_key(other) <==> old(agents)@.contains_key(other),
        old(agents)@.contains_key(other) ==> final(agents)@[other] == old(agents)@[other],
{
}

} // verus!
