//! Sub-agents: the registry in which they are looked up.

use crate::text;
use vstd::prelude::*;
use vstd::string::*;

verus! {

/// A sub-agent as the registry knows it: its name and, once it has finished, its result.
pub struct Slot {
    pub id: Seq<char>,
    pub result: Option<Seq<char>>,
}

/// The first slot from `i` on that bears the name `id`.
pub open spec fn slot_from(slots: Seq<Slot>, id: Seq<char>, i: int) -> Option<int>
    decreases slots.len() - i,
{
    if i < 0 || i >= slots.len() {
        None
    } else if slots[i].id == id {
        Some(i)
    } else {
        slot_from(slots, id, i + 1)
    }
}

/// What a look at the registry tells of the sub-agent `id`: nothing while it runs, its result
/// once it has finished, and that it is unknown where no slot bears its name.
pub open spec fn polled(slots: Seq<Slot>, id: Seq<char>) -> Option<Seq<char>> {
    match slot_from(slots, id, 0) {
        Some(i) => slots[i].result,
        None => Some("unknown agent_id: "@ + id),
    }
}

/// The view of an optional text.
pub open spec fn option_view(o: Option<String>) -> Option<Seq<char>> {
    match o {
        Some(s) => Some(s@),
        None => None,
    }
}

/// One sub-agent in the registry.
pub struct Agent {
    id: String,
    result: Option<String>,
}

impl View for Agent {
    type V = Slot;

    closed spec fn view(&self) -> Slot {
        Slot { id: self.id@, result: option_view(self.result) }
    }
}

/// The sub-agents that were started, in order.
pub struct AgentRegistry {
    agents: Vec<Agent>,
}

impl View for AgentRegistry {
    type V = Seq<Slot>;

    closed spec fn view(&self) -> Seq<Slot> {
        Seq::new(self.agents@.len(), |i: int| self.agents@[i]@)
    }
}

impl AgentRegistry {
    /// A registry without sub-agents.
    pub fn new() -> (r: AgentRegistry)
        ensures
            r@ == Seq::<Slot>::empty(),
    {
        let r = AgentRegistry { agents: Vec::new() };
        assert(r@ =~= Seq::<Slot>::empty());
        r
    }

    /// Enters a sub-agent that has not finished, and returns the number of its slot.
    pub fn register(&mut self, id: &str) -> (slot: usize)
        ensures
            slot == old(self)@.len(),
            final(self)@ == old(self)@.push(Slot { id: id@, result: None }),
    {
        let slot = self.agents.len();
        self.agents.push(Agent { id: id.to_owned(), result: None });
        assert(self@ =~= old(self)@.push(Slot { id: id@, result: None }));
        slot
    }

    /// Enters the result of the sub-agent in `slot`.
    pub fn finish(&mut self, slot: usize, result: String)
        requires
            slot < old(self)@.len(),
        ensures
            final(self)@ == old(self)@.update(
                slot as int,
                (Slot { id: old(self)@[slot as int].id, result: Some(result@) }),
            ),
    {
        let id = self.agents[slot].id.clone();
        self.agents.set(slot, Agent { id, result: Some(result) });
        assert(self@ =~= old(self)@.update(
            slot as int,
            Slot { id: old(self)@[slot as int].id, result: Some(result@) },
        ));
    }

    /// The number of sub-agents.
    pub fn len(&self) -> (n: usize)
        ensures
            n == self@.len(),
    {
        self.agents.len()
    }
}

/// Looks up a sub-agent: nothing while it runs, its result once it has finished.
pub fn poll_agent(registry: &AgentRegistry, agent_id: &str) -> (r: Option<String>)
    ensures
        option_view(r) == polled(registry@, agent_id@),
{
    let mut i: usize = 0;
    while i < registry.agents.len()
        invariant
            i <= registry.agents.len(),
            slot_from(registry@, agent_id@, i as int) == slot_from(registry@, agent_id@, 0),
        decreases registry.agents.len() - i,
    {
        assert(registry@[i as int] == registry.agents@[i as int]@);
        if text::same(registry.agents[i].id.as_str(), agent_id) {
            return match &registry.agents[i].result {
                Some(s) => Some(s.clone()),
                None => None,
            };
        }
        i = i + 1;
    }
    let mut r = "unknown agent_id: ".to_owned();
    r.append(agent_id);
    Some(r)
}

/// A slot found is the first that bears the name.
proof fn lemma_slot_from(slots: Seq<Slot>, id: Seq<char>, i: int)
    requires
        0 <= i,
    ensures
        match slot_from(slots, id, i) {
            Some(k) => i <= k < slots.len() && slots[k].id == id && forall|j: int|
                i <= j < k ==> slots[j].id != id,
            None => forall|j: int| i <= j < slots.len() ==> slots[j].id != id,
        },
    decreases slots.len() - i,
{
    if i < slots.len() && slots[i].id != id {
        lemma_slot_from(slots, id, i + 1);
    }
}

/// A sub-agent under a new name is found, and has no result until it finishes; then the result
/// is what it finished with.
pub proof fn law_result_arrives(slots: Seq<Slot>, id: Seq<char>, result: Seq<char>)
    requires
        forall|j: int| 0 <= j < slots.len() ==> slots[j].id != id,
    ensures
        polled(slots, id) == Some("unknown agent_id: "@ + id),
        polled(slots.push(Slot { id, result: None }), id) is None,
        polled(
            slots.push(Slot { id, result: None }).update(
                slots.len() as int,
                Slot { id, result: Some(result) },
            ),
            id,
        ) == Some(result),
{
    let running = slots.push(Slot { id, result: None });
    let done = running.update(slots.len() as int, Slot { id, result: Some(result) });
    lemma_slot_from(slots, id, 0);
    lemma_slot_from(running, id, 0);
    lemma_slot_from(done, id, 0);
    assert(running[slots.len() as int].id == id);
    assert(done[slots.len() as int].id == id);
}

/// Neither a new sub-agent nor one that finishes changes what is told of another name.
pub proof fn law_others_unchanged(
    slots: Seq<Slot>,
    slot: int,
    id: Seq<char>,
    other: Seq<char>,
    result: Seq<char>,
)
    requires
        id != other,
    ensures
        polled(slots.push(Slot { id, result: None }), other) == polled(slots, other),
        0 <= slot < slots.len() && slots[slot].id == id ==> polled(
            slots.update(slot, Slot { id, result: Some(result) }),
            other,
        ) == polled(slots, other),
{
    let running = slots.push(Slot { id, result: None });
    lemma_slot_from(slots, other, 0);
    lemma_slot_from(running, other, 0);
    assert(forall|j: int| 0 <= j < slots.len() ==> running[j] == slots[j]);
    if 0 <= slot < slots.len() && slots[slot].id == id {
        let done = slots.update(slot, Slot { id, result: Some(result) });
        lemma_slot_from(done, other, 0);
        assert(forall|j: int| 0 <= j < slots.len() ==> done[j].id == slots[j].id);
        assert(forall|j: int| 0 <= j < slots.len() && j != slot ==> done[j] == slots[j]);
    }
}

/// Of several sub-agents of one name the first that was entered is the one that is looked up.
pub proof fn law_first_of_a_name_is_looked_up(slots: Seq<Slot>, id: Seq<char>, k: int)
    requires
        0 <= k < slots.len(),
        slots[k].id == id,
        forall|j: int| 0 <= j < k ==> slots[j].id != id,
    ensures
        polled(slots, id) == slots[k].result,
{
    lemma_slot_from(slots, id, 0);
}

} // verus!
