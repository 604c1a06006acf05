use vstd::prelude::*;

use crate::codec::u64_to_string;
use crate::host::{new_uuid_string, now_unix_seconds};
use crate::json::{
    JsonValue, SpecJson, clone_obj, dec_digits, lemma_dec_digits_injective, merge_members,
    spec_merge, str_eq,
};
use crate::types::{AgentContext, AgentSession};

verus! {

/// The one shared context all agents collaborate on: its data, its owner, the
/// agents allowed to touch it, and a timestamp that never goes backwards.
#[derive(Debug)]
pub struct SharedContext {
    pub id: String,
    pub data: Vec<(String, JsonValue)>,
    pub updated_at: u64,
    pub owner: Option<String>,
    pub collaborators: Vec<String>,
}

/// The coordination state between agents: the full registry, the active
/// subset, the shared context, and the counter fresh ids come from.
#[derive(Debug)]
pub struct AgentCoordinator {
    pub agents: Vec<AgentSession>,
    pub active_sessions: Vec<AgentSession>,
    pub shared_context: SharedContext,
    pub next_id: u64,
}

/// The text a given counter value is issued as.
pub open spec fn agent_id_text(n: nat) -> Seq<char> {
    dec_digits(n)
}

/// The position of the first session with the given id, or a negative value.
pub open spec fn sess_find(s: Seq<AgentSession>, id: Seq<char>) -> int
    decreases s.len(),
{
    if s.len() == 0 {
        -1
    } else if s[0].id@ == id {
        0
    } else {
        let r = sess_find(s.subrange(1, s.len() as int), id);
        if r < 0 {
            -1
        } else {
            r + 1
        }
    }
}

pub open spec fn has_session(s: Seq<AgentSession>, id: Seq<char>) -> bool {
    sess_find(s, id) >= 0
}

/// Every session id stands at most once.
pub open spec fn sess_ids_unique(s: Seq<AgentSession>) -> bool {
    forall|i: int, j: int| 0 <= i < j < s.len() ==> (#[trigger] s[i]).id@ != (
    #[trigger] s[j]).id@
}

pub open spec fn has_collab(s: Seq<String>, id: Seq<char>) -> bool {
    exists|k: int| 0 <= k < s.len() && (#[trigger] s[k])@ == id
}

/// Two contexts that carry the same information.
pub open spec fn context_eqv(a: AgentContext, b: AgentContext) -> bool {
    &&& a.id == b.id
    &&& a.name == b.name
    &&& JsonValue::view_obj(a.data@) == JsonValue::view_obj(b.data@)
    &&& a.created_at == b.created_at
    &&& a.updated_at == b.updated_at
}

/// Two sessions that carry the same information.
pub open spec fn session_eqv(a: AgentSession, b: AgentSession) -> bool {
    &&& a.id == b.id
    &&& a.name == b.name
    &&& a.capabilities@ == b.capabilities@
    &&& a.last_seen == b.last_seen
    &&& context_eqv(a.context, b.context)
}

/// An id the counter has already issued: the text of a smaller value.
pub open spec fn id_from_counter(id: Seq<char>, bound: u64) -> bool {
    exists|n: nat| n < bound && id == agent_id_text(n)
}

impl AgentCoordinator {
    /// Every id ever issued came from the counter, and no id stands twice.
    pub open spec fn wf(self) -> bool {
        &&& sess_ids_unique(self.agents@)
        &&& sess_ids_unique(self.active_sessions@)
        &&& forall|k: int|
            0 <= k < self.agents@.len() ==> id_from_counter(
                (#[trigger] self.agents@[k]).id@,
                self.next_id,
            )
        &&& forall|k: int|
            0 <= k < self.active_sessions@.len() ==> id_from_counter(
                (#[trigger] self.active_sessions@[k]).id@,
                self.next_id,
            )
    }
}

/// Where the first session with the id stands, or the vector's length.
fn sess_index(v: &Vec<AgentSession>, id: &str) -> (i: usize)
    ensures
        i <= v@.len(),
        i < v@.len() ==> sess_find(v@, id@) == i && v@[i as int].id@ == id@,
        i == v@.len() ==> sess_find(v@, id@) < 0,
{
    let n = v.len();
    let mut i: usize = 0;
    while i < n
        invariant
            i <= n,
            n == v@.len(),
            forall|m: int| 0 <= m < i ==> (#[trigger] v@[m]).id@ != id@,
        decreases n - i,
    {
        if str_eq(v[i].id.as_str(), id) {
            proof {
                lemma_sess_find_first(v@, id@, i as int);
            }
            return i;
        }
        i += 1;
    }
    proof {
        lemma_sess_find_none(v@, id@);
    }
    n
}

/// Where the first collaborator with the id stands, or the vector's length.
fn collab_index(v: &Vec<String>, id: &str) -> (i: usize)
    ensures
        i <= v@.len(),
        i < v@.len() ==> v@[i as int]@ == id@ && has_collab(v@, id@),
        i == v@.len() ==> !has_collab(v@, id@),
{
    let n = v.len();
    let mut i: usize = 0;
    while i < n
        invariant
            i <= n,
            n == v@.len(),
            forall|m: int| 0 <= m < i ==> (#[trigger] v@[m])@ != id@,
        decreases n - i,
    {
        if str_eq(v[i].as_str(), id) {
            proof {
                assert(v@[i as int]@ == id@);
            }
            return i;
        }
        i += 1;
    }
    n
}

fn clone_string_vec(s: &Vec<String>) -> (r: Vec<String>)
    ensures
        r@ == s@,
{
    let mut r: Vec<String> = Vec::new();
    let n = s.len();
    let mut i: usize = 0;
    while i < n
        invariant
            i <= n,
            n == s@.len(),
            r@ == s@.subrange(0, i as int),
        decreases n - i,
    {
        r.push(s[i].clone());
        proof {
            assert(r@ =~= s@.subrange(0, i as int + 1));
        }
        i += 1;
    }
    proof {
        assert(s@.subrange(0, n as int) =~= s@);
    }
    r
}

fn clone_context(c: &AgentContext) -> (r: AgentContext)
    ensures
        context_eqv(r, *c),
{
    AgentContext {
        id: c.id.clone(),
        name: c.name.clone(),
        data: clone_obj(&c.data),
        created_at: c.created_at,
        updated_at: c.updated_at,
    }
}

fn clone_session(s: &AgentSession) -> (r: AgentSession)
    ensures
        session_eqv(r, *s),
{
    AgentSession {
        id: s.id.clone(),
        name: s.name.clone(),
        capabilities: clone_string_vec(&s.capabilities),
        last_seen: s.last_seen,
        context: clone_context(&s.context),
    }
}

/// Registration always returns a previously-unseen id: in any well-formed
/// coordinator, the id the counter issues next stands in neither the registry
/// nor the active set. The registry never forgets an id and the counter only
/// grows, so any number of registrations yield pairwise-distinct ids.
pub proof fn lemma_next_id_unseen(c: AgentCoordinator)
    requires
        c.wf(),
    ensures
        !has_session(c.agents@, agent_id_text(c.next_id as nat)),
        !has_session(c.active_sessions@, agent_id_text(c.next_id as nat)),
{
    lemma_fresh_id_unseen(c, c.agents@);
    lemma_fresh_id_unseen(c, c.active_sessions@);
}

/// Distinct counter values are issued as distinct ids: with the counter
/// never reused, no two registrations ever share an id.
pub proof fn lemma_ids_distinct(n1: nat, n2: nat)
    requires
        n1 != n2,
    ensures
        agent_id_text(n1) != agent_id_text(n2),
{
    if agent_id_text(n1) == agent_id_text(n2) {
        lemma_dec_digits_injective(n1, n2);
    }
}

/// After an agent is appended to the collaborator list, it collaborates: a
/// second addition of the same id returns false and changes nothing, by the
/// contract of the adding method.
pub proof fn lemma_collaborator_added(s: Seq<String>, x: String)
    ensures
        has_collab(s.push(x), x@),
{
    assert(s.push(x)[s.len() as int] == x);
}

/// After removing the one session with an id, the id is gone: deregistering
/// is idempotent.
pub proof fn lemma_deregister_idempotent(s: Seq<AgentSession>, id: Seq<char>)
    requires
        sess_ids_unique(s),
        has_session(s, id),
    ensures
        !has_session(s.remove(sess_find(s, id)), id),
{
    let i = sess_find(s, id);
    lemma_sess_find_hit(s, id);
    let t = s.remove(i);
    assert forall|m: int| 0 <= m < t.len() implies (#[trigger] t[m]).id@ != id by {
        if m < i {
            assert(t[m] == s[m]);
        } else {
            assert(t[m] == s[m + 1]);
        }
    }
    lemma_sess_find_none(t, id);
}

proof fn lemma_sess_find_hit(s: Seq<AgentSession>, id: Seq<char>)
    ensures
        sess_find(s, id) >= 0 ==> 0 <= sess_find(s, id) < s.len() && s[sess_find(s, id)].id@
            == id,
        sess_find(s, id) < 0 ==> forall|m: int|
            0 <= m < s.len() ==> (#[trigger] s[m]).id@ != id,
    decreases s.len(),
{
    if s.len() > 0 {
        let tail = s.subrange(1, s.len() as int);
        lemma_sess_find_hit(tail, id);
        if s[0].id@ != id {
            assert forall|m: int| 1 <= m < s.len() implies s[m] == tail[m - 1] by {}
        }
    }
}

proof fn lemma_sess_find_first(s: Seq<AgentSession>, id: Seq<char>, i: int)
    requires
        0 <= i < s.len(),
        forall|m: int| 0 <= m < i ==> (#[trigger] s[m]).id@ != id,
        s[i].id@ == id,
    ensures
        sess_find(s, id) == i,
    decreases i,
{
    if i > 0 {
        let tail = s.subrange(1, s.len() as int);
        assert forall|m: int| 0 <= m < i - 1 implies (#[trigger] tail[m]).id@ != id by {
            assert(tail[m] == s[m + 1]);
        }
        assert(tail[i - 1] == s[i]);
        lemma_sess_find_first(tail, id, i - 1);
    }
}

proof fn lemma_sess_find_none(s: Seq<AgentSession>, id: Seq<char>)
    requires
        forall|m: int| 0 <= m < s.len() ==> (#[trigger] s[m]).id@ != id,
    ensures
        sess_find(s, id) == -1,
    decreases s.len(),
{
    if s.len() > 0 {
        let tail = s.subrange(1, s.len() as int);
        assert forall|m: int| 0 <= m < tail.len() implies (#[trigger] tail[m]).id@ != id by {
            assert(tail[m] == s[m + 1]);
        }
        lemma_sess_find_none(tail, id);
    }
}

/// A counter id stays issued under a larger counter bound.
proof fn lemma_counter_monotone(id: Seq<char>, b1: u64, b2: u64)
    requires
        id_from_counter(id, b1),
        b1 <= b2,
    ensures
        id_from_counter(id, b2),
{
    let n = choose|n: nat| n < b1 && id == agent_id_text(n);
    assert(n < b2 && id == agent_id_text(n));
}

/// A fresh counter id is unlike any id issued from a smaller counter value.
proof fn lemma_fresh_id_unseen(c: AgentCoordinator, s: Seq<AgentSession>)
    requires
        c.wf(),
        s == c.agents@ || s == c.active_sessions@,
    ensures
        !has_session(s, agent_id_text(c.next_id as nat)),
{
    let id = agent_id_text(c.next_id as nat);
    assert forall|m: int| 0 <= m < s.len() implies (#[trigger] s[m]).id@ != id by {
        if s == c.agents@ {
            assert(s[m] == c.agents@[m]);
        } else {
            assert(s[m] == c.active_sessions@[m]);
        }
        assert(id_from_counter(s[m].id@, c.next_id));
        let n = choose|n: nat| n < c.next_id && s[m].id@ == agent_id_text(n);
        if s[m].id@ == id {
            lemma_dec_digits_injective(n, c.next_id as nat);
        }
    }
    lemma_sess_find_none(s, id);
}

impl AgentCoordinator {
    /// A coordinator with no agents, an empty shared context, and the counter
    /// at its start.
    pub fn new() -> (r: Self)
        ensures
            r.wf(),
            r.agents@.len() == 0,
            r.active_sessions@.len() == 0,
            r.next_id == 0,
            JsonValue::view_obj(r.shared_context.data@) == Seq::<(Seq<char>, SpecJson)>::empty(),
            r.shared_context.owner is None,
            r.shared_context.collaborators@.len() == 0,
            r.shared_context.id@.len() == 36,
    {
        let data: Vec<(String, JsonValue)> = Vec::new();
        proof {
            assert(JsonValue::view_obj(data@) =~= Seq::<(Seq<char>, SpecJson)>::empty());
        }
        Self {
            agents: Vec::new(),
            active_sessions: Vec::new(),
            shared_context: SharedContext {
                id: new_uuid_string(),
                data,
                updated_at: now_unix_seconds(),
                owner: None,
                collaborators: Vec::new(),
            },
            next_id: 0,
        }
    }

    /// Registers an agent under a fresh id at the given clock reading.
    /// The id has never been issued before.
    pub fn register_agent_at(&mut self, agent: AgentSession, now: u64) -> (id: String)
        requires
            old(self).wf(),
            old(self).next_id < u64::MAX,
        ensures
            final(self).wf(),
            id@ == agent_id_text(old(self).next_id as nat),
            !has_session(old(self).agents@, id@),
            !has_session(old(self).active_sessions@, id@),
            final(self).next_id == old(self).next_id + 1,
            final(self).agents@.len() == old(self).agents@.len() + 1,
            final(self).agents@.subrange(0, old(self).agents@.len() as int) == old(self).agents@,
            final(self).agents@.last().id == id,
            final(self).agents@.last().name == agent.name,
            final(self).agents@.last().capabilities@ == agent.capabilities@,
            final(self).agents@.last().last_seen == now,
            context_eqv(final(self).agents@.last().context, agent.context),
            final(self).active_sessions@.len() == old(self).active_sessions@.len() + 1,
            final(self).active_sessions@.subrange(
                0,
                old(self).active_sessions@.len() as int,
            ) == old(self).active_sessions@,
            session_eqv(final(self).active_sessions@.last(), final(self).agents@.last()),
            final(self).shared_context == old(self).shared_context,
    {
        let id = u64_to_string(self.next_id);
        proof {
            lemma_fresh_id_unseen(*self, self.agents@);
            lemma_fresh_id_unseen(*self, self.active_sessions@);
            lemma_sess_find_hit(self.agents@, id@);
            lemma_sess_find_hit(self.active_sessions@, id@);
        }
        let entry = AgentSession {
            id: id.clone(),
            name: agent.name,
            capabilities: agent.capabilities,
            last_seen: now,
            context: agent.context,
        };
        let copy = clone_session(&entry);
        self.agents.push(entry);
        self.active_sessions.push(copy);
        self.next_id = self.next_id + 1;
        proof {
            assert(self.agents@.subrange(0, old(self).agents@.len() as int) =~= old(self).agents@);
            assert(self.active_sessions@.subrange(
                0,
                old(self).active_sessions@.len() as int,
            ) =~= old(self).active_sessions@);
            lemma_register_wf(*old(self), *self, id@);
        }
        id
    }

    /// Registers an agent under a fresh id, stamped with the clock now.
    pub fn register_agent(&mut self, agent: AgentSession) -> (id: String)
        requires
            old(self).wf(),
            old(self).next_id < u64::MAX,
        ensures
            final(self).wf(),
            id@ == agent_id_text(old(self).next_id as nat),
            !has_session(old(self).agents@, id@),
            !has_session(old(self).active_sessions@, id@),
            final(self).next_id == old(self).next_id + 1,
            final(self).agents@.len() == old(self).agents@.len() + 1,
            final(self).agents@.subrange(0, old(self).agents@.len() as int) == old(self).agents@,
            final(self).agents@.last().id == id,
            final(self).agents@.last().name == agent.name,
            final(self).agents@.last().capabilities@ == agent.capabilities@,
            context_eqv(final(self).agents@.last().context, agent.context),
            final(self).active_sessions@.len() == old(self).active_sessions@.len() + 1,
            final(self).active_sessions@.subrange(
                0,
                old(self).active_sessions@.len() as int,
            ) == old(self).active_sessions@,
            session_eqv(final(self).active_sessions@.last(), final(self).agents@.last()),
            final(self).shared_context == old(self).shared_context,
    {
        let now = now_unix_seconds();
        self.register_agent_at(agent, now)
    }

    /// Refreshes the liveness stamp of a registered agent at the given clock
    /// reading, re-activating it if it had been deregistered. False exactly
    /// when the id was never registered, and then nothing changes.
    pub fn update_agent_presence_at(&mut self, agent_id: &str, now: u64) -> (r: bool)
        requires
            old(self).wf(),
        ensures
            final(self).wf(),
            r == has_session(old(self).agents@, agent_id@),
            !r ==> *final(self) == *old(self),
            final(self).shared_context == old(self).shared_context,
            final(self).next_id == old(self).next_id,
            r ==> ({
                let i = sess_find(old(self).agents@, agent_id@);
                &&& final(self).agents@.len() == old(self).agents@.len()
                &&& forall|m: int|
                    0 <= m < old(self).agents@.len() && m != i ==> #[trigger] final(self).agents@[m] == old(self).agents@[m]
                &&& final(self).agents@[i].last_seen == now
                &&& final(self).agents@[i].id == old(self).agents@[i].id
                &&& final(self).agents@[i].name == old(self).agents@[i].name
                &&& final(self).agents@[i].capabilities@ == old(self).agents@[i].capabilities@
                &&& context_eqv(final(self).agents@[i].context, old(self).agents@[i].context)
                &&& if has_session(old(self).active_sessions@, agent_id@) {
                    let j = sess_find(old(self).active_sessions@, agent_id@);
                    &&& final(self).active_sessions@.len() == old(self).active_sessions@.len()
                    &&& forall|m: int|
                        0 <= m < old(self).active_sessions@.len() && m != j ==> #[trigger] final(self).active_sessions@[m] == old(self).active_sessions@[m]
                    &&& final(self).active_sessions@[j].last_seen == now
                    &&& final(self).active_sessions@[j].id == old(self).active_sessions@[j].id
                } else {
                    &&& final(self).active_sessions@.len() == old(self).active_sessions@.len() + 1
                    &&& final(self).active_sessions@.subrange(
                        0,
                        old(self).active_sessions@.len() as int,
                    ) == old(self).active_sessions@
                    &&& session_eqv(
                        final(self).active_sessions@.last(),
                        final(self).agents@[i],
                    )
                }
            }),
    {
        let i = sess_index(&self.agents, agent_id);
        if i == self.agents.len() {
            return false;
        }
        let mut e = clone_session(&self.agents[i]);
        e.last_seen = now;
        self.agents.set(i, e);
        proof {
            lemma_presence_agents_wf(*old(self), *self, i as int);
        }
        let j = sess_index(&self.active_sessions, agent_id);
        if j < self.active_sessions.len() {
            let mut a = clone_session(&self.active_sessions[j]);
            a.last_seen = now;
            self.active_sessions.set(j, a);
            proof {
                lemma_presence_active_wf(*old(self), *self, j as int);
            }
            true
        } else {
            let re = clone_session(&self.agents[i]);
            self.active_sessions.push(re);
            proof {
                assert(self.active_sessions@.subrange(
                    0,
                    old(self).active_sessions@.len() as int,
                ) =~= old(self).active_sessions@);
                lemma_presence_push_wf(*old(self), *self, i as int);
            }
            true
        }
    }

    /// Refreshes the liveness stamp with the clock now. False exactly when
    /// the id was never registered, and then nothing changes.
    pub fn update_agent_presence(&mut self, agent_id: &str) -> (r: bool)
        requires
            old(self).wf(),
        ensures
            final(self).wf(),
            r == has_session(old(self).agents@, agent_id@),
            !r ==> *final(self) == *old(self),
            final(self).shared_context == old(self).shared_context,
            final(self).next_id == old(self).next_id,
    {
        let now = now_unix_seconds();
        self.update_agent_presence_at(agent_id, now)
    }

    /// Removes the agent from the active set only; the registry keeps it.
    /// False exactly when the id was not active, and then nothing changes.
    pub fn deregister_agent(&mut self, agent_id: &str) -> (r: bool)
        requires
            old(self).wf(),
        ensures
            final(self).wf(),
            r == has_session(old(self).active_sessions@, agent_id@),
            r ==> final(self).active_sessions@ == old(self).active_sessions@.remove(
                sess_find(old(self).active_sessions@, agent_id@),
            ),
            r ==> !has_session(final(self).active_sessions@, agent_id@),
            !r ==> *final(self) == *old(self),
            final(self).agents@ == old(self).agents@,
            final(self).shared_context == old(self).shared_context,
            final(self).next_id == old(self).next_id,
    {
        let i = sess_index(&self.active_sessions, agent_id);
        if i == self.active_sessions.len() {
            return false;
        }
        proof {
            lemma_deregister_idempotent(self.active_sessions@, agent_id@);
        }
        self.active_sessions.remove(i);
        proof {
            lemma_remove_wf(*old(self), *self, i as int);
        }
        true
    }

    /// A snapshot of the active agents, in their stored order.
    pub fn get_active_agents(&self) -> (r: Vec<AgentSession>)
        ensures
            r@.len() == self.active_sessions@.len(),
            forall|k: int|
                0 <= k < r@.len() ==> session_eqv(
                    #[trigger] r@[k],
                    self.active_sessions@[k],
                ),
    {
        let n = self.active_sessions.len();
        let mut r: Vec<AgentSession> = Vec::new();
        let mut i: usize = 0;
        while i < n
            invariant
                i <= n,
                n == self.active_sessions@.len(),
                r@.len() == i,
                forall|k: int|
                    0 <= k < i ==> session_eqv(#[trigger] r@[k], self.active_sessions@[k]),
            decreases n - i,
        {
            let c = clone_session(&self.active_sessions[i]);
            r.push(c);
            i += 1;
        }
        r
    }

    /// Merges the patch into the shared data and moves the timestamp forward
    /// to the given clock reading, never backwards.
    pub fn update_shared_context_at(
        &mut self,
        context_updates: Vec<(String, JsonValue)>,
        now: u64,
    )
        requires
            old(self).wf(),
        ensures
            final(self).wf(),
            JsonValue::view_obj(final(self).shared_context.data@) == spec_merge(
                JsonValue::view_obj(old(self).shared_context.data@),
                JsonValue::view_obj(context_updates@),
            ),
            final(self).shared_context.updated_at == (if now > old(self).shared_context.updated_at {
                now
            } else {
                old(self).shared_context.updated_at
            }),
            final(self).shared_context.id == old(self).shared_context.id,
            final(self).shared_context.owner == old(self).shared_context.owner,
            final(self).shared_context.collaborators@ == old(self).shared_context.collaborators@,
            final(self).agents@ == old(self).agents@,
            final(self).active_sessions@ == old(self).active_sessions@,
            final(self).next_id == old(self).next_id,
    {
        merge_members(&mut self.shared_context.data, &context_updates);
        if now > self.shared_context.updated_at {
            self.shared_context.updated_at = now;
        }
        proof {
            lemma_wf_same(*old(self), *self);
        }
    }

    /// Merges the patch into the shared data and stamps the clock now.
    pub fn update_shared_context(&mut self, context_updates: Vec<(String, JsonValue)>)
        requires
            old(self).wf(),
        ensures
            final(self).wf(),
            JsonValue::view_obj(final(self).shared_context.data@) == spec_merge(
                JsonValue::view_obj(old(self).shared_context.data@),
                JsonValue::view_obj(context_updates@),
            ),
            final(self).shared_context.updated_at >= old(self).shared_context.updated_at,
            final(self).shared_context.id == old(self).shared_context.id,
            final(self).shared_context.owner == old(self).shared_context.owner,
            final(self).shared_context.collaborators@ == old(self).shared_context.collaborators@,
            final(self).agents@ == old(self).agents@,
            final(self).active_sessions@ == old(self).active_sessions@,
            final(self).next_id == old(self).next_id,
    {
        let now = now_unix_seconds();
        self.update_shared_context_at(context_updates, now);
    }

    /// A copy of the shared context as it stands.
    pub fn get_shared_context(&self) -> (r: SharedContext)
        ensures
            r.id == self.shared_context.id,
            JsonValue::view_obj(r.data@) == JsonValue::view_obj(self.shared_context.data@),
            r.updated_at == self.shared_context.updated_at,
            r.owner == self.shared_context.owner,
            r.collaborators@ == self.shared_context.collaborators@,
    {
        SharedContext {
            id: self.shared_context.id.clone(),
            data: clone_obj(&self.shared_context.data),
            updated_at: self.shared_context.updated_at,
            owner: match &self.shared_context.owner {
                Some(o) => Some(o.clone()),
                None => None,
            },
            collaborators: clone_string_vec(&self.shared_context.collaborators),
        }
    }

    /// Adds the agent to the collaborator set at the given clock reading.
    /// False when it already collaborates, and then nothing changes at all.
    pub fn add_collaborator_at(&mut self, agent_id: String, now: u64) -> (r: bool)
        requires
            old(self).wf(),
        ensures
            final(self).wf(),
            r == !has_collab(old(self).shared_context.collaborators@, agent_id@),
            !r ==> *final(self) == *old(self),
            r ==> final(self).shared_context.collaborators@ == old(self).shared_context.collaborators@.push(agent_id),
            r ==> final(self).shared_context.updated_at == (if now > old(self).shared_context.updated_at {
                now
            } else {
                old(self).shared_context.updated_at
            }),
            final(self).shared_context.id == old(self).shared_context.id,
            final(self).shared_context.owner == old(self).shared_context.owner,
            final(self).shared_context.data@ == old(self).shared_context.data@,
            final(self).agents@ == old(self).agents@,
            final(self).active_sessions@ == old(self).active_sessions@,
            final(self).next_id == old(self).next_id,
    {
        let i = collab_index(&self.shared_context.collaborators, agent_id.as_str());
        if i < self.shared_context.collaborators.len() {
            return false;
        }
        self.shared_context.collaborators.push(agent_id);
        if now > self.shared_context.updated_at {
            self.shared_context.updated_at = now;
        }
        proof {
            lemma_wf_same(*old(self), *self);
        }
        true
    }

    /// Adds the agent to the collaborator set, stamped with the clock now.
    /// False when it already collaborates, and then nothing changes at all.
    pub fn add_collaborator(&mut self, agent_id: String) -> (r: bool)
        requires
            old(self).wf(),
        ensures
            final(self).wf(),
            r == !has_collab(old(self).shared_context.collaborators@, agent_id@),
            !r ==> *final(self) == *old(self),
            r ==> final(self).shared_context.collaborators@ == old(self).shared_context.collaborators@.push(agent_id),
            r ==> final(self).shared_context.updated_at >= old(self).shared_context.updated_at,
            final(self).shared_context.id == old(self).shared_context.id,
            final(self).shared_context.owner == old(self).shared_context.owner,
            final(self).shared_context.data@ == old(self).shared_context.data@,
            final(self).agents@ == old(self).agents@,
            final(self).active_sessions@ == old(self).active_sessions@,
            final(self).next_id == old(self).next_id,
    {
        let now = now_unix_seconds();
        self.add_collaborator_at(agent_id, now)
    }

    /// Removes the agent from the collaborator set at the given clock
    /// reading. False when it was no collaborator, and then nothing changes.
    pub fn remove_collaborator_at(&mut self, agent_id: &str, now: u64) -> (r: bool)
        requires
            old(self).wf(),
        ensures
            final(self).wf(),
            r == has_collab(old(self).shared_context.collaborators@, agent_id@),
            !r ==> *final(self) == *old(self),
            r ==> final(self).shared_context.collaborators@ == remove_id(
                old(self).shared_context.collaborators@,
                agent_id@,
            ),
            r ==> !has_collab(final(self).shared_context.collaborators@, agent_id@),
            r ==> final(self).shared_context.updated_at == (if now > old(self).shared_context.updated_at {
                now
            } else {
                old(self).shared_context.updated_at
            }),
            final(self).shared_context.id == old(self).shared_context.id,
            final(self).shared_context.owner == old(self).shared_context.owner,
            final(self).shared_context.data@ == old(self).shared_context.data@,
            final(self).agents@ == old(self).agents@,
            final(self).active_sessions@ == old(self).active_sessions@,
            final(self).next_id == old(self).next_id,
    {
        let n = self.shared_context.collaborators.len();
        let mut kept: Vec<String> = Vec::new();
        let mut found = false;
        let mut i: usize = 0;
        proof {
            assert(self.shared_context.collaborators@.subrange(0, 0) =~= Seq::<String>::empty());
        }
        while i < n
            invariant
                i <= n,
                n == self.shared_context.collaborators@.len(),
                kept@ == remove_id(
                    self.shared_context.collaborators@.subrange(0, i as int),
                    agent_id@,
                ),
                found == has_collab(
                    self.shared_context.collaborators@.subrange(0, i as int),
                    agent_id@,
                ),
                self.shared_context.collaborators@ == old(self).shared_context.collaborators@,
            decreases n - i,
        {
            let ghost pre = self.shared_context.collaborators@.subrange(0, i as int);
            let c = self.shared_context.collaborators[i].clone();
            proof {
                assert(self.shared_context.collaborators@.subrange(0, i as int + 1) =~= pre.push(
                    self.shared_context.collaborators@[i as int],
                ));
                lemma_remove_id_push(pre, self.shared_context.collaborators@[i as int], agent_id@);
                lemma_has_collab_push(pre, self.shared_context.collaborators@[i as int], agent_id@);
            }
            if str_eq(c.as_str(), agent_id) {
                found = true;
            } else {
                kept.push(c);
            }
            i += 1;
        }
        proof {
            assert(self.shared_context.collaborators@.subrange(0, n as int) =~= self.shared_context.collaborators@);
        }
        if found {
            self.shared_context.collaborators = kept;
            if now > self.shared_context.updated_at {
                self.shared_context.updated_at = now;
            }
            proof {
                lemma_remove_id_gone(old(self).shared_context.collaborators@, agent_id@);
                lemma_wf_same(*old(self), *self);
            }
            true
        } else {
            false
        }
    }

    /// Removes the agent from the collaborator set and stamps the clock now.
    pub fn remove_collaborator(&mut self, agent_id: &str) -> (r: bool)
        requires
            old(self).wf(),
        ensures
            final(self).wf(),
            r == has_collab(old(self).shared_context.collaborators@, agent_id@),
            !r ==> *final(self) == *old(self),
            r ==> final(self).shared_context.collaborators@ == remove_id(
                old(self).shared_context.collaborators@,
                agent_id@,
            ),
            r ==> !has_collab(final(self).shared_context.collaborators@, agent_id@),
            r ==> final(self).shared_context.updated_at >= old(self).shared_context.updated_at,
            final(self).shared_context.id == old(self).shared_context.id,
            final(self).shared_context.owner == old(self).shared_context.owner,
            final(self).shared_context.data@ == old(self).shared_context.data@,
            final(self).agents@ == old(self).agents@,
            final(self).active_sessions@ == old(self).active_sessions@,
            final(self).next_id == old(self).next_id,
    {
        let now = now_unix_seconds();
        self.remove_collaborator_at(agent_id, now)
    }
}

impl Default for AgentCoordinator {
    /// The same coordinator `new` builds.
    fn default() -> (r: Self)
        ensures
            r.wf(),
            r.agents@.len() == 0,
            r.active_sessions@.len() == 0,
            r.next_id == 0,
    {
        Self::new()
    }
}

/// The collaborator list with every occurrence of an id taken out.
pub open spec fn remove_id(s: Seq<String>, id: Seq<char>) -> Seq<String>
    decreases s.len(),
{
    if s.len() == 0 {
        Seq::empty()
    } else if s[0]@ == id {
        remove_id(s.subrange(1, s.len() as int), id)
    } else {
        seq![s[0]] + remove_id(s.subrange(1, s.len() as int), id)
    }
}

proof fn lemma_remove_id_push(s: Seq<String>, x: String, id: Seq<char>)
    ensures
        remove_id(s.push(x), id) == (if x@ == id {
            remove_id(s, id)
        } else {
            remove_id(s, id).push(x)
        }),
    decreases s.len(),
{
    reveal_with_fuel(remove_id, 3);
    if s.len() == 0 {
        assert(s.push(x)[0] == x);
        assert(s.push(x).subrange(1, 1) =~= Seq::<String>::empty());
        if x@ != id {
            assert(seq![x] + remove_id(Seq::<String>::empty(), id) =~= Seq::<
                String,
            >::empty().push(x));
            assert(remove_id(s, id) == Seq::<String>::empty());
        }
    } else {
        assert(s.push(x)[0] == s[0]);
        assert(s.push(x).subrange(1, s.push(x).len() as int) =~= s.subrange(
            1,
            s.len() as int,
        ).push(x));
        lemma_remove_id_push(s.subrange(1, s.len() as int), x, id);
        if s[0]@ != id && x@ != id {
            assert(seq![s[0]] + remove_id(s.subrange(1, s.len() as int), id).push(x) =~= (
            seq![s[0]] + remove_id(s.subrange(1, s.len() as int), id)).push(x));
        }
    }
}

proof fn lemma_has_collab_push(s: Seq<String>, x: String, id: Seq<char>)
    ensures
        has_collab(s.push(x), id) == (has_collab(s, id) || x@ == id),
{
    if has_collab(s, id) {
        let k = choose|k: int| 0 <= k < s.len() && (#[trigger] s[k])@ == id;
        assert(s.push(x)[k] == s[k]);
    }
    if x@ == id {
        assert(s.push(x)[s.len() as int] == x);
    }
    if has_collab(s.push(x), id) {
        let k = choose|k: int| 0 <= k < s.push(x).len() && (#[trigger] s.push(x)[k])@ == id;
        if k < s.len() {
            assert(s[k] == s.push(x)[k]);
        }
    }
}

proof fn lemma_remove_id_gone(s: Seq<String>, id: Seq<char>)
    ensures
        !has_collab(remove_id(s, id), id),
    decreases s.len(),
{
    if s.len() > 0 {
        lemma_remove_id_gone(s.subrange(1, s.len() as int), id);
        if s[0]@ != id {
            let t = remove_id(s, id);
            let u = remove_id(s.subrange(1, s.len() as int), id);
            assert(t == seq![s[0]] + u);
            if has_collab(t, id) {
                let k = choose|k: int| 0 <= k < t.len() && (#[trigger] t[k])@ == id;
                if k == 0 {
                    assert(t[0] == s[0]);
                } else {
                    assert(t[k] == u[k - 1]);
                }
            }
        }
    }
}

proof fn lemma_register_wf(c0: AgentCoordinator, c1: AgentCoordinator, id: Seq<char>)
    requires
        c0.wf(),
        c1.next_id == c0.next_id + 1,
        id == agent_id_text(c0.next_id as nat),
        c1.agents@.len() == c0.agents@.len() + 1,
        c1.agents@.subrange(0, c0.agents@.len() as int) == c0.agents@,
        c1.agents@.last().id@ == id,
        c1.active_sessions@.len() == c0.active_sessions@.len() + 1,
        c1.active_sessions@.subrange(0, c0.active_sessions@.len() as int)
            == c0.active_sessions@,
        c1.active_sessions@.last().id@ == id,
        !has_session(c0.agents@, id),
        !has_session(c0.active_sessions@, id),
    ensures
        c1.wf(),
{
    lemma_sess_find_hit(c0.agents@, id);
    lemma_sess_find_hit(c0.active_sessions@, id);
    assert forall|k: int| 0 <= k < c1.agents@.len() implies id_from_counter(
        (#[trigger] c1.agents@[k]).id@,
        c1.next_id,
    ) by {
        if k < c0.agents@.len() {
            assert(c1.agents@[k] == c0.agents@[k]);
            lemma_counter_monotone(c0.agents@[k].id@, c0.next_id, c1.next_id);
        } else {
            assert((c0.next_id as nat) < c1.next_id && c1.agents@[k].id@ == agent_id_text(
                c0.next_id as nat,
            ));
        }
    }
    assert forall|k: int| 0 <= k < c1.active_sessions@.len() implies id_from_counter(
        (#[trigger] c1.active_sessions@[k]).id@,
        c1.next_id,
    ) by {
        if k < c0.active_sessions@.len() {
            assert(c1.active_sessions@[k] == c0.active_sessions@[k]);
            lemma_counter_monotone(c0.active_sessions@[k].id@, c0.next_id, c1.next_id);
        } else {
            assert((c0.next_id as nat) < c1.next_id && c1.active_sessions@[k].id@
                == agent_id_text(c0.next_id as nat));
        }
    }
    assert forall|i: int, j: int| 0 <= i < j < c1.agents@.len() implies (
    #[trigger] c1.agents@[i]).id@ != (#[trigger] c1.agents@[j]).id@ by {
        if j < c0.agents@.len() {
            assert(c1.agents@[i] == c0.agents@[i] && c1.agents@[j] == c0.agents@[j]);
        } else {
            assert(c1.agents@[i] == c0.agents@[i]);
        }
    }
    assert forall|i: int, j: int| 0 <= i < j < c1.active_sessions@.len() implies (
    #[trigger] c1.active_sessions@[i]).id@ != (#[trigger] c1.active_sessions@[j]).id@ by {
        if j < c0.active_sessions@.len() {
            assert(c1.active_sessions@[i] == c0.active_sessions@[i] && c1.active_sessions@[j]
                == c0.active_sessions@[j]);
        } else {
            assert(c1.active_sessions@[i] == c0.active_sessions@[i]);
        }
    }
}

/// Well-formedness carries over when the sessions and the counter are kept.
proof fn lemma_wf_same(c0: AgentCoordinator, c1: AgentCoordinator)
    requires
        c0.wf(),
        c1.agents@ == c0.agents@,
        c1.active_sessions@ == c0.active_sessions@,
        c1.next_id == c0.next_id,
    ensures
        c1.wf(),
{
    assert forall|k: int| 0 <= k < c1.agents@.len() implies id_from_counter(
        (#[trigger] c1.agents@[k]).id@,
        c1.next_id,
    ) by {
        assert(c1.agents@[k] == c0.agents@[k]);
    }
    assert forall|k: int| 0 <= k < c1.active_sessions@.len() implies id_from_counter(
        (#[trigger] c1.active_sessions@[k]).id@,
        c1.next_id,
    ) by {
        assert(c1.active_sessions@[k] == c0.active_sessions@[k]);
    }
}

proof fn lemma_presence_agents_wf(c0: AgentCoordinator, c1: AgentCoordinator, i: int)
    requires
        c0.wf(),
        c1.next_id == c0.next_id,
        c1.agents@.len() == c0.agents@.len(),
        0 <= i < c0.agents@.len(),
        forall|m: int|
            0 <= m < c0.agents@.len() && m != i ==> #[trigger] c1.agents@[m] == c0.agents@[m],
        c1.agents@[i].id == c0.agents@[i].id,
        c1.active_sessions@ == c0.active_sessions@,
    ensures
        c1.wf(),
{
    assert forall|k: int| 0 <= k < c1.agents@.len() implies id_from_counter(
        (#[trigger] c1.agents@[k]).id@,
        c1.next_id,
    ) by {
        assert(c1.agents@[k].id@ == c0.agents@[k].id@);
    }
    assert forall|k: int| 0 <= k < c1.active_sessions@.len() implies id_from_counter(
        (#[trigger] c1.active_sessions@[k]).id@,
        c1.next_id,
    ) by {
        assert(c1.active_sessions@[k] == c0.active_sessions@[k]);
    }
    assert forall|a: int, b: int| 0 <= a < b < c1.agents@.len() implies (
    #[trigger] c1.agents@[a]).id@ != (#[trigger] c1.agents@[b]).id@ by {
        assert(c1.agents@[a].id@ == c0.agents@[a].id@);
        assert(c1.agents@[b].id@ == c0.agents@[b].id@);
    }
}

proof fn lemma_presence_active_wf(c0: AgentCoordinator, c1: AgentCoordinator, j: int)
    requires
        c0.wf(),
        c1.next_id == c0.next_id,
        c1.agents@.len() == c0.agents@.len(),
        forall|m: int|
            0 <= m < c0.agents@.len() ==> (#[trigger] c1.agents@[m]).id == c0.agents@[m].id,
        c1.active_sessions@.len() == c0.active_sessions@.len(),
        0 <= j < c0.active_sessions@.len(),
        forall|m: int|
            0 <= m < c0.active_sessions@.len() && m != j ==> #[trigger] c1.active_sessions@[m]
                == c0.active_sessions@[m],
        c1.active_sessions@[j].id == c0.active_sessions@[j].id,
    ensures
        c1.wf(),
{
    assert forall|k: int| 0 <= k < c1.agents@.len() implies id_from_counter(
        (#[trigger] c1.agents@[k]).id@,
        c1.next_id,
    ) by {
        assert(c1.agents@[k].id@ == c0.agents@[k].id@);
    }
    assert forall|k: int| 0 <= k < c1.active_sessions@.len() implies id_from_counter(
        (#[trigger] c1.active_sessions@[k]).id@,
        c1.next_id,
    ) by {
        assert(c1.active_sessions@[k].id@ == c0.active_sessions@[k].id@);
    }
    assert forall|a: int, b: int| 0 <= a < b < c1.agents@.len() implies (
    #[trigger] c1.agents@[a]).id@ != (#[trigger] c1.agents@[b]).id@ by {
        assert(c1.agents@[a].id@ == c0.agents@[a].id@);
        assert(c1.agents@[b].id@ == c0.agents@[b].id@);
    }
    assert forall|a: int, b: int| 0 <= a < b < c1.active_sessions@.len() implies (
    #[trigger] c1.active_sessions@[a]).id@ != (#[trigger] c1.active_sessions@[b]).id@ by {
        assert(c1.active_sessions@[a].id@ == c0.active_sessions@[a].id@);
        assert(c1.active_sessions@[b].id@ == c0.active_sessions@[b].id@);
    }
}

proof fn lemma_presence_push_wf(c0: AgentCoordinator, c1: AgentCoordinator, i: int)
    requires
        c0.wf(),
        c1.next_id == c0.next_id,
        c1.agents@.len() == c0.agents@.len(),
        0 <= i < c0.agents@.len(),
        forall|m: int|
            0 <= m < c0.agents@.len() ==> (#[trigger] c1.agents@[m]).id == c0.agents@[m].id,
        c1.active_sessions@.len() == c0.active_sessions@.len() + 1,
        c1.active_sessions@.subrange(0, c0.active_sessions@.len() as int)
            == c0.active_sessions@,
        c1.active_sessions@.last().id@ == c1.agents@[i].id@,
        !has_session(c0.active_sessions@, c1.agents@[i].id@),
    ensures
        c1.wf(),
{
    let id = c1.agents@[i].id@;
    lemma_sess_find_hit(c0.active_sessions@, id);
    assert forall|k: int| 0 <= k < c1.agents@.len() implies id_from_counter(
        (#[trigger] c1.agents@[k]).id@,
        c1.next_id,
    ) by {
        assert(c1.agents@[k].id@ == c0.agents@[k].id@);
    }
    assert forall|a: int, b: int| 0 <= a < b < c1.agents@.len() implies (
    #[trigger] c1.agents@[a]).id@ != (#[trigger] c1.agents@[b]).id@ by {
        assert(c1.agents@[a].id@ == c0.agents@[a].id@);
        assert(c1.agents@[b].id@ == c0.agents@[b].id@);
    }
    assert forall|k: int| 0 <= k < c1.active_sessions@.len() implies id_from_counter(
        (#[trigger] c1.active_sessions@[k]).id@,
        c1.next_id,
    ) by {
        if k < c0.active_sessions@.len() {
            assert(c1.active_sessions@[k] == c0.active_sessions@[k]);
        } else {
            assert(c1.active_sessions@[k].id@ == c0.agents@[i].id@);
        }
    }
    assert forall|a: int, b: int| 0 <= a < b < c1.active_sessions@.len() implies (
    #[trigger] c1.active_sessions@[a]).id@ != (#[trigger] c1.active_sessions@[b]).id@ by {
        if b < c0.active_sessions@.len() {
            assert(c1.active_sessions@[a] == c0.active_sessions@[a]);
            assert(c1.active_sessions@[b] == c0.active_sessions@[b]);
        } else {
            assert(c1.active_sessions@[a] == c0.active_sessions@[a]);
            assert(c1.active_sessions@[b].id@ == id);
        }
    }
}

proof fn lemma_remove_wf(c0: AgentCoordinator, c1: AgentCoordinator, i: int)
    requires
        c0.wf(),
        c1.next_id == c0.next_id,
        c1.agents@ == c0.agents@,
        0 <= i < c0.active_sessions@.len(),
        c1.active_sessions@ == c0.active_sessions@.remove(i),
    ensures
        c1.wf(),
{
    assert forall|k: int| 0 <= k < c1.agents@.len() implies id_from_counter(
        (#[trigger] c1.agents@[k]).id@,
        c1.next_id,
    ) by {
        assert(c1.agents@[k] == c0.agents@[k]);
    }
    assert forall|k: int| 0 <= k < c1.active_sessions@.len() implies id_from_counter(
        (#[trigger] c1.active_sessions@[k]).id@,
        c1.next_id,
    ) by {
        let o: int = if k < i {
            k
        } else {
            k + 1
        };
        assert(c1.active_sessions@[k] == c0.active_sessions@[o]);
    }
    assert forall|a: int, b: int| 0 <= a < b < c1.active_sessions@.len() implies (
    #[trigger] c1.active_sessions@[a]).id@ != (#[trigger] c1.active_sessions@[b]).id@ by {
        let oa: int = if a < i {
            a
        } else {
            a + 1
        };
        let ob: int = if b < i {
            b
        } else {
            b + 1
        };
        assert(c1.active_sessions@[a] == c0.active_sessions@[oa]);
        assert(c1.active_sessions@[b] == c0.active_sessions@[ob]);
    }
}

} // verus!
