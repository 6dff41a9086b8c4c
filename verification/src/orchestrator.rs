//! Live collaboration sessions: participants, analyst-gated validation
//! decisions and the session registry.
//!
//! The registry owns every session's state (its participants and its bus);
//! a [`SessionHandle`] names a session and carries a handle on its bus, and
//! reads or changes the session through the registry it is given.

use vstd::prelude::*;
use crate::assoc::{assoc_map, distinct_keys, lemma_assoc_lookup, lemma_assoc_update, lemma_assoc_push};
use std::collections::HashMap;
use crate::bus::{EventBus, DEFAULT_CAPACITY};
use crate::error::Error;
use crate::event::{Event, EventKind, EventSeverity, RawEvent, severity_for};
use crate::ids::{SessionId, hyphenated_uuid, is_random_uuid};
use crate::session::SessionRole;
use crate::text::{str_equal, concat2, concat3};

verus! {

broadcast use vstd::std_specs::hash::group_hash_axioms;

/// Identity used in the `source` field of events this module emits.
pub const CRATE_NAME: &'static str = "max-orchestrator";

/// Participant registered in a collaboration session.
#[derive(Debug, PartialEq, Eq)]
pub struct Participant {
    pub name: String,
    pub role: SessionRole,
}

impl Clone for Participant {
    fn clone(&self) -> (r: Self)
        ensures
            r == *self,
    {
        Participant { name: self.name.clone(), role: self.role }
    }
}

/// (name, role) entries of a participant list.
pub open spec fn roster_entries(ps: Seq<Participant>) -> Seq<(Seq<char>, SessionRole)> {
    ps.map_values(|p: Participant| (p.name@, p.role))
}

/// Outcome of who may take a validation decision.
pub enum DecisionRight {
    /// The actor is not a participant of the session.
    NotMember,
    /// The actor participates as an observer.
    Forbidden,
    /// The actor is an analyst or the lead.
    Allowed,
}

/// Who may decide: participants that are not observers.
pub open spec fn decision_right(roster: Map<Seq<char>, SessionRole>, actor: Seq<char>) -> DecisionRight {
    if !roster.contains_key(actor) {
        DecisionRight::NotMember
    } else if roster[actor] == SessionRole::Observer {
        DecisionRight::Forbidden
    } else {
        DecisionRight::Allowed
    }
}

/// Whoever last joined as an observer is refused a validation decision,
/// whatever the session held before.
pub proof fn law_joined_observer_is_refused(roster: Map<Seq<char>, SessionRole>, name: Seq<char>)
    ensures
        decision_right(roster.insert(name, SessionRole::Observer), name) == DecisionRight::Forbidden,
{
}

/// Whoever last joined as an analyst or as the lead may decide.
pub proof fn law_joined_decider_is_allowed(roster: Map<Seq<char>, SessionRole>, name: Seq<char>, role: SessionRole)
    requires
        role != SessionRole::Observer,
    ensures
        decision_right(roster.insert(name, role), name) == DecisionRight::Allowed,
{
}

/// Joining one participant leaves the decision right of every other name unchanged.
pub proof fn law_join_keeps_other_rights(roster: Map<Seq<char>, SessionRole>, name: Seq<char>, role: SessionRole, other: Seq<char>)
    requires
        other != name,
    ensures
        decision_right(roster.insert(name, role), other) == decision_right(roster, other),
{
}

/// `after` is `before` with `name` joined as `role`: a participant of that
/// name keeps its place and takes the role, else the newcomer is appended.
pub open spec fn joined_members(before: Seq<Participant>, after: Seq<Participant>, name: Seq<char>, role: SessionRole) -> bool {
    if exists|i: int| 0 <= i < before.len() && #[trigger] before[i].name@ == name {
        exists|i: int| 0 <= i < before.len() && #[trigger] before[i].name@ == name && after.len() == before.len()
            && after[i].name@ == name && after[i].role == role
            && forall|j: int| 0 <= j < before.len() && j != i ==> after[j] == before[j]
    } else {
        &&& after.len() == before.len() + 1
        &&& after[before.len() as int].name@ == name
        &&& after[before.len() as int].role == role
        &&& forall|j: int| 0 <= j < before.len() ==> after[j] == before[j]
    }
}

/// Text of the error for an unknown participant.
pub open spec fn not_in_session_text(name: Seq<char>) -> Seq<char> {
    "participant '"@ + name + "' not in session"@
}

/// Text of the error refusing an observer's decision.
pub open spec fn observer_refusal_text() -> Seq<char> {
    "observers cannot issue validation decisions"@
}

/// Text of the error for an unknown session.
pub open spec fn session_not_found_text(id: SessionId) -> Seq<char> {
    "session "@ + hyphenated_uuid(id.0)
}

/// What the registry keeps of one session.
#[derive(Debug)]
struct SessionState {
    bus: EventBus,
    participants: Vec<Participant>,
}

impl SessionState {
    spec fn wf(self) -> bool {
        distinct_keys(roster_entries(self.participants@))
    }

    proof fn lemma_members(self)
        requires
            self.wf(),
        ensures
            forall|k: Seq<char>| assoc_map(roster_entries(self.participants@)).contains_key(k)
                <==> exists|i: int| 0 <= i < self.participants@.len() && #[trigger] self.participants@[i].name@ == k,
            forall|i: int| 0 <= i < self.participants@.len()
                ==> #[trigger] assoc_map(roster_entries(self.participants@))[self.participants@[i].name@] == self.participants@[i].role,
    {
        let e = roster_entries(self.participants@);
        lemma_assoc_lookup(e);
        assert forall|i: int| 0 <= i < self.participants@.len()
            implies #[trigger] assoc_map(e)[self.participants@[i].name@] == self.participants@[i].role by {
            assert(e[i] == (self.participants@[i].name@, self.participants@[i].role));
        }
        assert forall|k: Seq<char>| assoc_map(e).contains_key(k)
            implies exists|i: int| 0 <= i < self.participants@.len() && #[trigger] self.participants@[i].name@ == k by {
            let i = choose|i: int| 0 <= i < e.len() && #[trigger] e[i].0 == k;
            assert(self.participants@[i].name@ == k);
        }
        assert forall|k: Seq<char>| (exists|i: int| 0 <= i < self.participants@.len() && #[trigger] self.participants@[i].name@ == k)
            implies assoc_map(e).contains_key(k) by {
            let i = choose|i: int| 0 <= i < self.participants@.len() && #[trigger] self.participants@[i].name@ == k;
            assert(e[i].0 == k);
        }
    }

    fn position(&self, name: &str) -> (r: Option<usize>)
        ensures
            match r {
                Some(i) => i < self.participants@.len() && self.participants@[i as int].name@ == name@,
                None => forall|i: int| 0 <= i < self.participants@.len() ==> #[trigger] self.participants@[i].name@ != name@,
            },
    {
        let mut i: usize = 0;
        while i < self.participants.len()
            invariant
                i <= self.participants@.len(),
                forall|j: int| 0 <= j < i ==> #[trigger] self.participants@[j].name@ != name@,
            decreases self.participants@.len() - i,
        {
            if str_equal(self.participants[i].name.as_str(), name) {
                return Some(i);
            }
            i = i + 1;
        }
        None
    }

    fn join(&mut self, name: String, role: SessionRole)
        requires
            old(self).wf(),
        ensures
            final(self).wf(),
            final(self).bus == old(self).bus,
            assoc_map(roster_entries(final(self).participants@))
                == assoc_map(roster_entries(old(self).participants@)).insert(name@, role),
            joined_members(old(self).participants@, final(self).participants@, name@, role),
    {
        match self.position(name.as_str()) {
            Some(i) => {
                let ghost before = self.participants@;
                let p = Participant { name, role };
                self.participants.set(i, p);
                proof {
                    assert(roster_entries(self.participants@) =~= roster_entries(before).update(i as int, (p.name@, p.role)));
                    lemma_assoc_update(roster_entries(before), i as int, (p.name@, p.role));
                }
            },
            None => {
                let ghost before = self.participants@;
                let ghost entry = (name@, role);
                self.participants.push(Participant { name, role });
                proof {
                    assert(roster_entries(self.participants@) =~= roster_entries(before).push(entry));
                    lemma_assoc_push(roster_entries(before), entry);
                }
            },
        }
    }

    fn members(&self) -> (v: Vec<Participant>)
        ensures
            v@ == self.participants@,
    {
        let mut out: Vec<Participant> = Vec::new();
        let mut i: usize = 0;
        while i < self.participants.len()
            invariant
                i <= self.participants@.len(),
                out@ == self.participants@.subrange(0, i as int),
            decreases self.participants@.len() - i,
        {
            out.push(self.participants[i].clone());
            proof { assert(out@ =~= self.participants@.subrange(0, i + 1)); }
            i = i + 1;
        }
        assert(out@ =~= self.participants@);
        out
    }

    fn role_of(&self, name: &str) -> (r: Result<SessionRole, Error>)
        requires
            self.wf(),
        ensures
            match r {
                Ok(role) => assoc_map(roster_entries(self.participants@)).contains_key(name@)
                    && assoc_map(roster_entries(self.participants@))[name@] == role,
                Err(Error::NotFound(msg)) => !assoc_map(roster_entries(self.participants@)).contains_key(name@)
                    && msg@ == not_in_session_text(name@),
                Err(_) => false,
            },
    {
        proof { self.lemma_members(); }
        match self.position(name) {
            Some(i) => Ok(self.participants[i].role),
            None => Err(Error::NotFound(concat3("participant '", name, "' not in session"))),
        }
    }
}

/// Handle on one live session: its id and its event bus. The participants
/// live in the [`Orchestrator`] that registered the session, which the
/// methods that read or change them take as an argument.
#[derive(Debug)]
pub struct SessionHandle {
    pub id: SessionId,
    bus: EventBus,
}

impl SessionHandle {
    /// The session's id.
    pub closed spec fn session_id(&self) -> SessionId {
        self.id
    }

    /// The bus the session publishes on.
    pub closed spec fn event_bus(&self) -> EventBus {
        self.bus
    }

    /// The session's id.
    pub fn id(&self) -> (r: SessionId)
        ensures
            r == self.session_id(),
    {
        self.id
    }

    /// The session's event bus.
    pub fn bus(&self) -> (b: &EventBus)
        ensures
            *b == self.event_bus(),
    {
        &self.bus
    }

    /// Registers `name` with `role` in this session of `orch`; joining again
    /// replaces the earlier role. Every handle on the session sees the change.
    pub fn join(&self, orch: &mut Orchestrator, name: String, role: SessionRole) -> (r: Result<(), Error>)
        requires
            old(orch).wf(),
        ensures
            final(orch).wf(),
            old(orch).has_session(self.session_id()) <==> r is Ok,
            r matches Err(e) ==> e matches Error::NotFound(msg) && msg@ == session_not_found_text(self.session_id()),
            r is Ok ==> {
                &&& final(orch).has_session(self.session_id())
                &&& final(orch).roster_of(self.session_id()) == old(orch).roster_of(self.session_id()).insert(name@, role)
                &&& joined_members(old(orch).members_of(self.session_id()), final(orch).members_of(self.session_id()), name@, role)
                &&& final(orch).bus_of(self.session_id()) == old(orch).bus_of(self.session_id())
            },
            r is Err ==> forall|s: SessionId| final(orch).unchanged(*old(orch), s),
            final(orch).count() == old(orch).count(),
            forall|s: SessionId| s != self.session_id() ==> final(orch).unchanged(*old(orch), s),
    {
        orch.join_session(self.id, name, role)
    }

    /// The current participants of this session in `orch`, in the order they
    /// first joined.
    pub fn participants(&self, orch: &Orchestrator) -> (r: Result<Vec<Participant>, Error>)
        ensures
            orch.has_session(self.session_id()) <==> r is Ok,
            r matches Ok(v) ==> v@ == orch.members_of(self.session_id()),
            r matches Err(e) ==> e matches Error::NotFound(msg) && msg@ == session_not_found_text(self.session_id()),
    {
        match orch.sessions.get(&self.id.0) {
            Some(state) => Ok(state.members()),
            None => Err(session_not_found(self.id)),
        }
    }

    /// Publishes a producer event, scoped to this session whatever session
    /// the envelope named.
    pub fn ingest(&self, raw: RawEvent) -> (r: Result<Event, Error>)
        ensures
            r matches Ok(e) && e.session_id == self.session_id() && e.source == raw.source && e.kind == raw.kind
                && e.severity == severity_for(raw.kind) && is_random_uuid(e.id.0),
    {
        let mut raw = raw;
        raw.session_id = self.id;
        match self.bus.publish_raw(raw) {
            Ok(e) => Ok(e),
            Err(e) => Err(Error::Internal(String::from_str(e.message()))),
        }
    }

    /// Posts a collaboration annotation; any participant may annotate.
    pub fn annotate(&self, orch: &Orchestrator, author: String, text: String) -> (r: Result<Event, Error>)
        requires
            orch.wf(),
        ensures
            !orch.has_session(self.session_id()) ==> (r matches Err(Error::NotFound(msg))
                && msg@ == session_not_found_text(self.session_id())),
            orch.has_session(self.session_id()) ==> {
                &&& orch.roster_of(self.session_id()).contains_key(author@) <==> r is Ok
                &&& r matches Err(err) ==> err matches Error::NotFound(msg) && msg@ == not_in_session_text(author@)
            },
            r matches Ok(e) ==> e.session_id == self.session_id() && e.source@ == CRATE_NAME@
                && e.kind == (EventKind::Annotation { author, text }) && e.severity == EventSeverity::Info,
    {
        let _role = orch.role_in(self.id, author.as_str())?;
        self.ingest(RawEvent {
            session_id: self.id,
            source: String::from_str(CRATE_NAME),
            kind: EventKind::Annotation { author, text },
        })
    }

    /// Analyst-gated validation decision: only analysts and the lead may
    /// approve or reject.
    pub fn decide_validation(&self, orch: &Orchestrator, actor: &str, finding_id: u128, approved: bool, note: Option<String>) -> (r: Result<Event, Error>)
        requires
            orch.wf(),
        ensures
            !orch.has_session(self.session_id()) ==> (r matches Err(Error::NotFound(msg))
                && msg@ == session_not_found_text(self.session_id())),
            orch.has_session(self.session_id()) ==> match decision_right(orch.roster_of(self.session_id()), actor@) {
                DecisionRight::NotMember => r matches Err(Error::NotFound(msg)) && msg@ == not_in_session_text(actor@),
                DecisionRight::Forbidden => r matches Err(Error::PermissionDenied(msg)) && msg@ == observer_refusal_text(),
                DecisionRight::Allowed => r matches Ok(e) && e.session_id == self.session_id() && e.source@ == CRATE_NAME@
                    && e.kind == (EventKind::ValidationDecision { finding_id, approved, note })
                    && e.severity == (if approved { EventSeverity::High } else { EventSeverity::Info }),
            },
    {
        let role = orch.role_in(self.id, actor)?;
        if !role.may_decide() {
            return Err(Error::PermissionDenied(String::from_str("observers cannot issue validation decisions")));
        }
        self.ingest(RawEvent {
            session_id: self.id,
            source: String::from_str(CRATE_NAME),
            kind: EventKind::ValidationDecision { finding_id, approved, note },
        })
    }
}

impl Clone for SessionHandle {
    /// Another handle on the same session and bus.
    fn clone(&self) -> (h: Self)
        ensures
            h == *self,
    {
        SessionHandle { id: self.id, bus: self.bus.share() }
    }
}

/// The error for an id that names no registered session.
fn session_not_found(id: SessionId) -> (e: Error)
    ensures
        e matches Error::NotFound(msg) && msg@ == session_not_found_text(id),
{
    Error::NotFound(concat2("session ", id.to_text().as_str()))
}

/// Top-level orchestrator: the registry of live sessions, keyed by id. It is
/// the one owner of every session's participants; handles reach them through
/// it.
#[derive(Debug)]
pub struct Orchestrator {
    sessions: HashMap<u128, SessionState>,
}

impl Orchestrator {
    /// Whether a session with this id is registered.
    pub closed spec fn has_session(&self, id: SessionId) -> bool {
        self.sessions@.contains_key(id.0)
    }

    /// The participants of the registered session `id`, in the order they
    /// first joined.
    pub closed spec fn members_of(&self, id: SessionId) -> Seq<Participant> {
        self.sessions@[id.0].participants@
    }

    /// The bus of the registered session `id`.
    pub closed spec fn bus_of(&self, id: SessionId) -> EventBus {
        self.sessions@[id.0].bus
    }

    /// Participants of session `id` by name, with their roles.
    pub open spec fn roster_of(&self, id: SessionId) -> Map<Seq<char>, SessionRole> {
        assoc_map(roster_entries(self.members_of(id)))
    }

    /// Number of registered sessions.
    pub closed spec fn count(&self) -> nat {
        self.sessions@.len()
    }

    /// Session `id` is registered in `self` exactly when in `before`, with the
    /// same participants and bus.
    pub open spec fn unchanged(&self, before: Orchestrator, id: SessionId) -> bool {
        &&& self.has_session(id) == before.has_session(id)
        &&& before.has_session(id) ==> self.members_of(id) == before.members_of(id) && self.bus_of(id) == before.bus_of(id)
    }

    /// Internal consistency: within each session every participant name occurs once.
    pub closed spec fn wf(&self) -> bool {
        forall|k: u128| #[trigger] self.sessions@.contains_key(k) ==> self.sessions@[k].wf()
    }

    /// No sessions.
    pub fn new() -> (o: Self)
        ensures
            o.wf(),
            o.count() == 0,
            forall|s: SessionId| !o.has_session(s),
    {
        Orchestrator { sessions: HashMap::new() }
    }

    /// Opens a new session with a fresh random id, no participants and its own
    /// event bus, and returns a handle on it. (Should the random id equal a
    /// registered one, the new session takes its place, as in a map keyed by
    /// id.)
    pub fn create_session(&mut self) -> (r: Result<SessionHandle, Error>)
        requires
            old(self).wf(),
        ensures
            final(self).wf(),
            r is Ok,
            r matches Ok(h) ==> {
                &&& is_random_uuid(h.session_id().0)
                &&& final(self).has_session(h.session_id())
                &&& final(self).members_of(h.session_id()) == Seq::<Participant>::empty()
                &&& final(self).roster_of(h.session_id()) == Map::<Seq<char>, SessionRole>::empty()
                &&& final(self).bus_of(h.session_id()) == h.event_bus()
                &&& h.event_bus().capacity() == DEFAULT_CAPACITY
                &&& final(self).count() == old(self).count() + (if old(self).has_session(h.session_id()) { 0int } else { 1int })
                &&& forall|s: SessionId| s != h.session_id() ==> final(self).unchanged(*old(self), s)
            },
    {
        let id = SessionId::new();
        let bus = EventBus::with_default_capacity();
        let handle = SessionHandle { id, bus: bus.share() };
        let state = SessionState { bus, participants: Vec::new() };
        proof {
            assert(roster_entries(state.participants@) =~= Seq::empty());
            assert(assoc_map(roster_entries(state.participants@)) =~= Map::empty());
        }
        self.sessions.insert(id.0, state);
        proof {
            assert(self.sessions@ == old(self).sessions@.insert(id.0, state));
            assert(assoc_map(roster_entries(Seq::<Participant>::empty())) =~= Map::<Seq<char>, SessionRole>::empty()) by {
                assert(roster_entries(Seq::<Participant>::empty()) =~= Seq::empty());
            }
        }
        Ok(handle)
    }

    /// A handle on the registered session `id`, on its bus.
    pub fn get_session(&self, id: SessionId) -> (r: Result<SessionHandle, Error>)
        ensures
            self.has_session(id) <==> r is Ok,
            r matches Ok(h) ==> h.session_id() == id && h.event_bus() == self.bus_of(id),
            r matches Err(e) ==> e matches Error::NotFound(msg) && msg@ == session_not_found_text(id),
    {
        match self.sessions.get(&id.0) {
            Some(state) => Ok(SessionHandle { id, bus: state.bus.share() }),
            None => Err(session_not_found(id)),
        }
    }

    /// Number of registered sessions.
    pub fn session_count(&self) -> (r: Result<usize, Error>)
        ensures
            r matches Ok(n) && n == self.count(),
    {
        Ok(self.sessions.len())
    }

    /// The role of participant `name` in session `id`.
    fn role_in(&self, id: SessionId, name: &str) -> (r: Result<SessionRole, Error>)
        requires
            self.wf(),
        ensures
            !self.has_session(id) ==> (r matches Err(Error::NotFound(msg)) && msg@ == session_not_found_text(id)),
            self.has_session(id) ==> match r {
                Ok(role) => self.roster_of(id).contains_key(name@) && self.roster_of(id)[name@] == role,
                Err(Error::NotFound(msg)) => !self.roster_of(id).contains_key(name@) && msg@ == not_in_session_text(name@),
                Err(_) => false,
            },
    {
        match self.sessions.get(&id.0) {
            Some(state) => {
                proof { assert(self.sessions@.contains_key(id.0)); }
                state.role_of(name)
            },
            None => Err(session_not_found(id)),
        }
    }

    /// Joins `name` as `role` to session `id`.
    fn join_session(&mut self, id: SessionId, name: String, role: SessionRole) -> (r: Result<(), Error>)
        requires
            old(self).wf(),
        ensures
            final(self).wf(),
            old(self).has_session(id) <==> r is Ok,
            r matches Err(e) ==> e matches Error::NotFound(msg) && msg@ == session_not_found_text(id),
            r is Ok ==> {
                &&& final(self).has_session(id)
                &&& final(self).roster_of(id) == old(self).roster_of(id).insert(name@, role)
                &&& joined_members(old(self).members_of(id), final(self).members_of(id), name@, role)
                &&& final(self).bus_of(id) == old(self).bus_of(id)
            },
            r is Err ==> forall|s: SessionId| final(self).unchanged(*old(self), s),
            final(self).count() == old(self).count(),
            forall|s: SessionId| s != id ==> final(self).unchanged(*old(self), s),
    {
        match self.sessions.remove(&id.0) {
            Some(state) => {
                proof {
                    assert(old(self).sessions@.contains_key(id.0));
                    assert(old(self).sessions@[id.0] == state);
                }
                let mut state = state;
                state.join(name, role);
                self.sessions.insert(id.0, state);
                proof {
                    assert(self.sessions@ == old(self).sessions@.insert(id.0, state));
                    assert forall|s: SessionId| s != id implies self.unchanged(*old(self), s) by {
                        if s.0 == id.0 {
                            assert(s == id);
                        }
                    }
                }
                Ok(())
            },
            None => {
                proof { assert(self.sessions@ == old(self).sessions@); }
                Err(session_not_found(id))
            },
        }
    }
}

/// Opens the session of a proxy run: a new session with `lead` joined as its
/// lead and no one else.
pub fn open_lead_session(orch: &mut Orchestrator, lead: String) -> (r: Result<SessionHandle, Error>)
    requires
        old(orch).wf(),
    ensures
        final(orch).wf(),
        r is Ok,
        r matches Ok(h) ==> {
            &&& is_random_uuid(h.session_id().0)
            &&& final(orch).has_session(h.session_id())
            &&& final(orch).members_of(h.session_id()).len() == 1
            &&& final(orch).members_of(h.session_id())[0].name@ == lead@
            &&& final(orch).members_of(h.session_id())[0].role == SessionRole::Lead
            &&& final(orch).roster_of(h.session_id()) == Map::<Seq<char>, SessionRole>::empty().insert(lead@, SessionRole::Lead)
            &&& final(orch).bus_of(h.session_id()) == h.event_bus()
            &&& final(orch).count() == old(orch).count() + (if old(orch).has_session(h.session_id()) { 0int } else { 1int })
            &&& forall|s: SessionId| s != h.session_id() ==> final(orch).unchanged(*old(orch), s)
        },
{
    let session = match orch.create_session() {
        Ok(h) => h,
        Err(e) => return Err(e),
    };
    let ghost mid = *orch;
    let joined = session.join(orch, lead, SessionRole::Lead);
    proof {
        assert(joined is Ok);
        assert(mid.members_of(session.session_id()) == Seq::<Participant>::empty());
        assert forall|s: SessionId| s != session.session_id() implies orch.unchanged(*old(orch), s) by {
            assert(orch.unchanged(mid, s));
            assert(mid.unchanged(*old(orch), s));
        }
    }
    Ok(session)
}

impl Default for Orchestrator {
    fn default() -> (o: Self)
        ensures
            o.wf(),
            o.count() == 0,
            forall|s: SessionId| !o.has_session(s),
    {
        Orchestrator::new()
    }
}

} // verus!
