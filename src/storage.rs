//! The in-process session registry: scope -> sessions, and scope -> configuration.
use vstd::prelude::*;
use crate::error::ConsensusError;
use crate::scope_config::ScopeConfig;
use crate::session::{ConsensusSession, SessionView};
use crate::types::{SessionTransition, Vote};

verus! {

/// The views of a list of sessions.
pub open spec fn sessions_view(s: Seq<ConsensusSession>) -> Seq<SessionView> {
    s.map_values(|x: ConsensusSession| x@)
}

/// No two sessions of the list share a proposal id.
pub open spec fn ids_distinct(s: Seq<SessionView>) -> bool {
    forall|i: int, j: int|
        0 <= i < j < s.len() ==> (#[trigger] s[i]).proposal.proposal_id != (#[trigger] s[j]).proposal.proposal_id
}

/// The position of the session with id `pid` in the list, if any.
pub open spec fn position_of(s: Seq<SessionView>, pid: u32) -> Option<int> {
    if exists|i: int| 0 <= i < s.len() && (#[trigger] s[i]).proposal.proposal_id == pid {
        Some(choose|i: int| 0 <= i < s.len() && (#[trigger] s[i]).proposal.proposal_id == pid)
    } else {
        None
    }
}

/// The session with id `pid` in the list, if any.
pub open spec fn session_with_id(s: Seq<SessionView>, pid: u32) -> Option<SessionView> {
    match position_of(s, pid) {
        Some(i) => Some(s[i]),
        None => None,
    }
}

/// The list with `x` stored: replacing the session of the same id, else appended.
pub open spec fn upsert(s: Seq<SessionView>, x: SessionView) -> Seq<SessionView> {
    match position_of(s, x.proposal.proposal_id) {
        Some(i) => s.update(i, x),
        None => s.push(x),
    }
}

/// The sessions of scope `s`, empty when the scope is unknown.
pub open spec fn list_of(m: Map<Seq<char>, Seq<SessionView>>, s: Seq<char>) -> Seq<SessionView> {
    if m.contains_key(s) {
        m[s]
    } else {
        Seq::empty()
    }
}

/// The session with id `pid` in scope `s`, if any.
pub open spec fn lookup(m: Map<Seq<char>, Seq<SessionView>>, s: Seq<char>, pid: u32) -> Option<SessionView> {
    if m.contains_key(s) {
        session_with_id(m[s], pid)
    } else {
        None
    }
}

/// The sessions of scope `s` with the one with id `pid` (at `pos`) replaced by `x`.
pub open spec fn replaced(m: Map<Seq<char>, Seq<SessionView>>, s: Seq<char>, pid: u32, x: SessionView) -> Map<
    Seq<char>,
    Seq<SessionView>,
> {
    m.insert(s, m[s].update(position_of(m[s], pid)->Some_0, x))
}

/// A well-formed list of sessions of one scope.
pub open spec fn scope_list_wf(s: Seq<SessionView>) -> bool {
    ids_distinct(s) && forall|i: int| 0 <= i < s.len() ==> (#[trigger] s[i]).wf()
}

struct ScopeEntry {
    scope: String,
    sessions: Vec<ConsensusSession>,
}

struct ConfigEntry {
    scope: String,
    config: ScopeConfig,
}

/// Sessions and scope configurations kept in memory; nothing is persisted.
pub struct InMemoryConsensusStorage {
    scopes: Vec<ScopeEntry>,
    configs: Vec<ConfigEntry>,
}

spec fn scope_names_distinct(e: Seq<ScopeEntry>) -> bool {
    forall|i: int, j: int| 0 <= i < j < e.len() ==> (#[trigger] e[i]).scope@ != (#[trigger] e[j]).scope@
}

spec fn config_names_distinct(e: Seq<ConfigEntry>) -> bool {
    forall|i: int, j: int| 0 <= i < j < e.len() ==> (#[trigger] e[i]).scope@ != (#[trigger] e[j]).scope@
}

fn find_scope(entries: &Vec<ScopeEntry>, scope: &String) -> (r: Option<usize>)
    ensures
        match r {
            Some(i) => i < entries.len() && entries@[i as int].scope@ == scope@,
            None => forall|i: int| 0 <= i < entries.len() ==> (#[trigger] entries@[i]).scope@ != scope@,
        },
{
    let mut i: usize = 0;
    while i < entries.len()
        invariant
            i <= entries.len(),
            forall|k: int| 0 <= k < i ==> (#[trigger] entries@[k]).scope@ != scope@,
        decreases entries.len() - i,
    {
        if entries[i].scope == *scope {
            return Some(i);
        }
        i = i + 1;
    }
    None
}

fn find_config(entries: &Vec<ConfigEntry>, scope: &String) -> (r: Option<usize>)
    ensures
        match r {
            Some(i) => i < entries.len() && entries@[i as int].scope@ == scope@,
            None => forall|i: int| 0 <= i < entries.len() ==> (#[trigger] entries@[i]).scope@ != scope@,
        },
{
    let mut i: usize = 0;
    while i < entries.len()
        invariant
            i <= entries.len(),
            forall|k: int| 0 <= k < i ==> (#[trigger] entries@[k]).scope@ != scope@,
        decreases entries.len() - i,
    {
        if entries[i].scope == *scope {
            return Some(i);
        }
        i = i + 1;
    }
    None
}

/// The index of the session with id `pid`, if any.
pub fn find_session(sessions: &Vec<ConsensusSession>, pid: u32) -> (r: Option<usize>)
    ensures
        match r {
            Some(j) => j < sessions.len() && sessions@[j as int].proposal.proposal_id == pid,
            None => position_of(sessions_view(sessions@), pid) is None,
        },
{
    let mut j: usize = 0;
    while j < sessions.len()
        invariant
            j <= sessions.len(),
            forall|k: int| 0 <= k < j ==> (#[trigger] sessions@[k]).proposal.proposal_id != pid,
        decreases sessions.len() - j,
    {
        if sessions[j].proposal.proposal_id == pid {
            return Some(j);
        }
        j = j + 1;
    }
    assert forall|k: int| 0 <= k < sessions.len() implies (#[trigger] sessions_view(sessions@)[k]).proposal.proposal_id != pid by {
        assert(sessions_view(sessions@)[k] == sessions@[k]@);
    }
    None
}

/// In a list with distinct ids, the position of a session is the index holding its id.
pub proof fn lemma_position(s: Seq<SessionView>, j: int)
    requires
        ids_distinct(s),
        0 <= j < s.len(),
    ensures
        position_of(s, s[j].proposal.proposal_id) == Some(j),
{
    let pid = s[j].proposal.proposal_id;
    assert(s[j].proposal.proposal_id == pid);
    let k = choose|i: int| 0 <= i < s.len() && (#[trigger] s[i]).proposal.proposal_id == pid;
    if k != j {
        if k < j {
            assert(s[k].proposal.proposal_id != s[j].proposal.proposal_id);
        } else {
            assert(s[j].proposal.proposal_id != s[k].proposal.proposal_id);
        }
    }
}

impl InMemoryConsensusStorage {
    /// The sessions of each known scope, in storage order.
    pub closed spec fn session_map(self) -> Map<Seq<char>, Seq<SessionView>> {
        Map::new(
            |k: Seq<char>| exists|i: int| 0 <= i < self.scopes.len() && (#[trigger] self.scopes@[i]).scope@ == k,
            |k: Seq<char>|
                sessions_view(
                    self.scopes@[choose|i: int|
                        0 <= i < self.scopes.len() && (#[trigger] self.scopes@[i]).scope@ == k].sessions@,
                ),
        )
    }

    /// The configuration of each configured scope.
    pub closed spec fn config_map(self) -> Map<Seq<char>, ScopeConfig> {
        Map::new(
            |k: Seq<char>| exists|i: int| 0 <= i < self.configs.len() && (#[trigger] self.configs@[i]).scope@ == k,
            |k: Seq<char>|
                self.configs@[choose|i: int|
                    0 <= i < self.configs.len() && (#[trigger] self.configs@[i]).scope@ == k].config,
        )
    }

    /// Scope names are unique, and every scope's list is well formed.
    pub closed spec fn inv(self) -> bool {
        &&& scope_names_distinct(self.scopes@)
        &&& config_names_distinct(self.configs@)
        &&& forall|i: int| 0 <= i < self.scopes.len() ==> scope_list_wf(sessions_view(#[trigger] self.scopes@[i].sessions@))
    }

    proof fn lemma_scope_at(self, i: int)
        requires
            self.inv(),
            0 <= i < self.scopes.len(),
        ensures
            self.session_map().contains_key(self.scopes@[i].scope@),
            self.session_map()[self.scopes@[i].scope@] == sessions_view(self.scopes@[i].sessions@),
    {
        let k = self.scopes@[i].scope@;
        assert(self.scopes@[i].scope@ == k);
        let c = choose|j: int| 0 <= j < self.scopes.len() && (#[trigger] self.scopes@[j]).scope@ == k;
        if c != i {
            if c < i {
                assert(self.scopes@[c].scope@ != self.scopes@[i].scope@);
            } else {
                assert(self.scopes@[i].scope@ != self.scopes@[c].scope@);
            }
        }
    }

    proof fn lemma_config_at(self, i: int)
        requires
            self.inv(),
            0 <= i < self.configs.len(),
        ensures
            self.config_map().contains_key(self.configs@[i].scope@),
            self.config_map()[self.configs@[i].scope@] == self.configs@[i].config,
    {
        let k = self.configs@[i].scope@;
        assert(self.configs@[i].scope@ == k);
        let c = choose|j: int| 0 <= j < self.configs.len() && (#[trigger] self.configs@[j]).scope@ == k;
        if c != i {
            if c < i {
                assert(self.configs@[c].scope@ != self.configs@[i].scope@);
            } else {
                assert(self.configs@[i].scope@ != self.configs@[c].scope@);
            }
        }
    }

    /// Every stored list is well formed.
    pub proof fn lemma_lists_wf(self)
        requires
            self.inv(),
        ensures
            forall|k: Seq<char>| #[trigger] self.session_map().contains_key(k) ==> scope_list_wf(self.session_map()[k]),
    {
        assert forall|k: Seq<char>| #[trigger] self.session_map().contains_key(k) implies scope_list_wf(self.session_map()[k]) by {
            let i = choose|i: int| 0 <= i < self.scopes.len() && (#[trigger] self.scopes@[i]).scope@ == k;
            self.lemma_scope_at(i);
        }
    }

    /// An empty registry.
    pub fn new() -> (r: InMemoryConsensusStorage)
        ensures
            r.inv(),
            r.session_map() == Map::<Seq<char>, Seq<SessionView>>::empty(),
            r.config_map() == Map::<Seq<char>, ScopeConfig>::empty(),
    {
        let r = InMemoryConsensusStorage { scopes: Vec::new(), configs: Vec::new() };
        assert(r.session_map() =~= Map::<Seq<char>, Seq<SessionView>>::empty());
        assert(r.config_map() =~= Map::<Seq<char>, ScopeConfig>::empty());
        r
    }
}

impl InMemoryConsensusStorage {
    /// Empties the list of the scope at `i` and hands it out.
    fn take_list(&mut self, i: usize) -> (r: Vec<ConsensusSession>)
        requires
            old(self).inv(),
            i < old(self).scopes.len(),
        ensures
            final(self).inv(),
            final(self).scopes.len() == old(self).scopes.len(),
            final(self).scopes@[i as int].scope@ == old(self).scopes@[i as int].scope@,
            old(self).session_map().contains_key(old(self).scopes@[i as int].scope@),
            sessions_view(r@) == old(self).session_map()[old(self).scopes@[i as int].scope@],
            final(self).session_map() == old(self).session_map().insert(
                old(self).scopes@[i as int].scope@,
                Seq::empty(),
            ),
            final(self).config_map() == old(self).config_map(),
    {
        proof {
            self.lemma_scope_at(i as int);
        }
        let ghost old_self = *self;
        let entry = self.scopes.remove(i);
        let ScopeEntry { scope, sessions } = entry;
        self.scopes.insert(i, ScopeEntry { scope, sessions: Vec::new() });
        proof {
            let k = old_self.scopes@[i as int].scope@;
            assert forall|a: int| 0 <= a < self.scopes.len() implies #[trigger] self.scopes@[a].scope@
                == old_self.scopes@[a].scope@ by {
                if a < i {
                } else if a > i {
                }
            }
            assert(scope_names_distinct(self.scopes@));
            assert(sessions_view(self.scopes@[i as int].sessions@) =~= Seq::<SessionView>::empty());
            assert forall|a: int| 0 <= a < self.scopes.len() implies scope_list_wf(
                sessions_view(#[trigger] self.scopes@[a].sessions@),
            ) by {
                if a != i {
                    assert(self.scopes@[a] == old_self.scopes@[a]);
                }
            }
            assert(self.inv());
            assert forall|kk: Seq<char>| #[trigger] self.session_map().contains_key(kk) <==> old_self.session_map().insert(k, Seq::empty()).contains_key(kk) by {
                if self.session_map().contains_key(kk) {
                    let a = choose|a: int| 0 <= a < self.scopes.len() && (#[trigger] self.scopes@[a]).scope@ == kk;
                    assert(old_self.scopes@[a].scope@ == kk);
                }
                if old_self.session_map().contains_key(kk) {
                    let a = choose|a: int| 0 <= a < old_self.scopes.len() && (#[trigger] old_self.scopes@[a]).scope@ == kk;
                    assert(self.scopes@[a].scope@ == kk);
                }
            }
            assert forall|kk: Seq<char>| #[trigger] self.session_map().contains_key(kk) implies self.session_map()[kk]
                == old_self.session_map().insert(k, Seq::empty())[kk] by {
                let a = choose|a: int| 0 <= a < self.scopes.len() && (#[trigger] self.scopes@[a]).scope@ == kk;
                self.lemma_scope_at(a);
                old_self.lemma_scope_at(a);
                if a != i {
                    assert(self.scopes@[a] == old_self.scopes@[a]);
                }
            }
            assert(self.session_map() =~= old_self.session_map().insert(k, Seq::empty()));
            assert(self.config_map() =~= old_self.config_map());
        }
        sessions
    }

    /// Stores `list` as the sessions of the scope at `i`.
    fn put_list(&mut self, i: usize, list: Vec<ConsensusSession>)
        requires
            old(self).inv(),
            i < old(self).scopes.len(),
            scope_list_wf(sessions_view(list@)),
        ensures
            final(self).inv(),
            final(self).scopes.len() == old(self).scopes.len(),
            final(self).scopes@[i as int].scope@ == old(self).scopes@[i as int].scope@,
            final(self).session_map() == old(self).session_map().insert(
                old(self).scopes@[i as int].scope@,
                sessions_view(list@),
            ),
            final(self).config_map() == old(self).config_map(),
    {
        let ghost old_self = *self;
        let entry = self.scopes.remove(i);
        let ScopeEntry { scope, sessions: _ } = entry;
        self.scopes.insert(i, ScopeEntry { scope, sessions: list });
        proof {
            let k = old_self.scopes@[i as int].scope@;
            let nv = sessions_view(list@);
            assert forall|a: int| 0 <= a < self.scopes.len() implies #[trigger] self.scopes@[a].scope@
                == old_self.scopes@[a].scope@ by {
                if a < i {
                } else if a > i {
                }
            }
            assert(scope_names_distinct(self.scopes@));
            assert forall|a: int| 0 <= a < self.scopes.len() implies scope_list_wf(
                sessions_view(#[trigger] self.scopes@[a].sessions@),
            ) by {
                if a != i {
                    assert(self.scopes@[a] == old_self.scopes@[a]);
                }
            }
            assert(self.inv());
            old_self.lemma_scope_at(i as int);
            assert forall|kk: Seq<char>| #[trigger] self.session_map().contains_key(kk) <==> old_self.session_map().insert(k, nv).contains_key(kk) by {
                if self.session_map().contains_key(kk) {
                    let a = choose|a: int| 0 <= a < self.scopes.len() && (#[trigger] self.scopes@[a]).scope@ == kk;
                    assert(old_self.scopes@[a].scope@ == kk);
                }
                if old_self.session_map().contains_key(kk) {
                    let a = choose|a: int| 0 <= a < old_self.scopes.len() && (#[trigger] old_self.scopes@[a]).scope@ == kk;
                    assert(self.scopes@[a].scope@ == kk);
                }
            }
            assert forall|kk: Seq<char>| #[trigger] self.session_map().contains_key(kk) implies self.session_map()[kk]
                == old_self.session_map().insert(k, nv)[kk] by {
                let a = choose|a: int| 0 <= a < self.scopes.len() && (#[trigger] self.scopes@[a]).scope@ == kk;
                self.lemma_scope_at(a);
                old_self.lemma_scope_at(a);
                if a != i {
                    assert(self.scopes@[a] == old_self.scopes@[a]);
                }
            }
            assert(self.session_map() =~= old_self.session_map().insert(k, nv));
            assert(self.config_map() =~= old_self.config_map());
        }
    }

    /// The index of the scope's entry, creating an empty one when it is unknown.
    fn scope_entry(&mut self, scope: &String) -> (r: usize)
        requires
            old(self).inv(),
        ensures
            final(self).inv(),
            r < final(self).scopes.len(),
            final(self).scopes@[r as int].scope@ == scope@,
            final(self).session_map() == old(self).session_map().insert(scope@, list_of(old(self).session_map(), scope@)),
            final(self).config_map() == old(self).config_map(),
    {
        match find_scope(&self.scopes, scope) {
            Some(i) => {
                proof {
                    self.lemma_scope_at(i as int);
                    assert(self.session_map().insert(scope@, list_of(self.session_map(), scope@)) =~= self.session_map());
                }
                i
            },
            None => {
                let ghost old_self = *self;
                self.scopes.push(ScopeEntry { scope: scope.clone(), sessions: Vec::new() });
                let i = self.scopes.len() - 1;
                proof {
                    assert(!old_self.session_map().contains_key(scope@));
                    assert(sessions_view(self.scopes@[i as int].sessions@) =~= Seq::<SessionView>::empty());
                    assert forall|a: int| 0 <= a < self.scopes.len() implies scope_list_wf(
                        sessions_view(#[trigger] self.scopes@[a].sessions@),
                    ) by {
                        if a < i {
                            assert(self.scopes@[a] == old_self.scopes@[a]);
                        }
                    }
                    assert forall|a: int, b: int| 0 <= a < b < self.scopes.len() implies (#[trigger] self.scopes@[a]).scope@
                        != (#[trigger] self.scopes@[b]).scope@ by {
                        if b < i {
                            assert(self.scopes@[a] == old_self.scopes@[a]);
                            assert(self.scopes@[b] == old_self.scopes@[b]);
                        } else {
                            assert(self.scopes@[a] == old_self.scopes@[a]);
                        }
                    }
                    assert(self.inv());
                    let target = old_self.session_map().insert(scope@, Seq::empty());
                    assert forall|kk: Seq<char>| #[trigger] self.session_map().contains_key(kk) <==> target.contains_key(kk) by {
                        if self.session_map().contains_key(kk) {
                            let a = choose|a: int| 0 <= a < self.scopes.len() && (#[trigger] self.scopes@[a]).scope@ == kk;
                            if a < i {
                                assert(old_self.scopes@[a].scope@ == kk);
                            }
                        }
                        if old_self.session_map().contains_key(kk) {
                            let a = choose|a: int| 0 <= a < old_self.scopes.len() && (#[trigger] old_self.scopes@[a]).scope@ == kk;
                            assert(self.scopes@[a].scope@ == kk);
                        }
                        if kk == scope@ {
                            assert(self.scopes@[i as int].scope@ == kk);
                        }
                    }
                    assert forall|kk: Seq<char>| #[trigger] self.session_map().contains_key(kk) implies self.session_map()[kk]
                        == target[kk] by {
                        let a = choose|a: int| 0 <= a < self.scopes.len() && (#[trigger] self.scopes@[a]).scope@ == kk;
                        self.lemma_scope_at(a);
                        if a < i {
                            assert(self.scopes@[a] == old_self.scopes@[a]);
                            old_self.lemma_scope_at(a);
                        }
                    }
                    assert(self.session_map() =~= target);
                    assert(self.config_map() =~= old_self.config_map());
                }
                i
            },
        }
    }

    /// A copy of the session with id `proposal_id` in `scope`, if any.
    pub fn get_session(&self, scope: &String, proposal_id: u32) -> (r: Option<ConsensusSession>)
        requires
            self.inv(),
        ensures
            match r {
                Some(s) => lookup(self.session_map(), scope@, proposal_id) == Some(s@),
                None => lookup(self.session_map(), scope@, proposal_id) is None,
            },
    {
        match find_scope(&self.scopes, scope) {
            None => {
                assert(!self.session_map().contains_key(scope@));
                None
            },
            Some(i) => {
                proof {
                    self.lemma_scope_at(i as int);
                }
                let sessions = &self.scopes[i].sessions;
                match find_session(sessions, proposal_id) {
                    None => None,
                    Some(j) => {
                        proof {
                            assert(sessions_view(sessions@)[j as int] == sessions@[j as int]@);
                            lemma_position(sessions_view(sessions@), j as int);
                        }
                        Some(sessions[j].duplicate())
                    },
                }
            },
        }
    }

    /// Stores a session in its scope, replacing one with the same proposal id.
    pub fn save_session(&mut self, scope: &String, session: ConsensusSession)
        requires
            old(self).inv(),
            session@.wf(),
        ensures
            final(self).inv(),
            final(self).session_map() == old(self).session_map().insert(
                scope@,
                upsert(list_of(old(self).session_map(), scope@), session@),
            ),
            final(self).config_map() == old(self).config_map(),
    {
        let i = self.scope_entry(scope);
        let mut list = self.take_list(i);
        let ghost lv = sessions_view(list@);
        let ghost x = session@;
        match find_session(&list, session.proposal.proposal_id) {
            Some(j) => {
                proof {
                    assert(lv[j as int] == list@[j as int]@);
                    lemma_position(lv, j as int);
                }
                list.remove(j);
                list.insert(j, session);
                proof {
                    let nv = sessions_view(list@);
                    assert(nv =~= lv.update(j as int, x));
                    assert forall|a: int, b: int| 0 <= a < b < nv.len() implies (#[trigger] nv[a]).proposal.proposal_id
                        != (#[trigger] nv[b]).proposal.proposal_id by {
                        if a != j && b != j {
                            assert(nv[a] == lv[a] && nv[b] == lv[b]);
                        } else if a == j {
                            assert(nv[b] == lv[b]);
                            assert(lv[a].proposal.proposal_id != lv[b].proposal.proposal_id);
                        } else {
                            assert(nv[a] == lv[a]);
                            assert(lv[a].proposal.proposal_id != lv[b].proposal.proposal_id);
                        }
                    }
                }
            },
            None => {
                list.push(session);
                proof {
                    let nv = sessions_view(list@);
                    assert(nv =~= lv.push(x));
                    assert forall|a: int, b: int| 0 <= a < b < nv.len() implies (#[trigger] nv[a]).proposal.proposal_id
                        != (#[trigger] nv[b]).proposal.proposal_id by {
                        if b < lv.len() {
                            assert(nv[a] == lv[a] && nv[b] == lv[b]);
                        } else {
                            assert(nv[a] == lv[a]);
                            if lv[a].proposal.proposal_id == x.proposal.proposal_id {
                                assert(position_of(lv, x.proposal.proposal_id) is Some);
                            }
                        }
                    }
                }
            },
        }
        self.put_list(i, list);
        proof {
            assert(self.session_map() =~= old(self).session_map().insert(scope@, upsert(list_of(old(self).session_map(), scope@), x)));
        }
    }
}

impl InMemoryConsensusStorage {
    /// Where the session with id `proposal_id` of `scope` is kept: the scope's
    /// entry and the session's index in it.
    fn locate(&self, scope: &String, proposal_id: u32) -> (r: Option<(usize, usize)>)
        requires
            self.inv(),
        ensures
            match r {
                Some((i, j)) => i < self.scopes.len() && self.scopes@[i as int].scope@ == scope@
                    && j < self.scopes@[i as int].sessions.len()
                    && lookup(self.session_map(), scope@, proposal_id) is Some
                    && position_of(self.session_map()[scope@], proposal_id) == Some(j as int)
                    && self.session_map()[scope@] == sessions_view(self.scopes@[i as int].sessions@),
                None => lookup(self.session_map(), scope@, proposal_id) is None,
            },
    {
        match find_scope(&self.scopes, scope) {
            None => {
                assert(!self.session_map().contains_key(scope@));
                None
            },
            Some(i) => {
                proof {
                    self.lemma_scope_at(i as int);
                }
                match find_session(&self.scopes[i].sessions, proposal_id) {
                    None => None,
                    Some(j) => {
                        proof {
                            let lv = sessions_view(self.scopes@[i as int].sessions@);
                            assert(lv[j as int] == self.scopes@[i as int].sessions@[j as int]@);
                            lemma_position(lv, j as int);
                        }
                        Some((i, j))
                    },
                }
            },
        }
    }

    /// Adds a vote to the session with id `proposal_id` of `scope`, as one step.
    pub fn add_vote(&mut self, scope: &String, proposal_id: u32, vote: Vote, now: u64) -> (r: Result<
        SessionTransition,
        ConsensusError,
    >)
        requires
            old(self).inv(),
        ensures
            final(self).inv(),
            final(self).config_map() == old(self).config_map(),
            match lookup(old(self).session_map(), scope@, proposal_id) {
                None => r == Err::<SessionTransition, _>(ConsensusError::SessionNotFound)
                    && final(self).session_map() == old(self).session_map(),
                Some(s) => {
                    let (s2, out) = s.add_vote_outcome(vote@, now);
                    r == out && final(self).session_map() == replaced(old(self).session_map(), scope@, proposal_id, s2)
                },
            },
    {
        let (i, j) = match self.locate(scope, proposal_id) {
            None => {
                return Err(ConsensusError::SessionNotFound);
            },
            Some(p) => p,
        };
        proof {
            self.lemma_lists_wf();
        }
        let ghost lv = self.session_map()[scope@];
        let mut list = self.take_list(i);
        let mut session = list.remove(j);
        assert(session@ == lv[j as int]);
        let r = session.add_vote(vote, now);
        list.insert(j, session);
        proof {
            let nv = sessions_view(list@);
            assert(nv =~= lv.update(j as int, session@));
            assert forall|a: int, b: int| 0 <= a < b < nv.len() implies (#[trigger] nv[a]).proposal.proposal_id
                != (#[trigger] nv[b]).proposal.proposal_id by {
                assert(lv[a].proposal.proposal_id != lv[b].proposal.proposal_id);
            }
            assert forall|a: int| 0 <= a < nv.len() implies (#[trigger] nv[a]).wf() by {
                if a != j {
                    assert(nv[a] == lv[a]);
                }
            }
        }
        self.put_list(i, list);
        r
    }

    /// Applies the timeout rule to the session with id `proposal_id` of `scope`, as
    /// one step.
    pub fn handle_timeout(&mut self, scope: &String, proposal_id: u32) -> (r: Result<bool, ConsensusError>)
        requires
            old(self).inv(),
        ensures
            final(self).inv(),
            final(self).config_map() == old(self).config_map(),
            match lookup(old(self).session_map(), scope@, proposal_id) {
                None => r == Err::<bool, _>(ConsensusError::SessionNotFound) && final(self).session_map()
                    == old(self).session_map(),
                Some(s) => {
                    let (s2, out) = s.timeout_outcome();
                    r == out && final(self).session_map() == replaced(old(self).session_map(), scope@, proposal_id, s2)
                },
            },
    {
        let (i, j) = match self.locate(scope, proposal_id) {
            None => {
                return Err(ConsensusError::SessionNotFound);
            },
            Some(p) => p,
        };
        proof {
            self.lemma_lists_wf();
        }
        let ghost lv = self.session_map()[scope@];
        let mut list = self.take_list(i);
        let mut session = list.remove(j);
        assert(session@ == lv[j as int]);
        let r = session.handle_timeout();
        list.insert(j, session);
        proof {
            let nv = sessions_view(list@);
            assert(nv =~= lv.update(j as int, session@));
            assert forall|a: int, b: int| 0 <= a < b < nv.len() implies (#[trigger] nv[a]).proposal.proposal_id
                != (#[trigger] nv[b]).proposal.proposal_id by {
                assert(lv[a].proposal.proposal_id != lv[b].proposal.proposal_id);
            }
            assert forall|a: int| 0 <= a < nv.len() implies (#[trigger] nv[a]).wf() by {
                if a != j {
                    assert(nv[a] == lv[a]);
                }
            }
        }
        self.put_list(i, list);
        r
    }

    /// Copies of the sessions of `scope`, or `None` for an unknown scope.
    pub fn list_scope_sessions(&self, scope: &String) -> (r: Option<Vec<ConsensusSession>>)
        requires
            self.inv(),
        ensures
            match r {
                Some(v) => self.session_map().contains_key(scope@) && sessions_view(v@) == self.session_map()[scope@],
                None => !self.session_map().contains_key(scope@),
            },
    {
        match find_scope(&self.scopes, scope) {
            None => None,
            Some(i) => {
                proof {
                    self.lemma_scope_at(i as int);
                }
                let src = &self.scopes[i].sessions;
                let mut out: Vec<ConsensusSession> = Vec::new();
                let mut k: usize = 0;
                while k < src.len()
                    invariant
                        k <= src.len(),
                        out@.len() == k,
                        forall|a: int| 0 <= a < k ==> (#[trigger] out@[a])@ == src@[a]@,
                    decreases src.len() - k,
                {
                    out.push(src[k].duplicate());
                    k = k + 1;
                }
                assert(sessions_view(out@) =~= sessions_view(src@));
                Some(out)
            },
        }
    }

    /// The configuration of `scope`, if one was set.
    pub fn get_scope_config(&self, scope: &String) -> (r: Option<ScopeConfig>)
        requires
            self.inv(),
        ensures
            match r {
                Some(c) => self.config_map().contains_key(scope@) && self.config_map()[scope@] == c,
                None => !self.config_map().contains_key(scope@),
            },
    {
        match find_config(&self.configs, scope) {
            None => None,
            Some(i) => {
                proof {
                    self.lemma_config_at(i as int);
                }
                Some(self.configs[i].config)
            },
        }
    }

    /// Sets the configuration of `scope`.
    pub fn set_scope_config(&mut self, scope: &String, config: ScopeConfig)
        requires
            old(self).inv(),
        ensures
            final(self).inv(),
            final(self).config_map() == old(self).config_map().insert(scope@, config),
            final(self).session_map() == old(self).session_map(),
    {
        let ghost old_self = *self;
        match find_config(&self.configs, scope) {
            Some(i) => {
                let entry = self.configs.remove(i);
                let ConfigEntry { scope: name, config: _ } = entry;
                self.configs.insert(i, ConfigEntry { scope: name, config });
                proof {
                    assert forall|a: int| 0 <= a < self.configs.len() implies #[trigger] self.configs@[a].scope@
                        == old_self.configs@[a].scope@ by {
                        if a < i {
                        } else if a > i {
                        }
                    }
                    assert(config_names_distinct(self.configs@));
                    assert(self.scopes == old_self.scopes);
                    let target = old_self.config_map().insert(scope@, config);
                    assert forall|kk: Seq<char>| #[trigger] self.config_map().contains_key(kk) <==> target.contains_key(kk) by {
                        if self.config_map().contains_key(kk) {
                            let a = choose|a: int| 0 <= a < self.configs.len() && (#[trigger] self.configs@[a]).scope@ == kk;
                            assert(old_self.configs@[a].scope@ == kk);
                        }
                        if old_self.config_map().contains_key(kk) {
                            let a = choose|a: int| 0 <= a < old_self.configs.len() && (#[trigger] old_self.configs@[a]).scope@ == kk;
                            assert(self.configs@[a].scope@ == kk);
                        }
                        if kk == scope@ {
                            assert(self.configs@[i as int].scope@ == kk);
                        }
                    }
                    assert forall|kk: Seq<char>| #[trigger] self.config_map().contains_key(kk) implies self.config_map()[kk]
                        == target[kk] by {
                        let a = choose|a: int| 0 <= a < self.configs.len() && (#[trigger] self.configs@[a]).scope@ == kk;
                        self.lemma_config_at(a);
                        if a != i {
                            assert(self.configs@[a] == old_self.configs@[a]);
                            old_self.lemma_config_at(a);
                        }
                    }
                    assert(self.config_map() =~= target);
                    assert(self.session_map() =~= old_self.session_map());
                }
            },
            None => {
                self.configs.push(ConfigEntry { scope: scope.clone(), config });
                proof {
                    let i = self.configs.len() - 1;
                    assert forall|a: int, b: int| 0 <= a < b < self.configs.len() implies (#[trigger] self.configs@[a]).scope@
                        != (#[trigger] self.configs@[b]).scope@ by {
                        assert(self.configs@[a] == old_self.configs@[a]);
                        if b < i {
                            assert(self.configs@[b] == old_self.configs@[b]);
                        }
                    }
                    assert(self.scopes == old_self.scopes);
                    let target = old_self.config_map().insert(scope@, config);
                    assert forall|kk: Seq<char>| #[trigger] self.config_map().contains_key(kk) <==> target.contains_key(kk) by {
                        if self.config_map().contains_key(kk) {
                            let a = choose|a: int| 0 <= a < self.configs.len() && (#[trigger] self.configs@[a]).scope@ == kk;
                            if a < i {
                                assert(old_self.configs@[a].scope@ == kk);
                            }
                        }
                        if old_self.config_map().contains_key(kk) {
                            let a = choose|a: int| 0 <= a < old_self.configs.len() && (#[trigger] old_self.configs@[a]).scope@ == kk;
                            assert(self.configs@[a].scope@ == kk);
                        }
                        if kk == scope@ {
                            assert(self.configs@[i as int].scope@ == kk);
                        }
                    }
                    assert forall|kk: Seq<char>| #[trigger] self.config_map().contains_key(kk) implies self.config_map()[kk]
                        == target[kk] by {
                        let a = choose|a: int| 0 <= a < self.configs.len() && (#[trigger] self.configs@[a]).scope@ == kk;
                        self.lemma_config_at(a);
                        if a < i {
                            assert(self.configs@[a] == old_self.configs@[a]);
                            old_self.lemma_config_at(a);
                        }
                    }
                    assert(self.config_map() =~= target);
                    assert(self.session_map() =~= old_self.session_map());
                }
            },
        }
    }
}

/// `after` is what trimming `before` to `max` sessions keeps: the list itself when
/// it is within the bound, else `max` of its newest sessions.
pub open spec fn trimmed(before: Seq<SessionView>, after: Seq<SessionView>, max: nat) -> bool {
    &&& before.len() <= max ==> after == before
    &&& after.len() == if before.len() > max { max as int } else { before.len() as int }
    &&& forall|k: int| 0 <= k < after.len() ==> before.contains(#[trigger] after[k])
    &&& forall|k: int| 0 <= k < before.len() ==> kept_or_older(after, #[trigger] before[k])
}

/// `x` was kept, or is no newer than every session kept.
pub open spec fn kept_or_older(kept: Seq<SessionView>, x: SessionView) -> bool {
    kept.contains(x) || forall|k: int| 0 <= k < kept.len() ==> x.created_at <= (#[trigger] kept[k]).created_at
}

/// The index of a session with the smallest `created_at`.
fn oldest_index(list: &Vec<ConsensusSession>) -> (r: usize)
    requires
        list.len() > 0,
    ensures
        r < list.len(),
        forall|k: int| 0 <= k < list.len() ==> list@[r as int].created_at <= (#[trigger] list@[k]).created_at,
{
    let mut best: usize = 0;
    let mut k: usize = 1;
    while k < list.len()
        invariant
            1 <= k <= list.len(),
            best < k,
            forall|a: int| 0 <= a < k ==> list@[best as int].created_at <= (#[trigger] list@[a]).created_at,
        decreases list.len() - k,
    {
        if list[k].created_at < list[best].created_at {
            best = k;
        }
        k = k + 1;
    }
    best
}

impl InMemoryConsensusStorage {
    /// Keeps at most `max_sessions` sessions in `scope`, dropping the oldest (by
    /// `created_at`) first.
    pub fn trim_scope_sessions(&mut self, scope: &String, max_sessions: usize)
        requires
            old(self).inv(),
        ensures
            final(self).inv(),
            final(self).config_map() == old(self).config_map(),
            final(self).session_map().dom() == old(self).session_map().dom(),
            forall|k: Seq<char>| k != scope@ ==> #[trigger] list_of(final(self).session_map(), k) == list_of(old(self).session_map(), k),
            trimmed(
                list_of(old(self).session_map(), scope@),
                list_of(final(self).session_map(), scope@),
                max_sessions as nat,
            ),
    {
        let i = match find_scope(&self.scopes, scope) {
            None => {
                assert(list_of(self.session_map(), scope@) =~= Seq::<SessionView>::empty());
                return;
            },
            Some(i) => i,
        };
        proof {
            self.lemma_scope_at(i as int);
            self.lemma_lists_wf();
        }
        let ghost before = self.session_map()[scope@];
        let mut list = self.take_list(i);
        while list.len() > max_sessions
            invariant
                scope_list_wf(sessions_view(list@)),
                before.len() <= max_sessions ==> sessions_view(list@) == before,
                sessions_view(list@).len() >= if before.len() > max_sessions { max_sessions as int } else { before.len() as int },
                sessions_view(list@).len() <= before.len(),
                forall|k: int| 0 <= k < list.len() ==> before.contains(#[trigger] sessions_view(list@)[k]),
                forall|k: int| 0 <= k < before.len() ==> kept_or_older(sessions_view(list@), #[trigger] before[k]),
            decreases list.len(),
        {
            let ghost lv = sessions_view(list@);
            let o = oldest_index(&list);
            list.remove(o);
            proof {
                let nv = sessions_view(list@);
                assert(nv =~= lv.remove(o as int));
                assert forall|a: int, b: int| 0 <= a < b < nv.len() implies (#[trigger] nv[a]).proposal.proposal_id
                    != (#[trigger] nv[b]).proposal.proposal_id by {
                    let a2 = if a < o { a } else { a + 1 };
                    let b2 = if b < o { b } else { b + 1 };
                    assert(nv[a] == lv[a2] && nv[b] == lv[b2]);
                }
                assert forall|a: int| 0 <= a < nv.len() implies (#[trigger] nv[a]).wf() by {
                    let a2 = if a < o { a } else { a + 1 };
                    assert(nv[a] == lv[a2]);
                }
                assert forall|a: int| 0 <= a < nv.len() implies before.contains(#[trigger] nv[a]) by {
                    let a2 = if a < o { a } else { a + 1 };
                    assert(nv[a] == lv[a2]);
                }
                assert forall|k: int| 0 <= k < before.len() implies kept_or_older(nv, #[trigger] before[k]) by {
                    let x = before[k];
                    if lv.contains(x) {
                        let p = choose|p: int| 0 <= p < lv.len() && lv[p] == x;
                        if p == o {
                            assert forall|q: int| 0 <= q < nv.len() implies x.created_at <= (#[trigger] nv[q]).created_at by {
                                let q2 = if q < o { q } else { q + 1 };
                                assert(nv[q] == lv[q2]);
                                assert(lv[q2] == list@[q]@);
                            }
                        } else {
                            let p2 = if p < o { p } else { p - 1 };
                            assert(nv[p2] == x);
                        }
                    } else {
                        assert forall|q: int| 0 <= q < nv.len() implies x.created_at <= (#[trigger] nv[q]).created_at by {
                            let q2 = if q < o { q } else { q + 1 };
                            assert(nv[q] == lv[q2]);
                        }
                    }
                }
            }
        }
        self.put_list(i, list);
        proof {
            assert(self.session_map().dom() =~= old(self).session_map().dom());
        }
    }
}

impl InMemoryConsensusStorage {
    /// Removes the session with id `proposal_id` from `scope`, handing it back.
    pub fn remove_session(&mut self, scope: &String, proposal_id: u32) -> (r: Option<ConsensusSession>)
        requires
            old(self).inv(),
        ensures
            final(self).inv(),
            final(self).config_map() == old(self).config_map(),
            match lookup(old(self).session_map(), scope@, proposal_id) {
                None => r is None && final(self).session_map() == old(self).session_map(),
                Some(s) => r matches Some(x) && x@ == s && final(self).session_map() == old(self).session_map().insert(
                    scope@,
                    old(self).session_map()[scope@].remove(position_of(old(self).session_map()[scope@], proposal_id)->Some_0),
                ),
            },
    {
        let (i, j) = match self.locate(scope, proposal_id) {
            None => {
                return None;
            },
            Some(p) => p,
        };
        proof {
            self.lemma_lists_wf();
        }
        let ghost lv = self.session_map()[scope@];
        let mut list = self.take_list(i);
        let removed = list.remove(j);
        proof {
            let nv = sessions_view(list@);
            assert(nv =~= lv.remove(j as int));
            assert forall|a: int, b: int| 0 <= a < b < nv.len() implies (#[trigger] nv[a]).proposal.proposal_id
                != (#[trigger] nv[b]).proposal.proposal_id by {
                let a2 = if a < j { a } else { a + 1 };
                let b2 = if b < j { b } else { b + 1 };
                assert(nv[a] == lv[a2] && nv[b] == lv[b2]);
            }
            assert forall|a: int| 0 <= a < nv.len() implies (#[trigger] nv[a]).wf() by {
                let a2 = if a < j { a } else { a + 1 };
                assert(nv[a] == lv[a2]);
            }
        }
        self.put_list(i, list);
        Some(removed)
    }

    /// Replaces the sessions of `scope` with `sessions`.
    pub fn replace_scope_sessions(&mut self, scope: &String, sessions: Vec<ConsensusSession>)
        requires
            old(self).inv(),
            scope_list_wf(sessions_view(sessions@)),
        ensures
            final(self).inv(),
            final(self).config_map() == old(self).config_map(),
            final(self).session_map() == old(self).session_map().insert(scope@, sessions_view(sessions@)),
    {
        let i = self.scope_entry(scope);
        self.put_list(i, sessions);
        proof {
            assert(self.session_map() =~= old(self).session_map().insert(scope@, sessions_view(sessions@)));
        }
    }

    /// The names of the known scopes, or `None` when there are none.
    pub fn list_scopes(&self) -> (r: Option<Vec<String>>)
        requires
            self.inv(),
        ensures
            match r {
                Some(v) => v@.len() > 0 && v@.map_values(|s: String| s@).to_set() == self.session_map().dom(),
                None => self.session_map().dom() == Set::<Seq<char>>::empty(),
            },
    {
        let mut out: Vec<String> = Vec::new();
        let mut i: usize = 0;
        while i < self.scopes.len()
            invariant
                i <= self.scopes.len(),
                out@.len() == i,
                forall|a: int| 0 <= a < i ==> (#[trigger] out@[a])@ == self.scopes@[a].scope@,
            decreases self.scopes.len() - i,
        {
            out.push(self.scopes[i].scope.clone());
            i = i + 1;
        }
        let ghost names = out@.map_values(|s: String| s@);
        assert forall|k: Seq<char>| names.to_set().contains(k) <==> self.session_map().dom().contains(k) by {
            if names.to_set().contains(k) {
                let a = choose|a: int| 0 <= a < names.len() && names[a] == k;
                assert(self.scopes@[a].scope@ == k);
            }
            if self.session_map().dom().contains(k) {
                let a = choose|a: int| 0 <= a < self.scopes.len() && (#[trigger] self.scopes@[a]).scope@ == k;
                assert(names[a] == k);
            }
        }
        assert(names.to_set() =~= self.session_map().dom());
        if out.len() == 0 {
            assert(self.session_map().dom() =~= Set::<Seq<char>>::empty());
            return None;
        }
        Some(out)
    }
}

/// A registry of consensus sessions, by scope and proposal id, and of scope
/// configurations. Each operation is one indivisible step on the registry;
/// an implementation keeps the same model as [`InMemoryConsensusStorage`].
pub trait ConsensusStorage: Sized {
    /// The sessions of each known scope, in storage order.
    spec fn sessions(&self) -> Map<Seq<char>, Seq<SessionView>>;

    /// The configuration of each configured scope.
    spec fn configs(&self) -> Map<Seq<char>, ScopeConfig>;

    /// The registry's invariant.
    spec fn wf(&self) -> bool;

    /// Every stored list is well formed.
    proof fn lemma_lists_wf(&self)
        requires
            self.wf(),
        ensures
            forall|k: Seq<char>| #[trigger] self.sessions().contains_key(k) ==> scope_list_wf(self.sessions()[k]),
    ;

    /// A copy of the session with id `proposal_id` in `scope`, if any.
    fn get_session(&self, scope: &String, proposal_id: u32) -> (r: Option<ConsensusSession>)
        requires
            self.wf(),
        ensures
            match r {
                Some(s) => lookup(self.sessions(), scope@, proposal_id) == Some(s@),
                None => lookup(self.sessions(), scope@, proposal_id) is None,
            },
    ;

    /// Stores a session in its scope, replacing one with the same proposal id.
    fn save_session(&mut self, scope: &String, session: ConsensusSession)
        requires
            old(self).wf(),
            session@.wf(),
        ensures
            final(self).wf(),
            final(self).sessions() == old(self).sessions().insert(
                scope@,
                upsert(list_of(old(self).sessions(), scope@), session@),
            ),
            final(self).configs() == old(self).configs(),
    ;

    /// Adds a vote to the session with id `proposal_id` of `scope`, as one step.
    fn add_vote(&mut self, scope: &String, proposal_id: u32, vote: Vote, now: u64) -> (r: Result<
        SessionTransition,
        ConsensusError,
    >)
        requires
            old(self).wf(),
        ensures
            final(self).wf(),
            final(self).configs() == old(self).configs(),
            match lookup(old(self).sessions(), scope@, proposal_id) {
                None => r == Err::<SessionTransition, _>(ConsensusError::SessionNotFound)
                    && final(self).sessions() == old(self).sessions(),
                Some(s) => {
                    let (s2, out) = s.add_vote_outcome(vote@, now);
                    r == out && final(self).sessions() == replaced(old(self).sessions(), scope@, proposal_id, s2)
                },
            },
    ;

    /// Applies the timeout rule to the session with id `proposal_id` of `scope`, as
    /// one step.
    fn handle_timeout(&mut self, scope: &String, proposal_id: u32) -> (r: Result<bool, ConsensusError>)
        requires
            old(self).wf(),
        ensures
            final(self).wf(),
            final(self).configs() == old(self).configs(),
            match lookup(old(self).sessions(), scope@, proposal_id) {
                None => r == Err::<bool, _>(ConsensusError::SessionNotFound) && final(self).sessions()
                    == old(self).sessions(),
                Some(s) => {
                    let (s2, out) = s.timeout_outcome();
                    r == out && final(self).sessions() == replaced(old(self).sessions(), scope@, proposal_id, s2)
                },
            },
    ;

    /// Copies of the sessions of `scope`, or `None` for an unknown scope.
    fn list_scope_sessions(&self, scope: &String) -> (r: Option<Vec<ConsensusSession>>)
        requires
            self.wf(),
        ensures
            match r {
                Some(v) => self.sessions().contains_key(scope@) && sessions_view(v@) == self.sessions()[scope@],
                None => !self.sessions().contains_key(scope@),
            },
    ;

    /// The configuration of `scope`, if one was set.
    fn get_scope_config(&self, scope: &String) -> (r: Option<ScopeConfig>)
        requires
            self.wf(),
        ensures
            match r {
                Some(c) => self.configs().contains_key(scope@) && self.configs()[scope@] == c,
                None => !self.configs().contains_key(scope@),
            },
    ;

    /// Sets the configuration of `scope`.
    fn set_scope_config(&mut self, scope: &String, config: ScopeConfig)
        requires
            old(self).wf(),
        ensures
            final(self).wf(),
            final(self).configs() == old(self).configs().insert(scope@, config),
            final(self).sessions() == old(self).sessions(),
    ;

    /// Keeps at most `max_sessions` sessions in `scope`, dropping the oldest (by
    /// `created_at`) first.
    fn trim_scope_sessions(&mut self, scope: &String, max_sessions: usize)
        requires
            old(self).wf(),
        ensures
            final(self).wf(),
            final(self).configs() == old(self).configs(),
            final(self).sessions().dom() == old(self).sessions().dom(),
            forall|k: Seq<char>| k != scope@ ==> #[trigger] list_of(final(self).sessions(), k) == list_of(old(self).sessions(), k),
            trimmed(
                list_of(old(self).sessions(), scope@),
                list_of(final(self).sessions(), scope@),
                max_sessions as nat,
            ),
    ;

    /// Removes the session with id `proposal_id` from `scope`, handing it back.
    fn remove_session(&mut self, scope: &String, proposal_id: u32) -> (r: Option<ConsensusSession>)
        requires
            old(self).wf(),
        ensures
            final(self).wf(),
            final(self).configs() == old(self).configs(),
            match lookup(old(self).sessions(), scope@, proposal_id) {
                None => r is None && final(self).sessions() == old(self).sessions(),
                Some(s) => r matches Some(x) && x@ == s && final(self).sessions() == old(self).sessions().insert(
                    scope@,
                    old(self).sessions()[scope@].remove(position_of(old(self).sessions()[scope@], proposal_id)->Some_0),
                ),
            },
    ;

    /// Replaces the sessions of `scope` with `sessions`.
    fn replace_scope_sessions(&mut self, scope: &String, sessions: Vec<ConsensusSession>)
        requires
            old(self).wf(),
            scope_list_wf(sessions_view(sessions@)),
        ensures
            final(self).wf(),
            final(self).configs() == old(self).configs(),
            final(self).sessions() == old(self).sessions().insert(scope@, sessions_view(sessions@)),
    ;

    /// The names of the known scopes, or `None` when there are none.
    fn list_scopes(&self) -> (r: Option<Vec<String>>)
        requires
            self.wf(),
        ensures
            match r {
                Some(v) => v@.len() > 0 && v@.map_values(|s: String| s@).to_set() == self.sessions().dom(),
                None => self.sessions().dom() == Set::<Seq<char>>::empty(),
            },;
}

impl ConsensusStorage for InMemoryConsensusStorage {
    open spec fn sessions(&self) -> Map<Seq<char>, Seq<SessionView>> {
        self.session_map()
    }

    open spec fn configs(&self) -> Map<Seq<char>, ScopeConfig> {
        self.config_map()
    }

    open spec fn wf(&self) -> bool {
        self.inv()
    }

    proof fn lemma_lists_wf(&self) {
        InMemoryConsensusStorage::lemma_lists_wf(*self);
    }

    fn get_session(&self, scope: &String, proposal_id: u32) -> (r: Option<ConsensusSession>) {
        InMemoryConsensusStorage::get_session(self, scope, proposal_id)
    }

    fn save_session(&mut self, scope: &String, session: ConsensusSession) {
        InMemoryConsensusStorage::save_session(self, scope, session)
    }

    fn add_vote(&mut self, scope: &String, proposal_id: u32, vote: Vote, now: u64) -> (r: Result<
        SessionTransition,
        ConsensusError,
    >) {
        InMemoryConsensusStorage::add_vote(self, scope, proposal_id, vote, now)
    }

    fn handle_timeout(&mut self, scope: &String, proposal_id: u32) -> (r: Result<bool, ConsensusError>) {
        InMemoryConsensusStorage::handle_timeout(self, scope, proposal_id)
    }

    fn list_scope_sessions(&self, scope: &String) -> (r: Option<Vec<ConsensusSession>>) {
        InMemoryConsensusStorage::list_scope_sessions(self, scope)
    }

    fn get_scope_config(&self, scope: &String) -> (r: Option<ScopeConfig>) {
        InMemoryConsensusStorage::get_scope_config(self, scope)
    }

    fn set_scope_config(&mut self, scope: &String, config: ScopeConfig) {
        InMemoryConsensusStorage::set_scope_config(self, scope, config)
    }

    fn trim_scope_sessions(&mut self, scope: &String, max_sessions: usize) {
        InMemoryConsensusStorage::trim_scope_sessions(self, scope, max_sessions)
    }

    fn remove_session(&mut self, scope: &String, proposal_id: u32) -> (r: Option<ConsensusSession>) {
        InMemoryConsensusStorage::remove_session(self, scope, proposal_id)
    }

    fn replace_scope_sessions(&mut self, scope: &String, sessions: Vec<ConsensusSession>) {
        InMemoryConsensusStorage::replace_scope_sessions(self, scope, sessions)
    }

    fn list_scopes(&self) -> (r: Option<Vec<String>>) {
        InMemoryConsensusStorage::list_scopes(self)
    }
}

} // verus!
