use vstd::prelude::*;
use crate::error::Circle9Error;
use crate::types::{connection_id_of, lemma_remove_keeps_no_dup, string_views, ConnectionId};

verus! {

/// Seconds between two keepalive checks of a session.
pub const KEEPALIVE_INTERVAL_SECS: u64 = 60;

/// Seconds without activity after which a session is stale and evicted.
pub const STALE_AFTER_SECS: u64 = 300;

/// How to reach and authenticate to a remote host.
#[derive(Debug, Clone)]
pub struct SSHConfig {
    pub host: String,
    pub port: u16,
    pub username: String,
    pub key_path: Option<String>,
    pub password: Option<String>,
}

impl SSHConfig {
    /// The identity of the session this configuration opens.
    pub open spec fn identity(&self) -> Seq<char> {
        connection_id_of(self.username@, self.host@, self.port as nat)
    }
}

/// The credential a new session authenticates with.
#[derive(Debug, Clone)]
pub enum AuthMethod {
    /// A private key file at this path.
    Key(String),
    /// A password.
    Password(String),
}

/// What a connect request needs done.
#[derive(Debug, Clone)]
pub enum ConnectPlan {
    /// A live session has this identity already: use it, open nothing.
    Existing(ConnectionId),
    /// Open a transport, handshake, authenticate this way and open the
    /// file channel, then register the session with `finish_connect`.
    Open(ConnectionId, AuthMethod),
}

/// The content of a connect request's answer.
pub enum PlanView {
    Existing(Seq<char>),
    OpenWithKey(Seq<char>, Seq<char>),
    OpenWithPassword(Seq<char>, Seq<char>),
    NoCredential,
}

/// The answer to a connect request for `config` while the sessions `ids` are
/// live: reuse a live session of the same identity; otherwise authenticate
/// with the key if one is given, else with the password, and with neither
/// there is nothing to authenticate with.
pub open spec fn plan_for(ids: Seq<Seq<char>>, config: SSHConfig) -> PlanView {
    let id = config.identity();
    if ids.contains(id) {
        PlanView::Existing(id)
    } else {
        match config.key_path {
            Some(k) => PlanView::OpenWithKey(id, k@),
            None => match config.password {
                Some(p) => PlanView::OpenWithPassword(id, p@),
                None => PlanView::NoCredential,
            },
        }
    }
}

/// The content of the result of `SSHClient::connect`.
pub open spec fn plan_view(r: Result<ConnectPlan, Circle9Error>) -> Option<PlanView> {
    match r {
        Ok(ConnectPlan::Existing(id)) => Some(PlanView::Existing(id@)),
        Ok(ConnectPlan::Open(id, AuthMethod::Key(k))) => Some(PlanView::OpenWithKey(id@, k@)),
        Ok(ConnectPlan::Open(id, AuthMethod::Password(p))) => Some(
            PlanView::OpenWithPassword(id@, p@),
        ),
        Err(Circle9Error::AuthenticationError(_)) => Some(PlanView::NoCredential),
        Err(_) => None,
    }
}

/// The live identities after registering `id` on top of `ids`: unchanged if
/// it is live already, else one more.
pub open spec fn registered(ids: Seq<Seq<char>>, id: Seq<char>) -> Seq<Seq<char>> {
    if ids.contains(id) {
        ids
    } else {
        ids.push(id)
    }
}

/// One live session: the handle the caller uses, the configuration it was
/// opened with and its last activity in seconds.
pub struct SSHConnection<S> {
    pub session: S,
    pub config: SSHConfig,
    pub last_activity: u64,
}

/// What a keepalive timer does after a check.
#[derive(Debug, Clone, Copy, PartialEq, Eq, Structural)]
pub enum KeepaliveAction {
    /// The session is live: check again after the interval.
    Continue,
    /// The session is gone or was evicted: stop the timer.
    Stop,
}

struct SessionEntry<S> {
    id: String,
    connection: SSHConnection<S>,
}

/// The registry of live sessions, at most one per identity.
pub struct SSHClient<S> {
    connections: Vec<SessionEntry<S>>,
    keepalive_interval_secs: u64,
    stale_after_secs: u64,
}

impl<S> SSHClient<S> {
    /// The live sessions, in order of registration.
    pub closed spec fn connections(&self) -> Seq<SSHConnection<S>> {
        self.connections@.map_values(|e: SessionEntry<S>| e.connection)
    }

    /// The identities of the live sessions, in order of registration.
    pub closed spec fn ids(&self) -> Seq<Seq<char>> {
        self.connections@.map_values(|e: SessionEntry<S>| e.id@)
    }

    pub closed spec fn stale_after(&self) -> nat {
        self.stale_after_secs as nat
    }

    pub closed spec fn wf(&self) -> bool {
        &&& self.ids().no_duplicates()
        &&& forall|i: int|
            0 <= i < self.connections@.len() ==> (#[trigger] self.connections@[i]).id@
                == self.connections@[i].connection.config.identity()
    }

    /// An empty registry with a 60 s keepalive interval that evicts sessions
    /// idle for more than 300 s.
    pub fn new() -> (r: SSHClient<S>)
        ensures
            r.wf(),
            r.ids().len() == 0,
            r.stale_after() == STALE_AFTER_SECS,
    {
        let r = SSHClient {
            connections: Vec::new(),
            keepalive_interval_secs: KEEPALIVE_INTERVAL_SECS,
            stale_after_secs: STALE_AFTER_SECS,
        };
        assert(r.ids() =~= Seq::<Seq<char>>::empty());
        r
    }

    /// Seconds between two keepalive checks.
    pub closed spec fn keepalive_interval(&self) -> nat {
        self.keepalive_interval_secs as nat
    }

    /// Seconds between two keepalive checks.
    pub fn keepalive_interval_secs(&self) -> (r: u64)
        ensures
            r == self.keepalive_interval(),
    {
        self.keepalive_interval_secs
    }

    /// The position of the session `id`, if it is live.
    fn find(&self, id: &String) -> (r: Option<usize>)
        ensures
            match r {
                Some(i) => i < self.connections@.len() && self.ids()[i as int] == id@,
                None => !self.ids().contains(id@),
            },
    {
        let mut i: usize = 0;
        while i < self.connections.len()
            invariant
                i <= self.connections@.len(),
                forall|j: int| 0 <= j < i ==> self.ids()[j] != id@,
            decreases self.connections@.len() - i,
        {
            if self.connections[i].id == *id {
                return Some(i);
            }
            i = i + 1;
        }
        None
    }

    /// Decides what a connect request for `config` needs: a live session of
    /// the same identity is reused as it is, so a second request opens no
    /// second transport; otherwise the session is to be opened and
    /// authenticated with the key if one is given, else with the password.
    /// With neither, this fails with `AuthenticationError`.
    pub fn connect(&self, config: &SSHConfig) -> (r: Result<ConnectPlan, Circle9Error>)
        requires
            self.wf(),
        ensures
            plan_view(r) == Some(plan_for(self.ids(), *config)),
    {
        let id = ConnectionId::new(config.username.as_str(), config.host.as_str(), config.port);
        let key = String::from_str(id.as_str());
        if let Some(_) = self.find(&key) {
            return Ok(ConnectPlan::Existing(id));
        }
        match &config.key_path {
            Some(k) => Ok(ConnectPlan::Open(id, AuthMethod::Key(k.clone()))),
            None => match &config.password {
                Some(p) => Ok(ConnectPlan::Open(id, AuthMethod::Password(p.clone()))),
                None => Err(
                    Circle9Error::AuthenticationError(
                        String::from_str("No authentication method provided"),
                    ),
                ),
            },
        }
    }

    /// Registers a session opened and authenticated for `config`, active at
    /// `now`, and returns its identity and whether it was added.
    ///
    /// The check and the insertion are one step: if a session of the same
    /// identity is live already (another request won the race), the registry
    /// is left as it is and the new session is dropped.
    pub fn finish_connect(&mut self, config: SSHConfig, session: S, now: u64) -> (r: (
        ConnectionId,
        bool,
    ))
        requires
            old(self).wf(),
        ensures
            final(self).wf(),
            r.0@ == config.identity(),
            r.1 <==> !old(self).ids().contains(config.identity()),
            final(self).ids() == registered(old(self).ids(), config.identity()),
            final(self).keepalive_interval() == old(self).keepalive_interval(),
            final(self).stale_after() == old(self).stale_after(),
            !r.1 ==> *final(self) == *old(self),
            r.1 ==> final(self).connections() == old(self).connections().push(
                SSHConnection { session, config, last_activity: now },
            ),
    {
        let id = ConnectionId::new(config.username.as_str(), config.host.as_str(), config.port);
        let key = String::from_str(id.as_str());
        if let Some(_) = self.find(&key) {
            return (id, false);
        }
        let ghost old_ids = self.ids();
        let ghost old_conns = self.connections();
        let ghost c = SSHConnection { session, config, last_activity: now };
        self.connections.push(
            SessionEntry { id: key, connection: SSHConnection { session, config, last_activity: now } },
        );
        proof {
            assert(self.ids() =~= old_ids.push(id@));
            assert(self.connections() =~= old_conns.push(c));
            let ids = self.ids();
            assert forall|a: int, b: int| 0 <= a < ids.len() && 0 <= b < ids.len() && a != b
                implies ids[a] != ids[b] by {
                if a == old_ids.len() {
                    assert(ids[b] == old_ids[b]);
                } else if b == old_ids.len() {
                    assert(ids[a] == old_ids[a]);
                } else {
                    assert(ids[a] == old_ids[a]);
                    assert(ids[b] == old_ids[b]);
                }
            }
        }
        (id, true)
    }

    /// Whether a session of identity `id` is live.
    pub fn is_connected(&self, id: &str) -> (r: bool)
        ensures
            r == self.ids().contains(id@),
    {
        let key = String::from_str(id);
        match self.find(&key) {
            Some(_) => true,
            None => false,
        }
    }

    /// The identities of the live sessions.
    pub fn list_connections(&self) -> (r: Vec<String>)
        ensures
            string_views(r@) == self.ids(),
    {
        let mut r: Vec<String> = Vec::new();
        let mut i: usize = 0;
        while i < self.connections.len()
            invariant
                i <= self.connections@.len(),
                string_views(r@) == self.ids().subrange(0, i as int),
            decreases self.connections@.len() - i,
        {
            let ghost prev = r@;
            let id = self.connections[i].id.clone();
            r.push(id);
            proof {
                let v = string_views(r@);
                let w = self.ids().subrange(0, i as int + 1);
                assert(string_views(prev).len() == prev.len());
                assert(prev.len() == i);
                assert(r@ == prev.push(id));
                assert(self.ids().len() == self.connections@.len());
                assert forall|j: int| 0 <= j < v.len() implies v[j] == w[j] by {
                    if j < i {
                        assert(string_views(prev)[j] == self.ids()[j]);
                        assert(r@[j] == prev[j]);
                    }
                }
                assert(v =~= w);
            }
            i = i + 1;
        }
        assert(self.ids().subrange(0, i as int) =~= self.ids());
        r
    }

    /// The session `id`, marked active at `now`: every use defers its
    /// eviction. `None` if no such session is live.
    pub fn get_connection(&mut self, id: &str, now: u64) -> (r: Option<&S>)
        requires
            old(self).wf(),
        ensures
            final(self).wf(),
            final(self).ids() == old(self).ids(),
            final(self).keepalive_interval() == old(self).keepalive_interval(),
            final(self).stale_after() == old(self).stale_after(),
            r is Some <==> old(self).ids().contains(id@),
            !old(self).ids().contains(id@) ==> *final(self) == *old(self),
            forall|i: int|
                0 <= i < old(self).ids().len() ==> if old(self).ids()[i] == id@ {
                    final(self).connections()[i] == SSHConnection {
                        last_activity: now,
                        ..old(self).connections()[i]
                    } && r == Some(&final(self).connections()[i].session)
                } else {
                    final(self).connections()[i] == old(self).connections()[i]
                },
    {
        let key = String::from_str(id);
        let i = match self.find(&key) {
            Some(i) => i,
            None => return None,
        };
        let ghost old_conns = self.connections@;
        proof {
            assert forall|j: int| 0 <= j < old_conns.len() && self.ids()[j] == id@ implies j
                == i by {
                if j != i {
                    assert(self.ids()[j] != self.ids()[i as int]);
                }
            }
        }
        self.connections[i].connection.last_activity = now;
        proof {
            assert(self.connections@ =~= old_conns.update(
                i as int,
                SessionEntry {
                    id: old_conns[i as int].id,
                    connection: SSHConnection {
                        last_activity: now,
                        ..old_conns[i as int].connection
                    },
                },
            ));
            assert(self.ids() =~= old(self).ids());
        }
        Some(&self.connections[i].connection.session)
    }

    /// Removes the session at `i`, keeping the others in order.
    fn remove_at(&mut self, i: usize)
        requires
            old(self).wf(),
            i < old(self).connections@.len(),
        ensures
            final(self).wf(),
            final(self).ids() == old(self).ids().remove(i as int),
            final(self).connections() == old(self).connections().remove(i as int),
            final(self).keepalive_interval() == old(self).keepalive_interval(),
            final(self).stale_after() == old(self).stale_after(),
    {
        let ghost old_entries = self.connections@;
        let ghost old_ids = self.ids();
        self.connections.remove(i);
        proof {
            assert(self.ids() =~= old_ids.remove(i as int));
            assert(self.connections() =~= old(self).connections().remove(i as int));
            lemma_remove_keeps_no_dup(old_ids, i as int);
            assert forall|j: int| 0 <= j < self.connections@.len() implies (#[trigger] self.connections@[j]).id@
                == self.connections@[j].connection.config.identity() by {
                if j < i {
                    assert(self.connections@[j] == old_entries[j]);
                } else {
                    assert(self.connections@[j] == old_entries[j + 1]);
                }
            }
        }
    }

    /// Ends the session `id`; nothing happens if it is not live. A caller
    /// still using the session's handle sees transport errors from then on.
    pub fn disconnect(&mut self, id: &str)
        requires
            old(self).wf(),
        ensures
            final(self).wf(),
            !final(self).ids().contains(id@),
            final(self).keepalive_interval() == old(self).keepalive_interval(),
            final(self).stale_after() == old(self).stale_after(),
            !old(self).ids().contains(id@) ==> *final(self) == *old(self),
            old(self).ids().contains(id@) ==> exists|k: int|
                0 <= k < old(self).ids().len() && old(self).ids()[k] == id@ && final(self).ids()
                    == old(self).ids().remove(k) && final(self).connections() == old(self).connections().remove(k),
    {
        let key = String::from_str(id);
        let i = match self.find(&key) {
            Some(i) => i,
            None => return,
        };
        let ghost old_ids = self.ids();
        self.remove_at(i);
        proof {
            if self.ids().contains(id@) {
                let m = choose|m: int| 0 <= m < self.ids().len() && self.ids()[m] == id@;
                let om = if m < i { m } else { m + 1 };
                assert(old_ids[om] == id@);
                assert(om != i);
            }
        }
    }

    /// One keepalive check of the session `id` at time `now`, in seconds.
    ///
    /// A session that is no longer live stops its timer. One idle for more
    /// than the staleness limit is evicted and stops its timer. Otherwise the
    /// check counts as activity and the timer goes on.
    pub fn keepalive_tick(&mut self, id: &str, now: u64) -> (r: KeepaliveAction)
        requires
            old(self).wf(),
        ensures
            final(self).wf(),
            final(self).keepalive_interval() == old(self).keepalive_interval(),
            final(self).stale_after() == old(self).stale_after(),
            !old(self).ids().contains(id@) ==> r == KeepaliveAction::Stop && *final(self) == *old(self),
            forall|i: int|
                0 <= i < old(self).ids().len() && old(self).ids()[i] == id@ ==> {
                    let c = old(self).connections()[i];
                    if now > c.last_activity && now - c.last_activity > old(self).stale_after() {
                        &&& r == KeepaliveAction::Stop
                        &&& final(self).ids() == old(self).ids().remove(i)
                        &&& final(self).connections() == old(self).connections().remove(i)
                    } else {
                        &&& r == KeepaliveAction::Continue
                        &&& final(self).ids() == old(self).ids()
                        &&& final(self).connections() == old(self).connections().update(
                            i,
                            SSHConnection { last_activity: now, ..c },
                        )
                    }
                },
    {
        let key = String::from_str(id);
        let i = match self.find(&key) {
            Some(i) => i,
            None => return KeepaliveAction::Stop,
        };
        let ghost old_entries = self.connections@;
        proof {
            assert forall|j: int| 0 <= j < old_entries.len() && self.ids()[j] == id@ implies j
                == i by {
                if j != i {
                    assert(self.ids()[j] != self.ids()[i as int]);
                }
            }
        }
        let last: u64 = self.connections[i].connection.last_activity;
        if now > last && now - last > self.stale_after_secs {
            self.remove_at(i);
            KeepaliveAction::Stop
        } else {
            self.connections[i].connection.last_activity = now;
            proof {
                assert(self.connections@ =~= old_entries.update(
                    i as int,
                    SessionEntry {
                        id: old_entries[i as int].id,
                        connection: SSHConnection {
                            last_activity: now,
                            ..old_entries[i as int].connection
                        },
                    },
                ));
                assert(self.ids() =~= old(self).ids());
                assert(self.connections() =~= old(self).connections().update(
                    i as int,
                    SSHConnection { last_activity: now, ..old(self).connections()[i as int] },
                ));
            }
            KeepaliveAction::Continue
        }
    }
}

/// Connecting is idempotent: once a session for `config` is registered, a
/// second connect request with the same configuration answers with that
/// same identity and asks for nothing to be opened, and registering it again
/// changes nothing.
pub proof fn lemma_connect_idempotent(ids: Seq<Seq<char>>, config: SSHConfig)
    ensures
        plan_for(registered(ids, config.identity()), config) == PlanView::Existing(
            config.identity(),
        ),
        registered(registered(ids, config.identity()), config.identity()) == registered(
            ids,
            config.identity(),
        ),
{
    let id = config.identity();
    if !ids.contains(id) {
        assert(ids.push(id)[ids.len() as int] == id);
    }
}

/// A registry holds at most one session per identity.
pub proof fn lemma_one_session_per_identity<S>(client: &SSHClient<S>)
    requires
        client.wf(),
    ensures
        client.ids().no_duplicates(),
        client.ids().len() == client.connections().len(),
        forall|i: int|
            0 <= i < client.ids().len() ==> #[trigger] client.ids()[i]
                == client.connections()[i].config.identity(),
{
    assert forall|i: int| 0 <= i < client.ids().len() implies #[trigger] client.ids()[i]
        == client.connections()[i].config.identity() by {
        assert(client.connections@[i].id@ == client.connections@[i].connection.config.identity());
    }
}

} // verus!
