//! The server's configuration and session manager: the listening endpoint,
//! its authentication policy and the sessions it has accepted.
use vstd::prelude::*;
use crate::address::{IpAddress, SocketAddress, DEFAULT_PORT};
use crate::credential::{Credential, CredentialView, KEY_BYTES, PROTOCOL_ID};
use crate::wire::{connect_token_accepts, parses_as_connect_token};

verus! {

/// The server's configuration: where it binds and how many players it takes.
#[derive(Clone, Copy, Debug, PartialEq, Eq, Structural)]
pub struct Config {
    pub addr: SocketAddress,
    pub max_players: u32,
}

/// 127.0.0.1 as a 32-bit value.
pub const LOCALHOST_V4: u32 = 0x7f00_0001;

/// The player limit when nothing else is configured.
pub const DEFAULT_MAX_PLAYERS: u32 = 4;

/// The configuration used when none is stored: localhost on the default port,
/// four players.
pub open spec fn default_config() -> Config {
    Config {
        addr: SocketAddress { ip: IpAddress::V4(LOCALHOST_V4), port: DEFAULT_PORT },
        max_players: DEFAULT_MAX_PLAYERS,
    }
}

impl Default for Config {
    fn default() -> (r: Config)
        ensures
            r == default_config(),
    {
        Config {
            addr: SocketAddress { ip: IpAddress::V4(LOCALHOST_V4), port: DEFAULT_PORT },
            max_players: DEFAULT_MAX_PLAYERS,
        }
    }
}

/// The server's command-line overrides.
#[derive(Clone, Copy, Debug)]
pub struct Cli {
    pub ip: Option<IpAddress>,
    pub port: Option<u16>,
    pub max_players: Option<u32>,
}

/// Overrides of which every field was given.
#[derive(Clone, Copy, Debug)]
pub struct ValidatedCli {
    pub ip: IpAddress,
    pub port: u16,
    pub max_players: u32,
}

impl Cli {
    /// The overrides, if all of them were given.
    pub fn into_validated(self) -> (r: Option<ValidatedCli>)
        ensures
            r is Some <==> (self.ip is Some && self.port is Some && self.max_players is Some),
            r is Some ==> r->0.ip == self.ip->0 && r->0.port == self.port->0 && r->0.max_players
                == self.max_players->0,
    {
        match (self.ip, self.port, self.max_players) {
            (Some(ip), Some(port), Some(max_players)) => Some(ValidatedCli { ip, port, max_players }),
            _ => None,
        }
    }
}

/// The configuration of complete overrides.
pub open spec fn config_of(v: ValidatedCli) -> Config {
    Config { addr: SocketAddress { ip: v.ip, port: v.port }, max_players: v.max_players }
}

impl Config {
    /// The configuration of complete overrides.
    pub fn from_validated(v: ValidatedCli) -> (r: Config)
        ensures
            r == config_of(v),
    {
        Config {
            addr: crate::address::ip_addr_into_socket_addr(v.ip, v.port),
            max_players: v.max_players,
        }
    }

    /// The configuration read from the stored file: the stored one when it
    /// could be read, else the default. The flag says that the default must
    /// be written back to the file.
    pub fn open(stored: Option<Config>) -> (r: (Config, bool))
        ensures
            stored is Some ==> r == (stored->0, false),
            stored is None ==> r == (default_config(), true),
    {
        match stored {
            Some(c) => (c, false),
            None => (Config::default(), true),
        }
    }

    /// The configuration in force: the overrides when every one of them is
    /// given, else what `open` makes of the stored file. Partial overrides
    /// are ignored.
    pub fn new(cli: Cli, stored: Option<Config>) -> (r: (Config, bool))
        ensures
            cli.ip is Some && cli.port is Some && cli.max_players is Some ==> r == (
                Config {
                    addr: SocketAddress { ip: cli.ip->0, port: cli.port->0 },
                    max_players: cli.max_players->0,
                },
                false,
            ),
            !(cli.ip is Some && cli.port is Some && cli.max_players is Some) ==> r == (
                if stored is Some {
                    (stored->0, false)
                } else {
                    (default_config(), true)
                }
            ),
    {
        match cli.into_validated() {
            Some(v) => (Config::from_validated(v), false),
            None => Config::open(stored),
        }
    }
}

/// Which credentials the server accepts: pre-shared-key credentials with its
/// key and protocol identifier, and, when enabled, signed tokens.
#[derive(Debug)]
pub struct AuthPolicy {
    pub key: Vec<u8>,
    pub protocol_id: u64,
    pub accept_tokens: bool,
}

/// A policy as plain values.
pub struct AuthPolicyView {
    pub key: Seq<u8>,
    pub protocol_id: u64,
    pub accept_tokens: bool,
}

impl View for AuthPolicy {
    type V = AuthPolicyView;

    open spec fn view(&self) -> AuthPolicyView {
        AuthPolicyView { key: self.key@, protocol_id: self.protocol_id, accept_tokens: self.accept_tokens }
    }
}

/// Whether the policy accepts the credential.
pub open spec fn policy_accepts(p: AuthPolicyView, c: CredentialView) -> bool {
    match c {
        CredentialView::PreSharedKey { key, protocol_id, .. } => key == p.key && protocol_id
            == p.protocol_id,
        CredentialView::SignedToken { token, .. } => p.accept_tokens && connect_token_accepts(token),
    }
}

impl AuthPolicy {
    /// The policy in use until signed tokens are issued: the all-zero key,
    /// the shared protocol identifier, no tokens.
    pub fn placeholder() -> (r: AuthPolicy)
        ensures
            r@.key == Seq::new(KEY_BYTES as nat, |i: int| 0u8),
            r@.protocol_id == PROTOCOL_ID,
            !r@.accept_tokens,
    {
        let key: Vec<u8> = vec![0u8; KEY_BYTES];
        assert(key@ =~= Seq::new(KEY_BYTES as nat, |i: int| 0u8));
        AuthPolicy { key, protocol_id: PROTOCOL_ID, accept_tokens: false }
    }

    /// Whether the policy accepts the credential.
    pub fn accepts(&self, c: &Credential) -> (r: bool)
        ensures
            r == policy_accepts(self@, c@),
    {
        match c {
            Credential::PreSharedKey { key, protocol_id, .. } => {
                if *protocol_id != self.protocol_id || key.len() != self.key.len() {
                    return false;
                }
                assert(policy_accepts(self@, c@) == (key@ == self.key@));
                let mut k: usize = 0;
                while k < key.len()
                    invariant
                        k <= key@.len(),
                        key@.len() == self.key@.len(),
                        policy_accepts(self@, c@) == (key@ == self.key@),
                        forall|j: int| 0 <= j < k ==> key@[j] == self.key@[j],
                    decreases key@.len() - k,
                {
                    if key[k] != self.key[k] {
                        assert(key@[k as int] != self.key@[k as int]);
                        return false;
                    }
                    k = k + 1;
                }
                assert(key@ =~= self.key@);
                true
            },
            Credential::SignedToken { token, .. } => self.accept_tokens && parses_as_connect_token(
                token.as_slice(),
            ),
        }
    }
}

/// Why a connection was refused.
#[derive(Clone, Copy, Debug, PartialEq, Eq, Structural)]
pub enum RejectReason {
    /// `max_players` sessions are open.
    CapacityReached,
    /// The policy does not accept the credential.
    CredentialRejected,
    /// The client has a session already.
    AlreadyConnected,
}

/// The listening endpoint and the clients it has accepted.
#[derive(Debug)]
pub struct ServerSession {
    config: Config,
    policy: AuthPolicy,
    sessions: Vec<u64>,
}

/// A server session as plain values.
pub struct ServerSessionView {
    pub config: Config,
    pub policy: AuthPolicyView,
    pub sessions: Seq<u64>,
}

impl View for ServerSession {
    type V = ServerSessionView;

    closed spec fn view(&self) -> ServerSessionView {
        ServerSessionView { config: self.config, policy: self.policy@, sessions: self.sessions@ }
    }
}

/// Each client once, and no more sessions than the limit.
pub open spec fn server_wf(s: ServerSessionView) -> bool {
    s.sessions.no_duplicates() && s.sessions.len() <= s.config.max_players
}

/// An incoming connection from `client_id` presenting `c`: refused when the
/// server is full, when the policy rejects the credential, or when the
/// client is connected already; otherwise it becomes a session.
pub open spec fn accept_step(s: ServerSessionView, client_id: u64, c: CredentialView) -> (
    ServerSessionView,
    Result<(), RejectReason>,
) {
    if s.sessions.len() >= s.config.max_players {
        (s, Err(RejectReason::CapacityReached))
    } else if !policy_accepts(s.policy, c) {
        (s, Err(RejectReason::CredentialRejected))
    } else if s.sessions.contains(client_id) {
        (s, Err(RejectReason::AlreadyConnected))
    } else {
        (
            ServerSessionView {
                config: s.config,
                policy: s.policy,
                sessions: s.sessions.push(client_id),
            },
            Ok(()),
        )
    }
}

impl ServerSession {
    /// Starts listening with the given configuration and policy, with no
    /// sessions.
    pub fn start(config: Config, policy: AuthPolicy) -> (r: ServerSession)
        ensures
            r@.config == config,
            r@.policy == policy@,
            r@.sessions == Seq::<u64>::empty(),
            server_wf(r@),
    {
        ServerSession { config, policy, sessions: Vec::new() }
    }

    /// How many sessions are open.
    pub fn connection_count(&self) -> (r: usize)
        ensures
            r == self@.sessions.len(),
    {
        self.sessions.len()
    }

    /// Whether `client_id` has a session.
    pub fn is_connected(&self, client_id: u64) -> (r: bool)
        ensures
            r == self@.sessions.contains(client_id),
    {
        let mut k: usize = 0;
        while k < self.sessions.len()
            invariant
                k <= self.sessions@.len(),
                forall|j: int| 0 <= j < k ==> self.sessions@[j] != client_id,
            decreases self.sessions@.len() - k,
        {
            if self.sessions[k] == client_id {
                assert(self.sessions@.contains(client_id));
                return true;
            }
            k = k + 1;
        }
        false
    }

    /// Handles a connection attempt.
    pub fn accept(&mut self, client_id: u64, credential: &Credential) -> (r: Result<(), RejectReason>)
        requires
            server_wf(old(self)@),
        ensures
            (final(self)@, r) == accept_step(old(self)@, client_id, credential@),
            server_wf(final(self)@),
    {
        if self.sessions.len() >= self.config.max_players as usize {
            return Err(RejectReason::CapacityReached);
        }
        if !self.policy.accepts(credential) {
            return Err(RejectReason::CredentialRejected);
        }
        if self.is_connected(client_id) {
            return Err(RejectReason::AlreadyConnected);
        }
        self.sessions.push(client_id);
        proof {
            let s = self.sessions@;
            assert forall|a: int, b: int| 0 <= a < b < s.len() implies s[a] != s[b] by {
                if b == s.len() - 1 {
                    assert(old(self)@.sessions[a] == s[a]);
                }
                else {
                    assert(old(self)@.sessions[a] == s[a] && old(self)@.sessions[b] == s[b]);
                }
            }
        }
        Ok(())
    }

    /// Closes the session of `client_id`, if it has one.
    pub fn disconnect(&mut self, client_id: u64) -> (r: bool)
        requires
            server_wf(old(self)@),
        ensures
            r == old(self)@.sessions.contains(client_id),
            !r ==> final(self)@ == old(self)@,
            r ==> exists|i: int|
                0 <= i < old(self)@.sessions.len() && old(self)@.sessions[i] == client_id
                    && final(self)@.sessions == old(self)@.sessions.remove(i),
            final(self)@.config == old(self)@.config,
            final(self)@.policy == old(self)@.policy,
            !final(self)@.sessions.contains(client_id),
            server_wf(final(self)@),
    {
        let mut k: usize = 0;
        while k < self.sessions.len()
            invariant
                k <= self.sessions@.len(),
                self@ == old(self)@,
                server_wf(old(self)@),
                forall|j: int| 0 <= j < k ==> self.sessions@[j] != client_id,
            decreases self.sessions@.len() - k,
        {
            if self.sessions[k] == client_id {
                let ghost before = self.sessions@;
                self.sessions.remove(k);
                proof {
                    let s = self.sessions@;
                    assert(s =~= before.remove(k as int));
                    assert forall|a: int, b: int| 0 <= a < b < s.len() implies s[a] != s[b] by {
                        let a0 = if a < k { a } else { a + 1 };
                        let b0 = if b < k { b } else { b + 1 };
                        assert(s[a] == before[a0] && s[b] == before[b0]);
                    }
                    assert forall|j: int| 0 <= j < s.len() implies s[j] != client_id by {
                        let j0 = if j < k { j } else { j + 1 };
                        assert(s[j] == before[j0]);
                        assert(before[k as int] == client_id);
                    }
                }
                return true;
            }
            k = k + 1;
        }
        false
    }

    /// The configuration the server runs with.
    pub fn config(&self) -> (r: Config)
        ensures
            r == self@.config,
    {
        self.config
    }
}

/// A server with all `max_players` sessions open refuses every further
/// connection and keeps the sessions it has.
pub proof fn lemma_full_server_refuses(s: ServerSessionView, client_id: u64, c: CredentialView)
    requires
        s.sessions.len() == s.config.max_players,
    ensures
        accept_step(s, client_id, c) == (s, Err::<(), RejectReason>(RejectReason::CapacityReached)),
{
}

} // verus!
