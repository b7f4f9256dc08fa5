//! The client's session manager: the one local endpoint, the join/leave
//! handshake, and the application state it drives.
use vstd::prelude::*;
use crate::address::{IpAddress, SocketAddress, DEFAULT_PORT};
use crate::credential::{
    build_credential, credential_for, Credential, CredentialError, CredentialView, Mechanism,
    KEY_BYTES,
};
use crate::states::{AppState, EntitySet, GameState};

verus! {

/// std's `SystemTime`, held opaque: a reading of the system clock.
#[verifier::external_type_specification]
#[verifier::external_body]
pub struct ExSystemTime(std::time::SystemTime);

/// Relies on std's `SystemTime::now`: the current reading of the system clock.
#[verifier::external_body]
fn system_time_now() -> std::time::SystemTime {
    std::time::SystemTime::now()
}

/// Relies on std's `SystemTime::duration_since`: the whole milliseconds from
/// the Unix epoch to `t`, or `None` when `t` is earlier than the epoch.
#[verifier::external_body]
fn millis_since_unix_epoch(t: &std::time::SystemTime) -> Option<u128> {
    match t.duration_since(std::time::UNIX_EPOCH) {
        Ok(d) => Some(d.as_millis()),
        Err(_) => None,
    }
}

/// The client identity made of a count of milliseconds: its low 64 bits.
pub fn client_id_from_millis(millis: u128) -> (r: u64)
    ensures
        r as int == millis as int % 0x1_0000_0000_0000_0000,
{
    (millis % 0x1_0000_0000_0000_0000u128) as u64
}

/// A client identity taken from the clock: the milliseconds since the Unix
/// epoch. `None` when the clock reads earlier than the epoch.
pub fn get_client_id() -> Option<u64> {
    let now = system_time_now();
    match millis_since_unix_epoch(&now) {
        Some(ms) => Some(client_id_from_millis(ms)),
        None => None,
    }
}

/// The client's command-line options.
#[derive(Clone, Copy, Debug)]
pub struct Cli {
    pub address: Option<SocketAddress>,
    pub ip: Option<IpAddress>,
    pub port: Option<u16>,
    pub client_id: Option<u64>,
}

/// The client's configuration: the peer it targets, if any, and its identity.
#[derive(Clone, Copy, Debug)]
pub struct Config {
    pub peer_address: Option<SocketAddress>,
    pub client_id: u64,
}

/// The peer that the options name: the full address when given, else the IP
/// with the given port or the default one.
pub open spec fn peer_from_cli(cli: Cli) -> Option<SocketAddress> {
    if cli.address is Some {
        cli.address
    } else {
        match cli.ip {
            Some(ip) => Some(
                SocketAddress {
                    ip,
                    port: match cli.port {
                        Some(p) => p,
                        None => DEFAULT_PORT,
                    },
                },
            ),
            None => None,
        }
    }
}

impl Config {
    /// The configuration the options give, with `fallback_client_id` where
    /// they name no identity.
    pub fn from_cli(cli: Cli, fallback_client_id: u64) -> (r: Config)
        ensures
            r.peer_address == peer_from_cli(cli),
            r.client_id == match cli.client_id {
                Some(id) => id,
                None => fallback_client_id,
            },
    {
        let peer_address = if cli.address.is_some() {
            cli.address
        } else {
            match cli.ip {
                Some(ip) => {
                    let port = match cli.port {
                        Some(p) => p,
                        None => DEFAULT_PORT,
                    };
                    Some(crate::address::ip_addr_into_socket_addr(ip, port))
                },
                None => None,
            }
        };
        let client_id = match cli.client_id {
            Some(id) => id,
            None => fallback_client_id,
        };
        Config { peer_address, client_id }
    }

    /// The configuration the options give; where they name no identity, one
    /// is taken from the clock, and `None` comes back if the clock reads
    /// earlier than the Unix epoch.
    pub fn new(cli: Cli) -> (r: Option<Config>)
        ensures
            r is Some ==> r->0.peer_address == peer_from_cli(cli),
            cli.client_id is Some ==> r is Some && r->0.client_id == cli.client_id->0,
    {
        match cli.client_id {
            Some(id) => Some(Config::from_cli(cli, id)),
            None => match get_client_id() {
                Some(id) => Some(Config::from_cli(cli, id)),
                None => None,
            },
        }
    }
}

/// The state of the local endpoint's connection.
#[derive(Clone, Copy, Debug, PartialEq, Eq, Structural)]
pub enum ConnectionState {
    Idle,
    Authenticating,
    Connected,
}

/// A request to join a game at `address`, with a signed token or with a
/// pre-shared key.
#[derive(Debug)]
pub enum JoinGameEvent {
    Token { address: SocketAddress, token: Vec<u8> },
    Manual { address: SocketAddress, key: Vec<u8> },
}

/// A join request as plain values.
pub enum JoinRequestView {
    Token { address: SocketAddress, token: Seq<u8> },
    Manual { address: SocketAddress, key: Seq<u8> },
}

impl View for JoinGameEvent {
    type V = JoinRequestView;

    open spec fn view(&self) -> JoinRequestView {
        match self {
            JoinGameEvent::Token { address, token } => JoinRequestView::Token {
                address: *address,
                token: token@,
            },
            JoinGameEvent::Manual { address, key } => JoinRequestView::Manual {
                address: *address,
                key: key@,
            },
        }
    }
}

/// A request to leave the current game.
#[derive(Clone, Copy, Debug)]
pub struct LeaveGameEvent;

/// The address a join request targets.
pub open spec fn join_address(e: JoinRequestView) -> SocketAddress {
    match e {
        JoinRequestView::Token { address, .. } => address,
        JoinRequestView::Manual { address, .. } => address,
    }
}

/// The credential a join request presents, for a client with identity `client_id`.
pub open spec fn join_credential(e: JoinRequestView, client_id: u64) -> Result<
    CredentialView,
    CredentialError,
> {
    match e {
        JoinRequestView::Token { address, token } => credential_for(
            Mechanism::SignedToken,
            address,
            client_id,
            token,
        ),
        JoinRequestView::Manual { address, key } => credential_for(
            Mechanism::PreSharedKey,
            address,
            client_id,
            key,
        ),
    }
}

/// The key that stands in until a signed token is available: all zeros.
pub open spec fn placeholder_key() -> Seq<u8> {
    Seq::new(KEY_BYTES as nat, |i: int| 0u8)
}

/// The join request made at start-up: to the configured peer, with the
/// placeholder key; none when no peer is configured.
pub fn startup_join(config: &Config) -> (r: Option<JoinGameEvent>)
    ensures
        config.peer_address is None ==> r is None,
        config.peer_address is Some ==> r is Some && r->0@ == (JoinRequestView::Manual {
            address: config.peer_address->0,
            key: placeholder_key(),
        }),
{
    match config.peer_address {
        Some(address) => {
            let key: Vec<u8> = vec![0u8; KEY_BYTES];
            assert(key@ =~= placeholder_key());
            Some(JoinGameEvent::Manual { address, key })
        },
        None => None,
    }
}

/// Why a join was not completed.
#[derive(Clone, Copy, Debug, PartialEq, Eq, Structural)]
pub enum FailureReason {
    CredentialRejected,
    TimedOut,
    Unreachable,
}

/// What the transport reports about the handshake it was asked to make.
#[derive(Clone, Copy, Debug, PartialEq, Eq, Structural)]
pub enum TransportEvent {
    Accepted { generation: u64 },
    Failed { generation: u64, reason: FailureReason },
}

/// The handshake a transport event is about.
pub open spec fn event_generation(e: TransportEvent) -> u64 {
    match e {
        TransportEvent::Accepted { generation } => generation,
        TransportEvent::Failed { generation, .. } => generation,
    }
}

/// What the session reports to the rest of the application.
#[derive(Clone, Copy, Debug, PartialEq, Eq, Structural)]
pub enum SessionEvent {
    JoinSucceeded,
    JoinFailed(FailureReason),
    SessionClosed,
}

/// Invalid uses of the session manager.
#[derive(Clone, Copy, Debug, PartialEq, Eq, Structural)]
pub enum SessionError {
    /// No endpoint has been created.
    NoEndpoint,
    /// An endpoint exists already.
    EndpointAlreadyExists,
    /// A join while the endpoint is authenticating or connected.
    EndpointAlreadyActive,
    /// The join request's key or token is not usable.
    InvalidCredential,
    /// A game-state change or in-game entity outside a game.
    NotInGame,
}

/// What the transport is asked to do on a join: open a link to `address`
/// with `credential`, the handshake numbered `generation`.
#[derive(Debug)]
pub struct ConnectRequest {
    pub address: SocketAddress,
    pub credential: Credential,
    pub generation: u64,
}

/// A connect request as plain values.
pub struct ConnectRequestView {
    pub address: SocketAddress,
    pub credential: CredentialView,
    pub generation: u64,
}

impl View for ConnectRequest {
    type V = ConnectRequestView;

    open spec fn view(&self) -> ConnectRequestView {
        ConnectRequestView {
            address: self.address,
            credential: self.credential@,
            generation: self.generation,
        }
    }
}

/// A join result, seen through the request's view.
pub open spec fn connect_result_view(r: Result<ConnectRequest, SessionError>) -> Result<
    ConnectRequestView,
    SessionError,
> {
    match r {
        Ok(c) => Ok(c@),
        Err(e) => Err(e),
    }
}

/// The process's one local connection endpoint.
#[derive(Debug)]
pub struct LocalClient {
    state: ConnectionState,
    credential: Option<Credential>,
    generation: u64,
}

/// An endpoint as plain values.
pub struct LocalClientView {
    pub state: ConnectionState,
    pub credential: Option<CredentialView>,
    pub generation: u64,
}

impl View for LocalClient {
    type V = LocalClientView;

    closed spec fn view(&self) -> LocalClientView {
        LocalClientView {
            state: self.state,
            credential: match self.credential {
                Some(c) => Some(c@),
                None => None,
            },
            generation: self.generation,
        }
    }
}

/// The client's session manager: the configuration, the endpoint if one
/// exists, the application state and the in-game entities.
#[derive(Debug)]
pub struct ClientSession {
    config: Config,
    endpoint: Option<LocalClient>,
    app_state: AppState,
    entities: EntitySet,
}

/// A session manager as plain values.
pub struct ClientSessionView {
    pub config: Config,
    pub endpoint: Option<LocalClientView>,
    pub app_state: AppState,
    pub entities: Set<u64>,
}

impl View for ClientSession {
    type V = ClientSessionView;

    closed spec fn view(&self) -> ClientSessionView {
        ClientSessionView {
            config: self.config,
            endpoint: match self.endpoint {
                Some(ep) => Some(ep@),
                None => None,
            },
            app_state: self.app_state,
            entities: self.entities@,
        }
    }
}

/// The number of the handshake after `g`.
pub open spec fn next_generation(g: u64) -> u64 {
    if g == u64::MAX {
        0
    } else {
        (g + 1) as u64
    }
}

/// The session with the endpoint replaced.
pub open spec fn with_endpoint(s: ClientSessionView, ep: LocalClientView) -> ClientSessionView {
    ClientSessionView {
        config: s.config,
        endpoint: Some(ep),
        app_state: s.app_state,
        entities: s.entities,
    }
}

/// Creating the endpoint: allowed once.
pub open spec fn spawn_step(s: ClientSessionView) -> (ClientSessionView, Result<(), SessionError>) {
    if s.endpoint is Some {
        (s, Err(SessionError::EndpointAlreadyExists))
    } else {
        (
            with_endpoint(
                s,
                LocalClientView { state: ConnectionState::Idle, credential: None, generation: 0 },
            ),
            Ok(()),
        )
    }
}

/// A join request: only from an idle endpoint. It records the target peer,
/// attaches the credential, starts a new handshake and asks the transport
/// to open the link.
pub open spec fn join_step(s: ClientSessionView, e: JoinRequestView) -> (
    ClientSessionView,
    Result<ConnectRequestView, SessionError>,
) {
    match s.endpoint {
        None => (s, Err(SessionError::NoEndpoint)),
        Some(ep) => if ep.state != ConnectionState::Idle {
            (s, Err(SessionError::EndpointAlreadyActive))
        } else {
            match join_credential(e, s.config.client_id) {
                Err(_) => (s, Err(SessionError::InvalidCredential)),
                Ok(c) => {
                    let g = next_generation(ep.generation);
                    (
                        ClientSessionView {
                            config: Config {
                                peer_address: Some(join_address(e)),
                                client_id: s.config.client_id,
                            },
                            endpoint: Some(
                                LocalClientView {
                                    state: ConnectionState::Authenticating,
                                    credential: Some(c),
                                    generation: g,
                                },
                            ),
                            app_state: s.app_state,
                            entities: s.entities,
                        },
                        Ok(ConnectRequestView { address: join_address(e), credential: c, generation: g }),
                    )
                },
            }
        },
    }
}

/// A transport report: it counts only for the handshake in progress. An
/// accepted one connects and enters the game; a failed one returns the
/// endpoint to idle and leaves the application state as it is.
pub open spec fn transport_step(s: ClientSessionView, e: TransportEvent) -> (
    ClientSessionView,
    Option<SessionEvent>,
) {
    match s.endpoint {
        None => (s, None),
        Some(ep) => if ep.state != ConnectionState::Authenticating || ep.generation
            != event_generation(e) {
            (s, None)
        } else {
            match e {
                TransportEvent::Accepted { .. } => (
                    ClientSessionView {
                        config: s.config,
                        endpoint: Some(
                            LocalClientView {
                                state: ConnectionState::Connected,
                                credential: ep.credential,
                                generation: ep.generation,
                            },
                        ),
                        app_state: AppState::InGame(GameState::Playing),
                        entities: s.entities,
                    },
                    Some(SessionEvent::JoinSucceeded),
                ),
                TransportEvent::Failed { reason, .. } => (
                    with_endpoint(
                        s,
                        LocalClientView {
                            state: ConnectionState::Idle,
                            credential: None,
                            generation: ep.generation,
                        },
                    ),
                    Some(SessionEvent::JoinFailed(reason)),
                ),
            }
        },
    }
}

/// A leave request: nothing to do on an idle endpoint; otherwise the peer is
/// forgotten, the credential detached, the endpoint idle, the application
/// back in the main menu and every in-game entity gone.
pub open spec fn leave_step(s: ClientSessionView) -> (
    ClientSessionView,
    Result<Option<SessionEvent>, SessionError>,
) {
    match s.endpoint {
        None => (s, Err(SessionError::NoEndpoint)),
        Some(ep) => if ep.state == ConnectionState::Idle {
            (s, Ok(None))
        } else {
            (
                ClientSessionView {
                    config: Config { peer_address: None, client_id: s.config.client_id },
                    endpoint: Some(
                        LocalClientView {
                            state: ConnectionState::Idle,
                            credential: None,
                            generation: ep.generation,
                        },
                    ),
                    app_state: AppState::MainMenu,
                    entities: Set::empty(),
                },
                Ok(Some(SessionEvent::SessionClosed)),
            )
        },
    }
}

/// Switching the game state: only inside a game.
pub open spec fn game_state_step(s: ClientSessionView, g: GameState) -> (
    ClientSessionView,
    Result<(), SessionError>,
) {
    if s.app_state is InGame {
        (
            ClientSessionView {
                config: s.config,
                endpoint: s.endpoint,
                app_state: AppState::InGame(g),
                entities: s.entities,
            },
            Ok(()),
        )
    } else {
        (s, Err(SessionError::NotInGame))
    }
}

/// Recording an entity of the game session: only inside a game.
pub open spec fn entity_step(s: ClientSessionView, h: u64) -> (
    ClientSessionView,
    Result<(), SessionError>,
) {
    if s.app_state is InGame {
        (
            ClientSessionView {
                config: s.config,
                endpoint: s.endpoint,
                app_state: s.app_state,
                entities: s.entities.insert(h),
            },
            Ok(()),
        )
    } else {
        (s, Err(SessionError::NotInGame))
    }
}

impl ClientSession {
    /// A session manager with the given configuration, no endpoint yet, in
    /// the main menu.
    pub fn new(config: Config) -> (r: ClientSession)
        ensures
            r@.config == config,
            r@.endpoint is None,
            r@.app_state == AppState::MainMenu,
            r@.entities == Set::<u64>::empty(),
    {
        ClientSession { config, endpoint: None, app_state: AppState::MainMenu, entities: EntitySet::new() }
    }

    /// Creates the one local endpoint, idle. A second is refused.
    pub fn spawn_endpoint(&mut self) -> (r: Result<(), SessionError>)
        ensures
            (final(self)@, r) == spawn_step(old(self)@),
    {
        if self.endpoint.is_some() {
            return Err(SessionError::EndpointAlreadyExists);
        }
        self.endpoint = Some(LocalClient { state: ConnectionState::Idle, credential: None, generation: 0 });
        Ok(())
    }

    /// Handles a join request.
    pub fn request_join(&mut self, event: JoinGameEvent) -> (r: Result<ConnectRequest, SessionError>)
        ensures
            (final(self)@, connect_result_view(r)) == join_step(old(self)@, event@),
    {
        let generation = match &self.endpoint {
            None => {
                return Err(SessionError::NoEndpoint);
            },
            Some(ep) => {
                if ep.state != ConnectionState::Idle {
                    return Err(SessionError::EndpointAlreadyActive);
                }
                ep.generation
            },
        };
        let client_id = self.config.client_id;
        let (address, built) = match event {
            JoinGameEvent::Token { address, token } => (
                address,
                build_credential(Mechanism::SignedToken, address, client_id, token.as_slice()),
            ),
            JoinGameEvent::Manual { address, key } => (
                address,
                build_credential(Mechanism::PreSharedKey, address, client_id, key.as_slice()),
            ),
        };
        let credential = match built {
            Ok(c) => c,
            Err(_) => {
                return Err(SessionError::InvalidCredential);
            },
        };
        let next = if generation == u64::MAX {
            0
        } else {
            generation + 1
        };
        let sent = credential.duplicate();
        self.config = Config { peer_address: Some(address), client_id };
        self.endpoint = Some(
            LocalClient {
                state: ConnectionState::Authenticating,
                credential: Some(credential),
                generation: next,
            },
        );
        Ok(ConnectRequest { address, credential: sent, generation: next })
    }

    /// Handles what the transport reports about a handshake.
    pub fn on_transport_event(&mut self, event: TransportEvent) -> (r: Option<SessionEvent>)
        ensures
            (final(self)@, r) == transport_step(old(self)@, event),
    {
        let ep = match self.endpoint.take() {
            None => {
                return None;
            },
            Some(ep) => ep,
        };
        let generation = match event {
            TransportEvent::Accepted { generation } => generation,
            TransportEvent::Failed { generation, .. } => generation,
        };
        if ep.state != ConnectionState::Authenticating || ep.generation != generation {
            self.endpoint = Some(ep);
            return None;
        }
        match event {
            TransportEvent::Accepted { .. } => {
                self.endpoint = Some(
                    LocalClient {
                        state: ConnectionState::Connected,
                        credential: ep.credential,
                        generation: ep.generation,
                    },
                );
                self.app_state = AppState::InGame(GameState::Playing);
                Some(SessionEvent::JoinSucceeded)
            },
            TransportEvent::Failed { reason, .. } => {
                self.endpoint = Some(
                    LocalClient {
                        state: ConnectionState::Idle,
                        credential: None,
                        generation: ep.generation,
                    },
                );
                Some(SessionEvent::JoinFailed(reason))
            },
        }
    }

    /// Handles a leave request; on an idle endpoint it does nothing.
    pub fn request_leave(&mut self, event: LeaveGameEvent) -> (r: Result<Option<SessionEvent>, SessionError>)
        ensures
            (final(self)@, r) == leave_step(old(self)@),
    {
        let generation = match &self.endpoint {
            None => {
                return Err(SessionError::NoEndpoint);
            },
            Some(ep) => {
                if ep.state == ConnectionState::Idle {
                    return Ok(None);
                }
                ep.generation
            },
        };
        self.config = Config { peer_address: None, client_id: self.config.client_id };
        self.endpoint = Some(LocalClient { state: ConnectionState::Idle, credential: None, generation });
        self.app_state = AppState::MainMenu;
        self.entities.clear();
        Ok(Some(SessionEvent::SessionClosed))
    }

    /// Switches among playing, editing and paused, inside a game.
    pub fn set_game_state(&mut self, g: GameState) -> (r: Result<(), SessionError>)
        ensures
            (final(self)@, r) == game_state_step(old(self)@, g),
    {
        match self.app_state {
            AppState::InGame(_) => {
                self.app_state = AppState::InGame(g);
                Ok(())
            },
            AppState::MainMenu => Err(SessionError::NotInGame),
        }
    }

    /// Records an entity that belongs to the game session.
    pub fn spawn_in_game_entity(&mut self, h: u64) -> (r: Result<(), SessionError>)
        ensures
            (final(self)@, r) == entity_step(old(self)@, h),
    {
        match self.app_state {
            AppState::InGame(_) => {
                self.entities.insert(h);
                Ok(())
            },
            AppState::MainMenu => Err(SessionError::NotInGame),
        }
    }

    /// The endpoint's connection state; `None` before it exists.
    pub fn connection_state(&self) -> (r: Option<ConnectionState>)
        ensures
            r == match self@.endpoint {
                Some(ep) => Some(ep.state),
                None => None,
            },
    {
        match &self.endpoint {
            Some(ep) => Some(ep.state),
            None => None,
        }
    }

    /// The current handshake's number; `None` before the endpoint exists.
    pub fn generation(&self) -> (r: Option<u64>)
        ensures
            r == match self@.endpoint {
                Some(ep) => Some(ep.generation),
                None => None,
            },
    {
        match &self.endpoint {
            Some(ep) => Some(ep.generation),
            None => None,
        }
    }

    /// Whether the endpoint holds a credential.
    pub fn has_credential(&self) -> (r: bool)
        ensures
            r == (self@.endpoint is Some && self@.endpoint->0.credential is Some),
    {
        match &self.endpoint {
            Some(ep) => ep.credential.is_some(),
            None => false,
        }
    }

    /// The application state.
    pub fn app_state(&self) -> (r: AppState)
        ensures
            r == self@.app_state,
    {
        self.app_state
    }

    /// The peer currently targeted.
    pub fn peer_address(&self) -> (r: Option<SocketAddress>)
        ensures
            r == self@.config.peer_address,
    {
        self.config.peer_address
    }

    /// The configuration.
    pub fn config(&self) -> (r: Config)
        ensures
            r == self@.config,
    {
        self.config
    }

    /// Whether `h` is a live in-game entity.
    pub fn has_entity(&self, h: u64) -> (r: bool)
        ensures
            r == self@.entities.contains(h),
    {
        self.entities.contains(h)
    }

    /// Whether no in-game entity is live.
    pub fn no_entities(&self) -> (r: bool)
        ensures
            r == (self@.entities == Set::<u64>::empty()),
    {
        self.entities.is_empty()
    }
}

/// Once a join has started from the idle endpoint, another join is refused
/// with `EndpointAlreadyActive` and changes nothing: while the handshake runs,
/// and after the transport has accepted it.
pub proof fn lemma_single_endpoint(s: ClientSessionView, e1: JoinRequestView, e2: JoinRequestView)
    requires
        join_step(s, e1).1 is Ok,
    ensures
        join_step(join_step(s, e1).0, e2) == (
            join_step(s, e1).0,
            Err::<ConnectRequestView, SessionError>(SessionError::EndpointAlreadyActive),
        ),
        ({
            let s2 = transport_step(
                join_step(s, e1).0,
                TransportEvent::Accepted { generation: join_step(s, e1).1->Ok_0.generation },
            ).0;
            join_step(s2, e2) == (
                s2,
                Err::<ConnectRequestView, SessionError>(SessionError::EndpointAlreadyActive),
            )
        }),
{
}

/// A join that the transport accepts puts the application in the game,
/// playing, with the endpoint connected; a leave after it returns to the main
/// menu with the endpoint idle and no in-game entity left.
pub proof fn lemma_join_then_leave(s: ClientSessionView, e: JoinRequestView)
    requires
        join_step(s, e).1 is Ok,
    ensures
        ({
            let s1 = join_step(s, e).0;
            let s2 = transport_step(
                s1,
                TransportEvent::Accepted { generation: join_step(s, e).1->Ok_0.generation },
            ).0;
            let s3 = leave_step(s2).0;
            &&& s2.app_state == AppState::InGame(GameState::Playing)
            &&& s2.endpoint->0.state == ConnectionState::Connected
            &&& s3.app_state == AppState::MainMenu
            &&& s3.endpoint->0.state == ConnectionState::Idle
            &&& s3.entities == Set::<u64>::empty()
        }),
{
}

/// Leaving an active session, whatever happened inside it, ends in the main
/// menu with the endpoint idle, no peer recorded and no in-game entity.
pub proof fn lemma_leave_tears_down(s: ClientSessionView)
    requires
        s.endpoint is Some,
        s.endpoint->0.state != ConnectionState::Idle,
    ensures
        leave_step(s).1 == Ok::<Option<SessionEvent>, SessionError>(Some(SessionEvent::SessionClosed)),
        leave_step(s).0.app_state == AppState::MainMenu,
        leave_step(s).0.endpoint->0.state == ConnectionState::Idle,
        leave_step(s).0.endpoint->0.credential is None,
        leave_step(s).0.config.peer_address is None,
        leave_step(s).0.entities == Set::<u64>::empty(),
{
}

/// A leave on an idle endpoint succeeds and changes nothing.
pub proof fn lemma_leave_idle_is_noop(s: ClientSessionView)
    requires
        s.endpoint is Some,
        s.endpoint->0.state == ConnectionState::Idle,
    ensures
        leave_step(s) == (s, Ok::<Option<SessionEvent>, SessionError>(None)),
{
}

/// A handshake abandoned by a leave cannot complete later: its acceptance,
/// reported after the leave, changes nothing.
pub proof fn lemma_stale_acceptance_ignored(s: ClientSessionView, e: JoinRequestView)
    requires
        join_step(s, e).1 is Ok,
    ensures
        ({
            let s2 = leave_step(join_step(s, e).0).0;
            transport_step(
                s2,
                TransportEvent::Accepted { generation: join_step(s, e).1->Ok_0.generation },
            ) == (s2, None::<SessionEvent>)
        }),
{
}

/// A failed handshake returns the endpoint to idle and leaves the
/// application state as it was.
pub proof fn lemma_failure_returns_to_idle(s: ClientSessionView, e: JoinRequestView, reason: FailureReason)
    requires
        join_step(s, e).1 is Ok,
    ensures
        ({
            let s1 = join_step(s, e).0;
            let r = transport_step(
                s1,
                TransportEvent::Failed { generation: join_step(s, e).1->Ok_0.generation, reason },
            );
            &&& r.1 == Some(SessionEvent::JoinFailed(reason))
            &&& r.0.endpoint->0.state == ConnectionState::Idle
            &&& r.0.app_state == s.app_state
        }),
{
}

} // verus!
