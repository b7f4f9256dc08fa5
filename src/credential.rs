//! The two ways a client authenticates: a pre-shared key or a signed token.
use vstd::prelude::*;
use crate::address::SocketAddress;
use crate::wire::{copy_range, TOKEN_MAX_BYTES};

verus! {

/// The protocol identifier that client and server builds share.
pub const PROTOCOL_ID: u64 = 0;

/// The length of a pre-shared symmetric key.
pub const KEY_BYTES: usize = 32;

/// Which kind of credential to build.
#[derive(Clone, Copy, Debug, PartialEq, Eq, Structural)]
pub enum Mechanism {
    PreSharedKey,
    SignedToken,
}

/// Why a credential could not be built.
#[derive(Clone, Copy, Debug, PartialEq, Eq, Structural)]
pub enum CredentialError {
    /// Key material that is not `KEY_BYTES` long, or token bytes that are
    /// empty or longer than a connect token.
    InvalidCredentialInput,
}

/// The authentication payload presented to open a session.
#[derive(Debug)]
pub enum Credential {
    PreSharedKey {
        server_address: SocketAddress,
        client_identity: u64,
        key: Vec<u8>,
        protocol_id: u64,
    },
    SignedToken { server_address: SocketAddress, token: Vec<u8> },
}

/// A credential as plain values.
pub enum CredentialView {
    PreSharedKey {
        server_address: SocketAddress,
        client_identity: u64,
        key: Seq<u8>,
        protocol_id: u64,
    },
    SignedToken { server_address: SocketAddress, token: Seq<u8> },
}

impl View for Credential {
    type V = CredentialView;

    open spec fn view(&self) -> CredentialView {
        match self {
            Credential::PreSharedKey { server_address, client_identity, key, protocol_id } =>
                CredentialView::PreSharedKey {
                server_address: *server_address,
                client_identity: *client_identity,
                key: key@,
                protocol_id: *protocol_id,
            },
            Credential::SignedToken { server_address, token } => CredentialView::SignedToken {
                server_address: *server_address,
                token: token@,
            },
        }
    }
}

/// The credential that `build_credential` makes of its inputs.
pub open spec fn credential_for(
    mechanism: Mechanism,
    target: SocketAddress,
    local_identity: u64,
    material: Seq<u8>,
) -> Result<CredentialView, CredentialError> {
    match mechanism {
        Mechanism::PreSharedKey => if material.len() == KEY_BYTES {
            Ok(
                CredentialView::PreSharedKey {
                    server_address: target,
                    client_identity: local_identity,
                    key: material,
                    protocol_id: PROTOCOL_ID,
                },
            )
        } else {
            Err(CredentialError::InvalidCredentialInput)
        },
        Mechanism::SignedToken => if 0 < material.len() <= TOKEN_MAX_BYTES {
            Ok(CredentialView::SignedToken { server_address: target, token: material })
        } else {
            Err(CredentialError::InvalidCredentialInput)
        },
    }
}

/// A credential result, seen through the credential's view.
pub open spec fn credential_result_view(r: Result<Credential, CredentialError>) -> Result<
    CredentialView,
    CredentialError,
> {
    match r {
        Ok(c) => Ok(c@),
        Err(e) => Err(e),
    }
}

/// The server address that a credential is meant for.
pub open spec fn credential_address(c: CredentialView) -> SocketAddress {
    match c {
        CredentialView::PreSharedKey { server_address, .. } => server_address,
        CredentialView::SignedToken { server_address, .. } => server_address,
    }
}

/// Builds the credential of the given kind for `target`: `material` is the
/// 32-byte key of a pre-shared-key credential, or the bytes of a signed token.
pub fn build_credential(
    mechanism: Mechanism,
    target: SocketAddress,
    local_identity: u64,
    material: &[u8],
) -> (r: Result<Credential, CredentialError>)
    ensures
        credential_result_view(r) == credential_for(mechanism, target, local_identity, material@),
{
    let n = material.len();
    match mechanism {
        Mechanism::PreSharedKey => {
            if n != KEY_BYTES {
                return Err(CredentialError::InvalidCredentialInput);
            }
            let key = copy_range(material, 0, n);
            assert(key@ =~= material@);
            Ok(
                Credential::PreSharedKey {
                    server_address: target,
                    client_identity: local_identity,
                    key,
                    protocol_id: PROTOCOL_ID,
                },
            )
        },
        Mechanism::SignedToken => {
            if n == 0 || n > TOKEN_MAX_BYTES {
                return Err(CredentialError::InvalidCredentialInput);
            }
            let token = copy_range(material, 0, n);
            assert(token@ =~= material@);
            Ok(Credential::SignedToken { server_address: target, token })
        },
    }
}

impl Credential {
    /// A copy of the credential.
    pub fn duplicate(&self) -> (r: Credential)
        ensures
            r@ == self@,
    {
        match self {
            Credential::PreSharedKey { server_address, client_identity, key, protocol_id } => {
                let k = copy_range(key.as_slice(), 0, key.len());
                assert(k@ =~= key@);
                Credential::PreSharedKey {
                    server_address: *server_address,
                    client_identity: *client_identity,
                    key: k,
                    protocol_id: *protocol_id,
                }
            },
            Credential::SignedToken { server_address, token } => {
                let t = copy_range(token.as_slice(), 0, token.len());
                assert(t@ =~= token@);
                Credential::SignedToken { server_address: *server_address, token: t }
            },
        }
    }

    /// The server address the credential is meant for.
    pub fn server_address(&self) -> (r: SocketAddress)
        ensures
            r == credential_address(self@),
    {
        match self {
            Credential::PreSharedKey { server_address, .. } => *server_address,
            Credential::SignedToken { server_address, .. } => *server_address,
        }
    }
}

} // verus!
