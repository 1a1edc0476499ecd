//! The decisions of an SSH session reset, from plain values.
//!
//! Starting the agent, opening the TCP connection, the handshake and the
//! authentication call are the runtime's work; what is decided from their
//! outcomes — which user to authenticate as, and which error to surface —
//! is pinned here.

use vstd::prelude::*;

verus! {

/// Why a session could not be established.
#[derive(Clone, Copy, Debug, PartialEq, Eq, Structural)]
pub enum SSHErrorCode {
    /// The key agent could not be started or listed no identity.
    AgentError,
    /// There is no client configuration file to look the host up in.
    FileNotFound,
    /// The host's configuration disables public-key authentication.
    PubKeyAuthenticationDisabled,
    /// The agent's identities were tried and none was accepted.
    AuthenticationFailed,
}

/// What the client configuration says about one host, as plain values.
#[derive(Clone, Debug)]
pub struct SshHostConfig {
    /// The host allows public-key authentication.
    pub pubkey_authentication: bool,
    /// The user to authenticate as.
    pub user: String,
}

/// The agent probe's outcome: a nonzero exit status means no usable agent.
pub fn agent_status(code: i32) -> (r: Result<(), SSHErrorCode>)
    ensures
        r == if code == 0 {
            Ok::<(), SSHErrorCode>(())
        } else {
            Err::<(), SSHErrorCode>(SSHErrorCode::AgentError)
        },
{
    if code != 0 {
        return Err(SSHErrorCode::AgentError);
    }
    Ok(())
}

/// Decide whom to authenticate as: the local user for the local host;
/// otherwise the user the host's configuration names, provided the
/// configuration exists and allows public keys.
pub fn auth_user(host: &String, local_username: &String, config: Option<&SshHostConfig>) -> (r:
    Result<String, SSHErrorCode>)
    ensures
        ({
            if host@ == "localhost"@ {
                match r {
                    Ok(u) => u@ == local_username@,
                    Err(_) => false,
                }
            } else {
                match config {
                    None => r == Err::<String, SSHErrorCode>(SSHErrorCode::FileNotFound),
                    Some(c) => if c.pubkey_authentication {
                        match r {
                            Ok(u) => u@ == c.user@,
                            Err(_) => false,
                        }
                    } else {
                        r == Err::<String, SSHErrorCode>(
                            SSHErrorCode::PubKeyAuthenticationDisabled,
                        )
                    },
                }
            }
        }),
{
    let local = "localhost".to_owned();
    if host.eq(&local) {
        return Ok(local_username.as_str().to_owned());
    }
    match config {
        None => Err(SSHErrorCode::FileNotFound),
        Some(c) => {
            if !c.pubkey_authentication {
                return Err(SSHErrorCode::PubKeyAuthenticationDisabled);
            }
            Ok(c.user.as_str().to_owned())
        },
    }
}

/// The authentication call's outcome: an unauthenticated session is an
/// error, not a session.
pub fn session_outcome(authenticated: bool) -> (r: Result<(), SSHErrorCode>)
    ensures
        r == if authenticated {
            Ok::<(), SSHErrorCode>(())
        } else {
            Err::<(), SSHErrorCode>(SSHErrorCode::AuthenticationFailed)
        },
{
    if !authenticated {
        return Err(SSHErrorCode::AuthenticationFailed);
    }
    Ok(())
}

} // verus!
