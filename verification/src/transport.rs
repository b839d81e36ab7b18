//! Plain transport-level types: bearer token, profile and file ids, the
//! per-session capability request and the connection state machine's states.

use vstd::prelude::*;

use crate::strmap::StrMap;

verus! {

/// Bearer token. Its characters are reachable only through `expose`; the
/// debug rendering never shows them.
pub struct SecretString(String);

impl SecretString {
    pub closed spec fn secret(&self) -> Seq<char> {
        self.0@
    }

    pub fn new(s: &str) -> (r: Self)
        ensures
            r.secret() == s@,
    {
        SecretString(s.to_owned())
    }

    pub fn expose(&self) -> (r: &str)
        ensures
            r@ == self.secret(),
    {
        self.0.as_str()
    }

    /// The debug rendering, which redacts the token whatever it holds.
    pub fn debug_string(&self) -> (r: String)
        ensures
            r@ == "SecretString(***)"@,
    {
        "SecretString(***)".to_owned()
    }
}

impl Clone for SecretString {
    fn clone(&self) -> (r: Self)
        ensures
            r.secret() == self.secret(),
    {
        SecretString(self.0.clone())
    }
}

/// Tenant / profile id (`X-Profile-Id` header).
pub struct ProfileId(pub String);

impl ProfileId {
    pub fn new(s: &str) -> (r: Self)
        ensures
            r.0@ == s@,
    {
        ProfileId(s.to_owned())
    }
}

/// Opaque server-issued file handle.
pub struct FileHandle(pub String);

/// Per-session capability request: flag name to requested or not.
pub struct CapabilityRequest {
    pub flags: StrMap<bool>,
}

impl Default for CapabilityRequest {
    fn default() -> (r: Self)
        ensures
            r.flags.seq().len() == 0,
    {
        CapabilityRequest { flags: StrMap::new() }
    }
}

/// Connection state machine:
/// `Idle -> Dialing -> Handshaking -> Live <-> Reconnecting -> ReplayApplying -> Live`,
/// ending in `Failed` once the cumulative reconnect budget runs out.
#[derive(Clone, Copy, Debug, PartialEq, Eq, Structural)]
pub enum ConnectionState {
    Idle,
    Dialing,
    /// Socket up, `session/open` sent, awaiting the response.
    Handshaking,
    Live,
    /// Socket dropped, backoff in progress.
    Reconnecting { attempt: u32 },
    /// Server is replaying ledgered notifications.
    ReplayApplying,
    /// Cumulative reconnect budget exhausted.
    Failed,
}

} // verus!
