//! Sign-in decisions: checking what the user typed, reading the verify
//! reply, and the password-free ("solo") sign-in steps. The HTTP calls,
//! the keychain and the config file are the caller's part.

use vstd::prelude::*;

use crate::numfmt::decimal;
use crate::search::trim;

verus! {

/// The server used when no configuration exists yet.
pub const DEFAULT_SERVER_URL: &'static str = "http://127.0.0.1:50080";

/// The profile used when no configuration exists yet.
pub const DEFAULT_PROFILE: &'static str = "octos";

fn trimmed(s: &str) -> (r: String)
    ensures
        r@ == trim(s@),
{
    let c = crate::text::chars_of(s);
    let (a, b) = crate::search::trim_range(c.as_slice());
    let v = crate::text::range_vec(c.as_slice(), a, b);
    crate::text::string_of(v.as_slice())
}

fn has_char(s: &str, c: char) -> (r: bool)
    ensures
        r == s@.contains(c),
{
    let v = crate::text::chars_of(s);
    let mut i: usize = 0;
    while i < v.len()
        invariant
            i <= v@.len(),
            v@ == s@,
            forall|j: int| 0 <= j < i ==> v@[j] != c,
        decreases v@.len() - i,
    {
        if v[i] == c {
            return true;
        }
        i += 1;
    }
    false
}

/// Step 1: the profile id, trimmed; it must not be blank.
pub fn check_profile_id(input: &str) -> (r: Result<String, String>)
    ensures
        match r {
            Ok(p) => trim(input@).len() > 0 && p@ == trim(input@),
            Err(e) => trim(input@).len() == 0 && e@ == "Profile ID is required"@,
        },
{
    let t = trimmed(input);
    if t.as_str().is_empty() {
        Err("Profile ID is required".to_owned())
    } else {
        Ok(t)
    }
}

/// Step 2: the email, trimmed; it must hold an `@`, and a server must be
/// configured.
pub fn check_send_code(email: &str, has_server: bool) -> (r: Result<String, String>)
    ensures
        match r {
            Ok(e) => trim(email@).len() > 0 && trim(email@).contains('@') && has_server && e@ == trim(
                email@,
            ),
            Err(m) => if trim(email@).len() == 0 || !trim(email@).contains('@') {
                m@ == "Enter a valid email address"@
            } else {
                !has_server && m@ == "No server configured (Step 1)"@
            },
        },
{
    let t = trimmed(email);
    if t.as_str().is_empty() || !has_char(t.as_str(), '@') {
        return Err("Enter a valid email address".to_owned());
    }
    if !has_server {
        return Err("No server configured (Step 1)".to_owned());
    }
    Ok(t)
}

/// The first complaint about a verify request, in the order the form
/// checks them.
pub open spec fn verify_complaint(code: Seq<char>, has_server: bool, has_profile: bool, has_email: bool) -> Option<
    Seq<char>,
> {
    if trim(code).len() == 0 {
        Some("Enter the verification code"@)
    } else if !has_server {
        Some("No server configured (Step 1)"@)
    } else if !has_profile {
        Some("No profile id configured (Step 1)"@)
    } else if !has_email {
        Some("Send a code first"@)
    } else {
        None
    }
}

/// Step 3: the code, trimmed, once server, profile and email are known.
pub fn check_verify(code: &str, has_server: bool, has_profile: bool, has_email: bool) -> (r: Result<
    String,
    String,
>)
    ensures
        match r {
            Ok(c) => verify_complaint(code@, has_server, has_profile, has_email) is None && c@ == trim(code@),
            Err(m) => verify_complaint(code@, has_server, has_profile, has_email) == Some(m@),
        },
{
    let t = trimmed(code);
    if t.as_str().is_empty() {
        return Err("Enter the verification code".to_owned());
    }
    if !has_server {
        return Err("No server configured (Step 1)".to_owned());
    }
    if !has_profile {
        return Err("No profile id configured (Step 1)".to_owned());
    }
    if !has_email {
        return Err("Send a code first".to_owned());
    }
    Ok(t)
}

/// The verify reply: the bearer token when the server accepted the code.
pub fn verify_outcome(ok: bool, message: Option<String>, token: Option<String>) -> (r: Result<String, String>)
    ensures
        !ok ==> (r matches Err(m) && m@ == match message {
            Some(x) => x@,
            None => "Server rejected the code"@,
        }),
        ok ==> match token {
            Some(t) => r == Ok::<String, String>(t),
            None => r matches Err(m) && m@ == "Server returned ok=true but no token"@,
        },
{
    if !ok {
        return Err(
            match message {
                Some(m) => m,
                None => "Server rejected the code".to_owned(),
            },
        );
    }
    match token {
        Some(t) => Ok(t),
        None => Err("Server returned ok=true but no token".to_owned()),
    }
}

/// What the solo sign-in does after the first request's status.
pub enum SoloStep {
    /// Signed in: read the token from the reply.
    ReadToken,
    /// No solo owner yet: create one.
    CreateOwner,
    /// Give up with this message.
    Fail(String),
}

pub fn solo_step(status: u16) -> (r: SoloStep)
    ensures
        status == 200 ==> r is ReadToken,
        status == 404 ==> r is CreateOwner,
        status == 403 ==> (r matches SoloStep::Fail(m) && m@ == "Solo sign-in is disabled on this server"@),
        status != 200 && status != 404 && status != 403 ==> (r matches SoloStep::Fail(m) && m@
            == "solo sign-in: HTTP "@ + decimal(status as nat)),
{
    if status == 200 {
        SoloStep::ReadToken
    } else if status == 404 {
        SoloStep::CreateOwner
    } else if status == 403 {
        SoloStep::Fail("Solo sign-in is disabled on this server".to_owned())
    } else {
        let digits = crate::numfmt::decimal_chars(status as u64);
        let d = crate::text::string_of(digits.as_slice());
        let mut m = "solo sign-in: HTTP ".to_owned();
        crate::text::append_str(&mut m, d.as_str());
        SoloStep::Fail(m)
    }
}

/// The outcome of the request that creates the solo owner, from its HTTP
/// status and that status's reason phrase (as the status is displayed:
/// `404 Not Found`): any 2xx status goes on, any other fails.
pub fn solo_create_outcome(status: u16, reason: &str) -> (r: Result<(), String>)
    ensures
        (200 <= status < 300) == r is Ok,
        r matches Err(m) ==> m@ == "solo create: HTTP "@ + decimal(status as nat) + " "@ + reason@,
{
    if 200 <= status && status < 300 {
        return Ok(());
    }
    let digits = crate::numfmt::decimal_chars(status as u64);
    let d = crate::text::string_of(digits.as_slice());
    let mut m = "solo create: HTTP ".to_owned();
    crate::text::append_str(&mut m, d.as_str());
    crate::text::append_str(&mut m, " ");
    crate::text::append_str(&mut m, reason);
    Err(m)
}

/// The email a created solo owner gets: `<profile>@octos.local`.
pub fn solo_create_email(profile: &str) -> (r: String)
    ensures
        r@ == profile@ + "@octos.local"@,
{
    let mut r = profile.to_owned();
    crate::text::append_str(&mut r, "@octos.local");
    r
}

/// The identity to adopt after solo sign-in: the existing owner's id, else
/// the created owner's profile, else the profile that was asked for.
pub fn solo_owner(user_id: Option<String>, created_profile: Option<String>, fallback: &str) -> (r: String)
    ensures
        r@ == match user_id {
            Some(u) => u@,
            None => match created_profile {
                Some(p) => p@,
                None => fallback@,
            },
        },
{
    match user_id {
        Some(u) => u,
        None => match created_profile {
            Some(p) => p,
            None => fallback.to_owned(),
        },
    }
}

/// What the version probe finds questionable: a version outside `0.x` and
/// `1.x`, and a service other than `octos`.
pub fn version_warnings(version: Option<&str>, service: Option<&str>) -> (r: (bool, bool))
    ensures
        r.0 == match version {
            Some(v) => !crate::search::starts_with(v@, "0."@) && !crate::search::starts_with(v@, "1."@),
            None => false,
        },
        r.1 == match service {
            Some(s) => s@ != "octos"@,
            None => false,
        },
{
    let bad_version = match version {
        Some(v) => {
            let c = crate::text::chars_of(v);
            let zero = crate::text::chars_of("0.");
            let one = crate::text::chars_of("1.");
            !crate::search::matches_at_exec(c.as_slice(), zero.as_slice(), 0)
                && !crate::search::matches_at_exec(c.as_slice(), one.as_slice(), 0)
        },
        None => false,
    };
    let wrong_service = match service {
        Some(s) => !crate::text::str_eq(s, "octos"),
        None => false,
    };
    (bad_version, wrong_service)
}

/// The working directory sent with `session/open`: none for the root
/// directory, which the server's workspace policy rejects.
pub fn workspace_cwd(dir: Option<String>) -> (r: Option<String>)
    ensures
        r == match dir {
            Some(d) => if d@ == "/"@ {
                None
            } else {
                Some(d)
            },
            None => None,
        },
{
    match dir {
        Some(d) => if crate::text::str_eq(d.as_str(), "/") {
            None
        } else {
            Some(d)
        },
        None => None,
    }
}

} // verus!
