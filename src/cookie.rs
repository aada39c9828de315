use vstd::prelude::*;
use vstd::string::*;

verus! {

/// The name of the session cookie, shared with the code that checks it.
pub const AUTH_HEADER_NAME: &'static str = "X-Auth-Token";

/// The `Set-Cookie` value that binds `token` to the session: HttpOnly, for
/// the whole site, without expiry.
pub open spec fn cookie_of(token: Seq<char>) -> Seq<char> {
    AUTH_HEADER_NAME@ + "="@ + token + "; HttpOnly; Path=/"@
}

/// Builds the session cookie for `token`; the token is not inspected.
pub fn auth_cookie(token: &str) -> (r: String)
    ensures
        r@ == cookie_of(token@),
{
    let mut c = String::from_str(AUTH_HEADER_NAME);
    c.append("=");
    c.append(token);
    c.append("; HttpOnly; Path=/");
    c
}

} // verus!
