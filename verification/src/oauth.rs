//! Parsing of the OAuth loopback redirect request.
//!
//! After the user authorizes the application in a browser, the provider
//! redirects to a loopback listener. The request line has the shape
//! `GET /?state=&code={hex}&scope={scope} HTTP/1.1`; the code is
//! lowercase hexadecimal and the scope a list of lowercase words. The
//! listener also rejects peers outside the loopback and private ranges.

use vstd::prelude::*;
use vstd::string::{StringSliceAdditionalSpecFns, is_ascii, is_ascii_spec_bytes};
use crate::schema::is_lower_hex_byte;
use crate::text::{dec_str, append_u64};

verus! {

/// The ASCII bytes of a literal.
pub open spec fn lit_bytes(lit: Seq<char>) -> Seq<u8> {
    Seq::new(lit.len(), |i: int| lit[i] as u8)
}

/// Whether the bytes of `lit` stand in `s` at position `i`.
pub open spec fn matches_at(s: Seq<u8>, i: int, lit: Seq<char>) -> bool {
    &&& 0 <= i
    &&& i + lit.len() <= s.len()
    &&& forall|k: int| 0 <= k < lit.len() ==> s[i + k] == #[trigger] (lit[k] as u8)
}

/// Whether a byte may appear in a scope: lowercase letters, underscore,
/// comma and colon.
pub open spec fn is_scope_byte(b: u8) -> bool {
    (97 <= b <= 122) || b == 95 || b == 44 || b == 58
}

/// The first position at or after `i` that is not lowercase hexadecimal.
pub open spec fn hex_end(s: Seq<u8>, i: int) -> int
    decreases s.len() - i,
{
    if i < 0 || i >= s.len() || !is_lower_hex_byte(s[i]) {
        i
    } else {
        hex_end(s, i + 1)
    }
}

/// The first position at or after `i` that is not a scope byte.
pub open spec fn scope_end(s: Seq<u8>, i: int) -> int
    decreases s.len() - i,
{
    if i < 0 || i >= s.len() || !is_scope_byte(s[i]) {
        i
    } else {
        scope_end(s, i + 1)
    }
}

/// What parsing the redirect request line yields: the OAuth code and the
/// granted scope, or nothing when the line does not have the expected
/// shape (both runs must be non-empty and the HTTP version must follow).
pub open spec fn spec_parse_oauth(s: Seq<u8>) -> Option<(Seq<u8>, Seq<u8>)> {
    let p = "GET /?state=&code="@;
    let q = "&scope="@;
    let v = " HTTP/1.1"@;
    if !matches_at(s, 0, p) {
        None
    } else {
        let c0 = p.len() as int;
        let c1 = hex_end(s, c0);
        if c1 == c0 || !matches_at(s, c1, q) {
            None
        } else {
            let s0 = c1 + q.len();
            let s1 = scope_end(s, s0);
            if s1 == s0 || !matches_at(s, s1, v) {
                None
            } else {
                Some((s.subrange(c0, c1), s.subrange(s0, s1)))
            }
        }
    }
}

/// The redirect request, parsed.
pub struct OauthRequest {
    /// The OAuth code, lowercase hexadecimal.
    pub code: Vec<u8>,
    /// The granted scope.
    pub scope: Vec<u8>,
}

/// Checks whether the literal's bytes stand in `buf` at position `i`.
fn starts_with_lit(buf: &[u8], i: usize, lit: &str) -> (r: bool)
    requires
        is_ascii(lit),
        i <= buf@.len(),
    ensures
        r == matches_at(buf@, i as int, lit@),
{
    proof {
        is_ascii_spec_bytes(lit);
    }
    let blen = buf.len();
    let lb = lit.as_bytes();
    if blen - i < lb.len() {
        return false;
    }
    let mut k: usize = 0;
    let n = lb.len();
    while k < n
        invariant
            is_ascii(lit),
            n == lb@.len(),
            lb@ == lit.spec_bytes(),
            lb@ =~= Seq::new(lit@.len(), |t: int| lit@[t] as u8),
            i + n <= buf@.len(),
            buf@.len() <= usize::MAX,
            k <= n,
            forall|t: int| 0 <= t < k ==> buf@[i + t] == #[trigger] (lit@[t] as u8),
        decreases n - k,
    {
        if buf[i + k] != lb[k] {
            proof {
                assert(lb@[k as int] == lit@[k as int] as u8);
            }
            return false;
        }
        proof {
            assert(buf@[i + k] == lb@[k as int]);
            assert(lb@[k as int] == lit@[k as int] as u8);
        }
        k = k + 1;
    }
    true
}

/// Finds the end of the lowercase hexadecimal run starting at `i`.
fn hex_run_end(buf: &[u8], i: usize) -> (r: usize)
    requires
        i <= buf@.len(),
    ensures
        r == hex_end(buf@, i as int),
        i <= r <= buf@.len(),
{
    let mut j = i;
    let n = buf.len();
    while j < n
        invariant
            i <= j <= n,
            n == buf@.len(),
            hex_end(buf@, i as int) == hex_end(buf@, j as int),
        decreases n - j,
    {
        let b = buf[j];
        if !((48 <= b && b <= 57) || (97 <= b && b <= 102)) {
            return j;
        }
        j = j + 1;
    }
    j
}

/// Finds the end of the scope-byte run starting at `i`.
fn scope_run_end(buf: &[u8], i: usize) -> (r: usize)
    requires
        i <= buf@.len(),
    ensures
        r == scope_end(buf@, i as int),
        i <= r <= buf@.len(),
{
    let mut j = i;
    let n = buf.len();
    while j < n
        invariant
            i <= j <= n,
            n == buf@.len(),
            scope_end(buf@, i as int) == scope_end(buf@, j as int),
        decreases n - j,
    {
        let b = buf[j];
        if !((97 <= b && b <= 122) || b == 95 || b == 44 || b == 58) {
            return j;
        }
        j = j + 1;
    }
    j
}

/// Copies the byte range `[a, b)` out of the buffer.
fn copy_range(buf: &[u8], a: usize, b: usize) -> (r: Vec<u8>)
    requires
        a <= b <= buf@.len(),
    ensures
        r@ == buf@.subrange(a as int, b as int),
{
    let mut out: Vec<u8> = Vec::new();
    let mut j = a;
    while j < b
        invariant
            a <= j <= b <= buf@.len(),
            out@ =~= buf@.subrange(a as int, j as int),
        decreases b - j,
    {
        out.push(buf[j]);
        proof {
            assert(out@ =~= buf@.subrange(a as int, j + 1));
        }
        j = j + 1;
    }
    out
}

/// Parses the redirect request line: `None` exactly when the buffer does
/// not begin with a well-shaped request.
pub fn parse_oauth_request(buf: &[u8]) -> (r: Option<OauthRequest>)
    ensures
        match r {
            Some(o) => spec_parse_oauth(buf@) == Some((o.code@, o.scope@)),
            None => spec_parse_oauth(buf@) is None,
        },
{
    proof {
        reveal_strlit("GET /?state=&code=");
        reveal_strlit("&scope=");
        reveal_strlit(" HTTP/1.1");
    }
    let blen = buf.len();
    if !starts_with_lit(buf, 0, "GET /?state=&code=") {
        return None;
    }
    let c0: usize = 18;
    proof {
        assert("GET /?state=&code="@.len() == 18);
    }
    let c1 = hex_run_end(buf, c0);
    if c1 == c0 {
        return None;
    }
    if !starts_with_lit(buf, c1, "&scope=") {
        return None;
    }
    let s0 = c1 + 7;
    proof {
        assert("&scope="@.len() == 7);
    }
    let s1 = scope_run_end(buf, s0);
    if s1 == s0 {
        return None;
    }
    if !starts_with_lit(buf, s1, " HTTP/1.1") {
        return None;
    }
    let code = copy_range(buf, c0, c1);
    let scope = copy_range(buf, s0, s1);
    Some(OauthRequest { code, scope })
}

/// Checks whether the granted scope is exactly the one the application
/// asked for: `read,activity:read_all`.
pub fn scope_is_expected(scope: &[u8]) -> (r: bool)
    ensures
        r == (scope@ == lit_bytes("read,activity:read_all"@)),
{
    proof {
        reveal_strlit("read,activity:read_all");
    }
    let r = starts_with_lit(scope, 0, "read,activity:read_all") && scope.len() == 22;
    proof {
        assert("read,activity:read_all"@.len() == 22);
        if r {
            assert(scope@ =~= lit_bytes("read,activity:read_all"@));
        } else {
            if scope@ == lit_bytes("read,activity:read_all"@) {
                assert(matches_at(scope@, 0, "read,activity:read_all"@));
            }
        }
    }
    r
}

/// Whether a peer may complete the OAuth exchange: only IPv4 peers from
/// the loopback or private ranges.
pub fn is_authorized_peer(a: u8, b: u8, c: u8, d: u8, is_v6: bool) -> (r: bool)
    ensures
        r == (!is_v6 && (a == 127 || a == 10 || (a == 172 && 16 <= b < 32)
            || (a == 192 && b == 168))),
{
    if is_v6 {
        return false;
    }
    a == 127 || a == 10 || (a == 172 && 16 <= b && b < 32) || (a == 192 && b == 168)
}

/// The authorization URL the user is sent to, for the given application
/// and redirect port.
pub open spec fn spec_authorize_url(client_id: Seq<char>, port: u16) -> Seq<char> {
    "https://www.strava.com/oauth/authorize?client_id="@ + client_id
        + "&redirect_uri=http%3A%2F%2F127.0.0.1%3A"@ + dec_str(port as nat)
        + "&response_type=code&approval_prompt=auto&scope=read,activity:read_all"@
}

/// Builds the authorization URL for the given application and port.
pub fn authorize_url(client_id: &str, port: u16) -> (r: String)
    ensures
        r@ == spec_authorize_url(client_id@, port),
{
    let mut s = String::new();
    s.append("https://www.strava.com/oauth/authorize?client_id=");
    s.append(client_id);
    s.append("&redirect_uri=http%3A%2F%2F127.0.0.1%3A");
    append_u64(&mut s, port as u64);
    s.append("&response_type=code&approval_prompt=auto&scope=read,activity:read_all");
    proof {
        assert(s@ =~= spec_authorize_url(client_id@, port));
    }
    s
}

} // verus!
