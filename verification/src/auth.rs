//! Admin authentication: the proxy-wide API key may arrive through a cookie,
//! a bearer header, or a query parameter. The checks here work on the raw
//! header octets; the HTTP layer hands them in as byte slices.

use vstd::prelude::*;

verus! {

/// Whitespace stripped around a cookie chunk: space and horizontal tab.
pub open spec fn is_cookie_ws(b: u8) -> bool {
    b == 32 || b == 9
}

pub open spec fn trim_front(s: Seq<u8>) -> Seq<u8>
    decreases s.len(),
{
    if s.len() > 0 && is_cookie_ws(s[0]) {
        trim_front(s.skip(1))
    } else {
        s
    }
}

pub open spec fn trim_back(s: Seq<u8>) -> Seq<u8>
    decreases s.len(),
{
    if s.len() > 0 && is_cookie_ws(s[s.len() - 1]) {
        trim_back(s.take(s.len() - 1))
    } else {
        s
    }
}

pub open spec fn trim_ws(s: Seq<u8>) -> Seq<u8> {
    trim_back(trim_front(s))
}

/// Index of the first occurrence of `b` in `s`, if any.
pub open spec fn find_first(s: Seq<u8>, b: u8) -> Option<int>
    decreases s.len(),
{
    if s.len() == 0 {
        None
    } else if s[0] == b {
        Some(0)
    } else {
        match find_first(s.skip(1), b) {
            Some(i) => Some(i + 1),
            None => None,
        }
    }
}

pub proof fn lemma_find_first(s: Seq<u8>, b: u8)
    ensures
        match find_first(s, b) {
            Some(i) => 0 <= i < s.len() && s[i] == b && forall|j: int| 0 <= j < i ==> s[j] != b,
            None => forall|j: int| 0 <= j < s.len() ==> s[j] != b,
        },
    decreases s.len(),
{
    if s.len() > 0 && s[0] != b {
        lemma_find_first(s.skip(1), b);
        match find_first(s.skip(1), b) {
            Some(i) => {
                assert forall|j: int| 0 <= j < i + 1 implies s[j] != b by {
                    if j >= 1 {
                        assert(s.skip(1)[j - 1] == s[j]);
                    }
                }
            },
            None => {
                assert forall|j: int| 0 <= j < s.len() implies s[j] != b by {
                    if j >= 1 {
                        assert(s.skip(1)[j - 1] == s[j]);
                    }
                }
            },
        }
    }
}

/// `c` written as `name=value` with exactly one `=`: the value, if the name
/// matches.
pub open spec fn kv_value(c: Seq<u8>, name: Seq<u8>) -> Option<Seq<u8>> {
    match find_first(c, '=' as u8) {
        Some(i) => {
            if c.take(i) == name && find_first(c.skip(i + 1), '=' as u8) is None {
                Some(c.skip(i + 1))
            } else {
                None
            }
        },
        None => None,
    }
}

pub open spec fn admin_cookie_name() -> Seq<u8> {
    seq![
        'a' as u8,
        'd' as u8,
        'm' as u8,
        'i' as u8,
        'n' as u8,
        '_' as u8,
        't' as u8,
        'o' as u8,
        'k' as u8,
        'e' as u8,
        'n' as u8,
    ]
}

pub open spec fn query_token_name() -> Seq<u8> {
    seq!['t' as u8, 'o' as u8, 'k' as u8, 'e' as u8, 'n' as u8]
}

pub open spec fn bearer_prefix() -> Seq<u8> {
    seq!['B' as u8, 'e' as u8, 'a' as u8, 'r' as u8, 'e' as u8, 'r' as u8, ' ' as u8]
}

/// Walks the `;`-separated cookie chunks; the first chunk that is exactly
/// `admin_token=<value>` decides, by comparing its value against the key.
pub open spec fn cookie_decision(s: Seq<u8>, key: Seq<u8>) -> Option<bool>
    decreases s.len(),
    via cookie_decision_decreases
{
    match find_first(s, ';' as u8) {
        Some(i) => {
            match kv_value(trim_ws(s.take(i)), admin_cookie_name()) {
                Some(v) => Some(v == key),
                None => cookie_decision(s.skip(i + 1), key),
            }
        },
        None => {
            match kv_value(trim_ws(s), admin_cookie_name()) {
                Some(v) => Some(v == key),
                None => None,
            }
        },
    }
}

#[via_fn]
proof fn cookie_decision_decreases(s: Seq<u8>, key: Seq<u8>) {
    lemma_find_first(s, ';' as u8);
}

pub open spec fn cookie_grants(s: Seq<u8>, key: Seq<u8>) -> bool {
    cookie_decision(s, key) == Some(true)
}

/// `Authorization: Bearer <key>`, by exact match after the prefix.
pub open spec fn bearer_grants(s: Seq<u8>, key: Seq<u8>) -> bool {
    s.len() >= 7 && s.take(7) == bearer_prefix() && s.skip(7) == key
}

/// Any `&`-separated parameter that is exactly `token=<key>` grants.
pub open spec fn query_grants(s: Seq<u8>, key: Seq<u8>) -> bool
    decreases s.len(),
    via query_grants_decreases
{
    match find_first(s, '&' as u8) {
        Some(i) => kv_value(s.take(i), query_token_name()) == Some(key) || query_grants(
            s.skip(i + 1),
            key,
        ),
        None => kv_value(s, query_token_name()) == Some(key),
    }
}

#[via_fn]
proof fn query_grants_decreases(s: Seq<u8>, key: Seq<u8>) {
    lemma_find_first(s, '&' as u8);
}

pub open spec fn opt_bytes(o: Option<&[u8]>) -> Option<Seq<u8>> {
    match o {
        Some(s) => Some(s@),
        None => None,
    }
}

/// Any of the three credential channels may present the key.
pub open spec fn spec_admin_auth(
    cookie: Option<Seq<u8>>,
    authorization: Option<Seq<u8>>,
    query: Option<Seq<u8>>,
    key: Seq<u8>,
) -> bool {
    ||| (cookie matches Some(c) && cookie_grants(c, key))
    ||| (authorization matches Some(a) && bearer_grants(a, key))
    ||| (query matches Some(q) && query_grants(q, key))
}

pub(crate) fn bytes_eq(a: &[u8], b: &[u8]) -> (r: bool)
    ensures
        r == (a@ == b@),
{
    if a.len() != b.len() {
        assert(a@.len() != b@.len());
        return false;
    }
    let n = a.len();
    let mut i: usize = 0;
    while i < n
        invariant
            n == a@.len() == b@.len(),
            0 <= i <= n,
            forall|j: int| 0 <= j < i ==> a@[j] == b@[j],
        decreases n - i,
    {
        if a[i] != b[i] {
            return false;
        }
        i += 1;
    }
    assert(a@ =~= b@);
    true
}

fn find_byte(s: &[u8], b: u8) -> (r: Option<usize>)
    ensures
        match r {
            Some(i) => find_first(s@, b) == Some(i as int),
            None => find_first(s@, b) is None,
        },
{
    let n = s.len();
    let mut i: usize = 0;
    while i < n
        invariant
            n == s@.len(),
            0 <= i <= n,
            forall|j: int| 0 <= j < i ==> s@[j] != b,
        decreases n - i,
    {
        if s[i] == b {
            proof {
                lemma_find_first(s@, b);
            }
            return Some(i);
        }
        i += 1;
    }
    proof {
        lemma_find_first(s@, b);
    }
    None
}

fn trim_slice<'a>(s: &'a [u8]) -> (r: &'a [u8])
    ensures
        r@ == trim_ws(s@),
    decreases s@.len(),
{
    if s.len() > 0 && (s[0] == 32 || s[0] == 9) {
        let r = trim_slice(&s[1..s.len()]);
        assert(s@.subrange(1, s@.len() as int) == s@.skip(1));
        r
    } else if s.len() > 0 && (s[s.len() - 1] == 32 || s[s.len() - 1] == 9) {
        let r = trim_slice(&s[0..s.len() - 1]);
        assert(s@.subrange(0, s@.len() - 1) == s@.take(s@.len() - 1));
        assert(trim_front(s@) == s@);
        assert(trim_back(trim_front(s@)) == trim_ws(s@.take(s@.len() - 1))) by {
            lemma_trim_back_step(s@);
        }
        r
    } else {
        assert(trim_ws(s@) == s@) by {
            lemma_trim_noop(s@);
        }
        s
    }
}

/// Trimming the back commutes with first removing a trailing blank, once the
/// front is clean.
proof fn lemma_trim_back_step(s: Seq<u8>)
    requires
        s.len() > 0,
        !is_cookie_ws(s[0]),
        is_cookie_ws(s[s.len() - 1]),
    ensures
        trim_back(trim_front(s)) == trim_ws(s.take(s.len() - 1)),
{
    let t = s.take(s.len() - 1);
    assert(trim_front(s) == s);
    assert(trim_back(s) == trim_back(t));
    if t.len() > 0 {
        assert(t[0] == s[0]);
        assert(trim_front(t) == t);
    } else {
        assert(trim_front(t) == t);
    }
}

proof fn lemma_trim_noop(s: Seq<u8>)
    requires
        s.len() == 0 || (!is_cookie_ws(s[0]) && !is_cookie_ws(s[s.len() - 1])),
    ensures
        trim_ws(s) == s,
{
    assert(trim_front(s) == s);
    assert(trim_back(s) == s);
}

fn admin_name_bytes() -> (v: Vec<u8>)
    ensures
        v@ == admin_cookie_name(),
{
    let mut v: Vec<u8> = Vec::new();
    v.push('a' as u8);
    v.push('d' as u8);
    v.push('m' as u8);
    v.push('i' as u8);
    v.push('n' as u8);
    v.push('_' as u8);
    v.push('t' as u8);
    v.push('o' as u8);
    v.push('k' as u8);
    v.push('e' as u8);
    v.push('n' as u8);
    assert(v@ =~= admin_cookie_name());
    v
}

fn token_name_bytes() -> (v: Vec<u8>)
    ensures
        v@ == query_token_name(),
{
    let mut v: Vec<u8> = Vec::new();
    v.push('t' as u8);
    v.push('o' as u8);
    v.push('k' as u8);
    v.push('e' as u8);
    v.push('n' as u8);
    assert(v@ =~= query_token_name());
    v
}

fn bearer_prefix_bytes() -> (v: Vec<u8>)
    ensures
        v@ == bearer_prefix(),
{
    let mut v: Vec<u8> = Vec::new();
    v.push('B' as u8);
    v.push('e' as u8);
    v.push('a' as u8);
    v.push('r' as u8);
    v.push('e' as u8);
    v.push('r' as u8);
    v.push(' ' as u8);
    assert(v@ =~= bearer_prefix());
    v
}

/// The `name=value` split of one chunk, when the name matches.
fn chunk_kv_value<'a>(c: &'a [u8], name: &[u8]) -> (r: Option<&'a [u8]>)
    ensures
        match r {
            Some(v) => kv_value(c@, name@) == Some(v@),
            None => kv_value(c@, name@) is None,
        },
{
    match find_byte(c, '=' as u8) {
        Some(i) => {
            proof {
                lemma_find_first(c@, '=' as u8);
            }
            let n = c.len();
            let before = &c[0..i];
            let after = &c[i + 1..n];
            assert(before@ == c@.take(i as int));
            assert(after@ == c@.skip(i + 1));
            if bytes_eq(before, name) {
                match find_byte(after, '=' as u8) {
                    Some(_) => None,
                    None => Some(after),
                }
            } else {
                None
            }
        },
        None => None,
    }
}

fn cookie_decision_exec(s: &[u8], key: &[u8]) -> (r: Option<bool>)
    ensures
        r == cookie_decision(s@, key@),
    decreases s@.len(),
{
    let name = admin_name_bytes();
    match find_byte(s, ';' as u8) {
        Some(i) => {
            proof {
                lemma_find_first(s@, ';' as u8);
            }
            let chunk = trim_slice(&s[0..i]);
            assert(s@.subrange(0, i as int) == s@.take(i as int));
            match chunk_kv_value(chunk, name.as_slice()) {
                Some(v) => Some(bytes_eq(v, key)),
                None => {
                    let n = s.len();
                    let rest = &s[i + 1..n];
                    assert(rest@ == s@.skip(i + 1));
                    cookie_decision_exec(rest, key)
                },
            }
        },
        None => {
            let chunk = trim_slice(&s[0..s.len()]);
            assert(s@.subrange(0, s@.len() as int) == s@);
            match chunk_kv_value(chunk, name.as_slice()) {
                Some(v) => Some(bytes_eq(v, key)),
                None => None,
            }
        },
    }
}

fn query_grants_exec(s: &[u8], key: &[u8]) -> (r: bool)
    ensures
        r == query_grants(s@, key@),
    decreases s@.len(),
{
    let name = token_name_bytes();
    match find_byte(s, '&' as u8) {
        Some(i) => {
            proof {
                lemma_find_first(s@, '&' as u8);
            }
            let chunk = &s[0..i];
            assert(chunk@ == s@.take(i as int));
            let here = match chunk_kv_value(chunk, name.as_slice()) {
                Some(v) => bytes_eq(v, key),
                None => false,
            };
            if here {
                true
            } else {
                let n = s.len();
                let rest = &s[i + 1..n];
                assert(rest@ == s@.skip(i + 1));
                query_grants_exec(rest, key)
            }
        },
        None => {
            match chunk_kv_value(s, name.as_slice()) {
                Some(v) => bytes_eq(v, key),
                None => false,
            }
        },
    }
}

fn bearer_grants_exec(s: &[u8], key: &[u8]) -> (r: bool)
    ensures
        r == bearer_grants(s@, key@),
{
    if s.len() < 7 {
        return false;
    }
    let prefix = bearer_prefix_bytes();
    let head = &s[0..7];
    assert(head@ == s@.take(7));
    if !bytes_eq(head, prefix.as_slice()) {
        return false;
    }
    let rest = &s[7..s.len()];
    assert(rest@ == s@.skip(7));
    bytes_eq(rest, key)
}

/// Admin gate over the three credential channels, in the order they are
/// checked by the middleware: cookie, bearer header, query parameter.
pub fn admin_auth_check(
    cookie: Option<&[u8]>,
    authorization: Option<&[u8]>,
    query: Option<&[u8]>,
    key: &[u8],
) -> (r: bool)
    ensures
        r == spec_admin_auth(opt_bytes(cookie), opt_bytes(authorization), opt_bytes(query), key@),
{
    let by_cookie = match cookie {
        Some(c) => {
            match cookie_decision_exec(c, key) {
                Some(b) => b,
                None => false,
            }
        },
        None => false,
    };
    if by_cookie {
        return true;
    }
    let by_bearer = match authorization {
        Some(a) => bearer_grants_exec(a, key),
        None => false,
    };
    if by_bearer {
        return true;
    }
    match query {
        Some(q) => query_grants_exec(q, key),
        None => false,
    }
}

/// The login endpoint: the presented key must equal the configured key; the
/// session token echoed back is the key itself.
pub struct LoginRequest {
    pub api_key: String,
}

pub fn admin_login_check(request: &LoginRequest, expected_key: &str) -> (r: bool)
    ensures
        r == (request.api_key@ == expected_key@),
{
    let expected: String = expected_key.to_owned();
    request.api_key == expected
}

} // verus!
