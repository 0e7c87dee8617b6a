//! Request classification for the statistics middleware: admin traffic is
//! exempt from tracking, and an outcome counts as a success when the status
//! is in the 2xx/3xx range.

use vstd::prelude::*;
use crate::auth::bytes_eq;

verus! {

pub open spec fn admin_prefix() -> Seq<u8> {
    seq!['/' as u8, 'a' as u8, 'd' as u8, 'm' as u8, 'i' as u8, 'n' as u8]
}

pub open spec fn api_admin_prefix() -> Seq<u8> {
    seq![
        '/' as u8,
        'a' as u8,
        'p' as u8,
        'i' as u8,
        '/' as u8,
        'a' as u8,
        'd' as u8,
        'm' as u8,
        'i' as u8,
        'n' as u8,
    ]
}

pub open spec fn starts_with(s: Seq<u8>, prefix: Seq<u8>) -> bool {
    s.len() >= prefix.len() && s.take(prefix.len() as int) == prefix
}

/// Paths under `/admin` or `/api/admin` bypass the statistics middleware.
pub open spec fn spec_is_admin_path(path: Seq<u8>) -> bool {
    starts_with(path, admin_prefix()) || starts_with(path, api_admin_prefix())
}

fn starts_with_exec(s: &[u8], prefix: &[u8]) -> (r: bool)
    ensures
        r == starts_with(s@, prefix@),
{
    if s.len() < prefix.len() {
        return false;
    }
    let head = &s[0..prefix.len()];
    assert(head@ == s@.take(prefix@.len() as int));
    bytes_eq(head, prefix)
}

fn admin_prefix_bytes() -> (v: Vec<u8>)
    ensures
        v@ == admin_prefix(),
{
    let mut v: Vec<u8> = Vec::new();
    v.push('/' as u8);
    v.push('a' as u8);
    v.push('d' as u8);
    v.push('m' as u8);
    v.push('i' as u8);
    v.push('n' as u8);
    assert(v@ =~= admin_prefix());
    v
}

fn api_admin_prefix_bytes() -> (v: Vec<u8>)
    ensures
        v@ == api_admin_prefix(),
{
    let mut v: Vec<u8> = Vec::new();
    v.push('/' as u8);
    v.push('a' as u8);
    v.push('p' as u8);
    v.push('i' as u8);
    v.push('/' as u8);
    v.push('a' as u8);
    v.push('d' as u8);
    v.push('m' as u8);
    v.push('i' as u8);
    v.push('n' as u8);
    assert(v@ =~= api_admin_prefix());
    v
}

/// Whether a request path belongs to the admin surface (given as the raw
/// path octets).
pub fn is_admin_path(path: &[u8]) -> (r: bool)
    ensures
        r == spec_is_admin_path(path@),
{
    let a = admin_prefix_bytes();
    if starts_with_exec(path, a.as_slice()) {
        return true;
    }
    let b = api_admin_prefix_bytes();
    starts_with_exec(path, b.as_slice())
}

pub open spec fn spec_success(status: u16) -> bool {
    200 <= status < 400
}

/// Outcome classification recorded by the statistics middleware.
pub fn classify_success(status: u16) -> (r: bool)
    ensures
        r == spec_success(status),
{
    200 <= status && status < 400
}

} // verus!
