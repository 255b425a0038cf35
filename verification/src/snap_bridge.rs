use vstd::prelude::*;

use crate::daemon_error::{invalid_request, is_invalid_request, DaemonError};
use crate::text::trim;
use vstd::string::StringSliceAdditionalSpecFns;

verus! {

/// The bytes that open the header line of a request to the Snap bridge,
/// "BLOCKUNTU-SNAP-BRIDGE " followed by the access token.
pub open spec fn spec_header_prefix() -> Seq<u8> {
    seq![
        66u8, 76u8, 79u8, 67u8, 75u8, 85u8, 78u8, 84u8, 85u8, 45u8, 83u8, 78u8, 65u8, 80u8, 45u8,
        66u8, 82u8, 73u8, 68u8, 71u8, 69u8, 32u8,
    ]
}

/// The index of the first line feed in `s`, if there is one.
pub open spec fn first_newline(s: Seq<u8>) -> Option<int> {
    if exists|i: int| 0 <= i < s.len() && s[i] == 10u8 {
        Some(
            choose|i: int|
                0 <= i < s.len() && s[i] == 10u8 && forall|j: int| 0 <= j < i ==> s[j] != 10u8,
        )
    } else {
        None
    }
}

/// What the bridge accepts of a request, given the token's bytes: the bytes
/// after the first line, when that line is the prefix followed by exactly the
/// token and something follows it; otherwise the error that the daemon gives.
pub open spec fn spec_bridge_payload(request: Seq<u8>, token: Seq<u8>) -> Result<
    Seq<u8>,
    Seq<char>,
> {
    match first_newline(request) {
        None => Err("Snap native bridge request has no header"@),
        Some(end) => {
            let header = request.subrange(0, end);
            let prefix = spec_header_prefix();
            if !(prefix.len() <= header.len() && header.subrange(0, prefix.len() as int)
                == prefix) {
                Err("Snap native bridge request has an invalid header"@)
            } else if header.subrange(prefix.len() as int, header.len() as int) != token {
                Err("Snap native bridge authentication failed"@)
            } else if end + 1 == request.len() {
                Err("Snap native bridge request has no JSON-RPC payload"@)
            } else {
                Ok(request.subrange(end + 1, request.len() as int))
            }
        },
    }
}

/// Compares two byte strings in time that depends only on their lengths.
pub fn constant_time_equals(left: &[u8], right: &[u8]) -> (r: bool)
    ensures
        r == (left@ == right@),
{
    if left.len() != right.len() {
        return false;
    }
    let mut difference: u8 = 0;
    let mut i: usize = 0;
    assert(left@.subrange(0, 0) =~= right@.subrange(0, 0));
    while i < left.len()
        invariant
            left@.len() == right@.len(),
            i <= left@.len(),
            (difference == 0) == (left@.subrange(0, i as int) == right@.subrange(0, i as int)),
        decreases left@.len() - i,
    {
        let a = left[i];
        let b = right[i];
        let next = difference | (a ^ b);
        assert((difference | (a ^ b)) == 0 <==> (difference == 0 && a == b)) by (bit_vector);
        proof {
            if difference == 0 && a == b {
                assert(left@.subrange(0, i + 1) =~= left@.subrange(0, i as int).push(a));
                assert(right@.subrange(0, i + 1) =~= right@.subrange(0, i as int).push(b));
            } else if a != b {
                assert(left@.subrange(0, i + 1)[i as int] == a);
                assert(right@.subrange(0, i + 1)[i as int] == b);
            } else {
                assert(left@.subrange(0, i + 1).subrange(0, i as int) =~= left@.subrange(
                    0,
                    i as int,
                ));
                assert(right@.subrange(0, i + 1).subrange(0, i as int) =~= right@.subrange(
                    0,
                    i as int,
                ));
            }
        }
        difference = next;
        i = i + 1;
    }
    assert(left@.subrange(0, left@.len() as int) =~= left@);
    assert(right@.subrange(0, right@.len() as int) =~= right@);
    difference == 0
}

/// The bytes of the header prefix.
fn header_prefix() -> (r: Vec<u8>)
    ensures
        r@ == spec_header_prefix(),
{
    let mut r: Vec<u8> = Vec::new();
    r.push(66);
    r.push(76);
    r.push(79);
    r.push(67);
    r.push(75);
    r.push(85);
    r.push(78);
    r.push(84);
    r.push(85);
    r.push(45);
    r.push(83);
    r.push(78);
    r.push(65);
    r.push(80);
    r.push(45);
    r.push(66);
    r.push(82);
    r.push(73);
    r.push(68);
    r.push(71);
    r.push(69);
    r.push(32);
    assert(r@ =~= spec_header_prefix());
    r
}

/// The bytes of `s` from `start` up to `end`.
pub fn byte_range(s: &[u8], start: usize, end: usize) -> (r: Vec<u8>)
    requires
        start <= end <= s@.len(),
    ensures
        r@ == s@.subrange(start as int, end as int),
{
    let mut r: Vec<u8> = Vec::new();
    let mut i: usize = start;
    while i < end
        invariant
            start <= i <= end <= s@.len(),
            r@ =~= s@.subrange(start as int, i as int),
        decreases end - i,
    {
        r.push(s[i]);
        i = i + 1;
    }
    r
}

/// Checks the header line of a request to the Snap bridge against the
/// expected token and returns the JSON-RPC payload that follows it.
#[verifier::spinoff_prover]
pub fn snap_native_bridge_payload(request: &[u8], expected_token: &str) -> (r: Result<
    Vec<u8>,
    DaemonError,
>)
    ensures
        match spec_bridge_payload(request@, expected_token.spec_bytes()) {
            Ok(payload) => r matches Ok(p) && p@ == payload,
            Err(message) => is_invalid_request(r, message),
        },
{
    let mut end: usize = 0;
    while end < request.len() && request[end] != 10
        invariant
            end <= request@.len(),
            forall|j: int| 0 <= j < end ==> request@[j] != 10u8,
        decreases request@.len() - end,
    {
        end = end + 1;
    }
    if end == request.len() {
        return Err(invalid_request("Snap native bridge request has no header"));
    }
    assert(first_newline(request@) == Some(end as int)) by {
        let k = choose|i: int|
            0 <= i < request@.len() && request@[i] == 10u8 && forall|j: int|
                0 <= j < i ==> request@[j] != 10u8;
        assert(request@[end as int] == 10u8);
        if k < end {
        } else if k > end {
        }
    }
    let prefix = header_prefix();
    assert(request@.subrange(0, end as int).len() == end);
    if end < prefix.len() {
        return Err(invalid_request("Snap native bridge request has an invalid header"));
    }
    let mut i: usize = 0;
    while i < prefix.len()
        invariant
            prefix@ == spec_header_prefix(),
            first_newline(request@) == Some(end as int),
            prefix@.len() <= end < request@.len(),
            i <= prefix@.len(),
            forall|j: int| 0 <= j < i ==> request@[j] == prefix@[j],
        decreases prefix@.len() - i,
    {
        if request[i] != prefix[i] {
            assert(request@.subrange(0, end as int).subrange(0, prefix@.len() as int)[i as int]
                != prefix@[i as int]);
            return Err(invalid_request("Snap native bridge request has an invalid header"));
        }
        i = i + 1;
    }
    assert(request@.subrange(0, end as int).subrange(0, prefix@.len() as int) =~= prefix@);
    let supplied = byte_range(request, prefix.len(), end);
    assert(supplied@ =~= request@.subrange(0, end as int).subrange(
        prefix@.len() as int,
        end as int,
    ));
    if !constant_time_equals(supplied.as_slice(), expected_token.as_bytes()) {
        return Err(invalid_request("Snap native bridge authentication failed"));
    }
    if end + 1 == request.len() {
        return Err(invalid_request("Snap native bridge request has no JSON-RPC payload"));
    }
    Ok(byte_range(request, end + 1, request.len()))
}

/// Whether `c` is an ASCII hexadecimal digit.
pub open spec fn is_hex_digit(c: char) -> bool {
    ('0' <= c && c <= '9') || ('a' <= c && c <= 'f') || ('A' <= c && c <= 'F')
}

/// Whether the contents of the token file, once trimmed, form a valid token:
/// exactly 64 hexadecimal digits.
pub open spec fn spec_token_valid(contents: Seq<char>) -> bool {
    trim(contents).len() == 64 && forall|i: int|
        0 <= i < 64 ==> is_hex_digit(#[trigger] trim(contents)[i])
}

/// The access token of the Snap bridge, from the contents of the token file
/// at `path`: the trimmed contents when they are exactly 64 hexadecimal
/// digits, else an invalid-request error that names the file.
pub fn snap_native_bridge_token(path: &str, contents: &str) -> (r: Result<String, DaemonError>)
    ensures
        spec_token_valid(contents@) ==> (r matches Ok(t) && t@ == trim(contents@)),
        !spec_token_valid(contents@) ==> is_invalid_request(
            r,
            "Snap native bridge token at "@ + path@ + " must be exactly 64 hexadecimal characters"@,
        ),
{
    let token = crate::text::trim_chars(crate::text::chars_of(contents).as_slice());
    let mut valid = token.len() == 64;
    let mut i: usize = 0;
    while valid && i < token.len()
        invariant
            i <= token@.len(),
            token@ == trim(contents@),
            valid ==> token@.len() == 64,
            valid ==> forall|j: int| 0 <= j < i ==> is_hex_digit(#[trigger] token@[j]),
            !valid ==> !spec_token_valid(contents@),
        decreases token@.len() - i,
    {
        let c = token[i];
        if !(('0' <= c && c <= '9') || ('a' <= c && c <= 'f') || ('A' <= c && c <= 'F')) {
            valid = false;
        }
        i = i + 1;
    }
    if !valid {
        return Err(invalid_request(
            crate::strings::concat3(
                "Snap native bridge token at ",
                path,
                " must be exactly 64 hexadecimal characters",
            ).as_str(),
        ));
    }
    Ok(crate::text::string_from_chars(token.as_slice()))
}

/// The request that carries `payload` to the Snap bridge: the header line,
/// made of the prefix and the access token, then the payload.
pub open spec fn spec_bridge_request(token: Seq<u8>, payload: Seq<u8>) -> Seq<u8> {
    spec_header_prefix() + token + seq![10u8] + payload
}

/// The request that carries `payload` to the Snap bridge.
pub fn snap_bridge_request(token: &str, payload: &[u8]) -> (r: Vec<u8>)
    ensures
        r@ == spec_bridge_request(token.spec_bytes(), payload@),
{
    let mut r = header_prefix();
    let token_bytes = token.as_bytes();
    let mut i: usize = 0;
    let ghost head = r@;
    while i < token_bytes.len()
        invariant
            i <= token_bytes@.len(),
            r@ == head + token_bytes@.take(i as int),
        decreases token_bytes@.len() - i,
    {
        r.push(token_bytes[i]);
        assert(token_bytes@.take(i + 1) =~= token_bytes@.take(i as int).push(token_bytes@[i as int]));
        i = i + 1;
    }
    r.push(10u8);
    let ghost framed = r@;
    let mut j: usize = 0;
    while j < payload.len()
        invariant
            j <= payload@.len(),
            r@ == framed + payload@.take(j as int),
        decreases payload@.len() - j,
    {
        r.push(payload[j]);
        assert(payload@.take(j + 1) =~= payload@.take(j as int).push(payload@[j as int]));
        j = j + 1;
    }
    assert(token_bytes@.take(token_bytes@.len() as int) =~= token_bytes@);
    assert(payload@.take(payload@.len() as int) =~= payload@);
    assert(r@ =~= spec_bridge_request(token.spec_bytes(), payload@));
    r
}

/// The first line feed of `s` is at `k` when `s[k]` is one and none comes
/// before it.
proof fn lemma_first_newline_at(s: Seq<u8>, k: int)
    requires
        0 <= k < s.len(),
        s[k] == 10u8,
        forall|j: int| 0 <= j < k ==> s[j] != 10u8,
    ensures
        first_newline(s) == Some(k),
{
    let end = choose|i: int| 0 <= i < s.len() && s[i] == 10u8 && forall|j: int|
        0 <= j < i ==> s[j] != 10u8;
    assert(0 <= end < s.len() && s[end] == 10u8 && forall|j: int| 0 <= j < end ==> s[j] != 10u8);
    if end < k {
        assert(s[end] != 10u8);
    }
    if end > k {
        assert(s[k] != 10u8);
    }
}

/// No byte of the header prefix is a line feed.
proof fn lemma_prefix_has_no_newline()
    ensures
        forall|j: int| 0 <= j < spec_header_prefix().len() ==> spec_header_prefix()[j] != 10u8,
{
    let p = spec_header_prefix();
    assert(p.len() == 22);
    assert forall|j: int| 0 <= j < 22 implies p[j] != 10u8 by {
        assert(p[j] >= 32u8);
    }
}

/// What the native host sends through the Snap bridge is what the daemon
/// hands on: a request framed with a token that holds no line feed, around
/// a non-empty payload, is accepted with that token and yields the payload.
pub proof fn law_bridge_accepts_what_the_host_frames(token: Seq<u8>, payload: Seq<u8>)
    requires
        !token.contains(10u8),
        payload.len() > 0,
    ensures
        spec_bridge_payload(spec_bridge_request(token, payload), token) == Ok::<Seq<u8>, Seq<char>>(
            payload,
        ),
{
    let prefix = spec_header_prefix();
    let request = spec_bridge_request(token, payload);
    let k: int = (prefix.len() + token.len()) as int;
    lemma_prefix_has_no_newline();
    assert(request[k] == 10u8);
    assert forall|j: int| 0 <= j < k implies request[j] != 10u8 by {
        if j < prefix.len() {
            assert(request[j] == prefix[j]);
        } else {
            assert(request[j] == token[j - prefix.len()]);
            if token[j - prefix.len()] == 10u8 {
                assert(token.contains(10u8));
            }
        }
    }
    lemma_first_newline_at(request, k);
    let header = request.subrange(0, k);
    assert(header.subrange(0, prefix.len() as int) =~= prefix);
    assert(header.subrange(prefix.len() as int, header.len() as int) =~= token);
    assert(request.subrange(k + 1, request.len() as int) =~= payload);
}

} // verus!
