use vstd::prelude::*;

use crate::access::{protected_access_closed_error, spec_protected_access_mode_description, ProtectedAccessMode};
use crate::daemon_error::DaemonError;
use crate::strings::{concat3, owned, str_equal};
use crate::text::{
    chars_of, i64_to_decimal, lines, signed_decimal, split_lines, string_from_chars, trim, trim_chars,
    views,
};

verus! {

/// The SHA-256 digest of `data`.
pub uninterp spec fn sha256_digest(data: Seq<u8>) -> Seq<u8>;

/// Calls sha2's `Sha256::digest` (through the `Digest` trait); the digest is
/// named, and it has 32 bytes, as the output type `GenericArray<u8, U32>`
/// fixes.
#[verifier::external_body]
fn sha256(data: &[u8]) -> (r: Vec<u8>)
    ensures
        r@ == sha256_digest(data@),
        r@.len() == 32,
{
    <sha2::Sha256 as sha2::Digest>::digest(data).to_vec()
}

/// The lower-case hexadecimal digit of `n`, for `n` below 16.
pub open spec fn hex_digit(n: int) -> char {
    if n < 10 {
        ((48 + n) as u8) as char
    } else {
        ((87 + n) as u8) as char
    }
}

/// Bytes in lower-case hexadecimal, two digits each, as `{:x}` writes a
/// digest.
pub open spec fn lower_hex(bytes: Seq<u8>) -> Seq<char>
    decreases bytes.len(),
{
    if bytes.len() == 0 {
        seq![]
    } else {
        lower_hex(bytes.drop_last()) + seq![
            hex_digit(bytes.last() as int / 16),
            hex_digit(bytes.last() as int % 16),
        ]
    }
}

fn hex_char(n: u8) -> (r: char)
    requires
        n < 16,
    ensures
        r == hex_digit(n as int),
{
    if n < 10 {
        (48 + n) as char
    } else {
        (87 + n) as char
    }
}

/// The bytes hashed for a credential: the salt, a zero byte, the phrase.
pub open spec fn credential_message(salt: Seq<char>, phrase: Seq<char>) -> Seq<u8> {
    vstd::utf8::encode_utf8(salt) + seq![0u8] + vstd::utf8::encode_utf8(phrase)
}

/// The stored form of a Tier 1 edit pass phrase: the SHA-256 digest of the
/// salt, a zero byte and the phrase, in lower-case hexadecimal.
pub fn tier1_edit_credential_hash(salt: &str, phrase: &str) -> (r: String)
    ensures
        r@ == lower_hex(sha256_digest(credential_message(salt@, phrase@))),
{
    let mut message: Vec<u8> = Vec::new();
    let salt_bytes = salt.as_bytes();
    let phrase_bytes = phrase.as_bytes();
    let mut i: usize = 0;
    while i < salt_bytes.len()
        invariant
            i <= salt_bytes@.len(),
            message@ == salt_bytes@.take(i as int),
        decreases salt_bytes@.len() - i,
    {
        message.push(salt_bytes[i]);
        assert(salt_bytes@.take(i + 1) =~= salt_bytes@.take(i as int).push(salt_bytes@[i as int]));
        i = i + 1;
    }
    message.push(0u8);
    let ghost head = message@;
    let mut j: usize = 0;
    while j < phrase_bytes.len()
        invariant
            j <= phrase_bytes@.len(),
            message@ == head + phrase_bytes@.take(j as int),
        decreases phrase_bytes@.len() - j,
    {
        message.push(phrase_bytes[j]);
        assert(phrase_bytes@.take(j + 1) =~= phrase_bytes@.take(j as int).push(phrase_bytes@[j as int]));
        j = j + 1;
    }
    assert(salt_bytes@.take(salt_bytes@.len() as int) =~= salt_bytes@);
    assert(phrase_bytes@.take(phrase_bytes@.len() as int) =~= phrase_bytes@);
    assert(message@ =~= credential_message(salt@, phrase@));
    let digest = sha256(message.as_slice());
    hex_string(digest.as_slice())
}

/// Bytes in lower-case hexadecimal, two digits each.
pub fn hex_string(bytes: &[u8]) -> (r: String)
    ensures
        r@ == lower_hex(bytes@),
{
    let mut out: Vec<char> = Vec::new();
    let mut k: usize = 0;
    while k < bytes.len()
        invariant
            k <= bytes@.len(),
            out@ == lower_hex(bytes@.take(k as int)),
        decreases bytes@.len() - k,
    {
        let b = bytes[k];
        out.push(hex_char(b / 16));
        out.push(hex_char(b % 16));
        assert(bytes@.take(k + 1).drop_last() =~= bytes@.take(k as int));
        k = k + 1;
    }
    assert(bytes@.take(bytes@.len() as int) =~= bytes@);
    string_from_chars(out.as_slice())
}

/// A fresh credential salt from random bytes: the bytes in lower-case
/// hexadecimal.
pub fn credential_salt_from(random: &[u8]) -> (r: String)
    ensures
        r@ == lower_hex(random@),
{
    hex_string(random)
}

/// The token and the file contents of a package-removal lease, from random
/// bytes and the Unix time at which the lease expires: the token is the
/// bytes in lower-case hexadecimal, and the file holds the token, a space,
/// the expiry and a line break.
pub fn package_removal_lease(random: &[u8], expires_at: i64) -> (r: (String, String))
    ensures
        r.0@ == lower_hex(random@),
        r.1@ == lower_hex(random@) + " "@ + signed_decimal(expires_at as int) + "\n"@,
{
    let token = hex_string(random);
    let contents = concat3(token.as_str(), " ", i64_to_decimal(expires_at).as_str());
    let contents = concat3(contents.as_str(), "\n", "");
    proof {
        reveal_strlit("");
    }
    assert(contents@ =~= lower_hex(random@) + " "@ + signed_decimal(expires_at as int) + "\n"@);
    (token, contents)
}

/// Whether a value read from the service state is there and not empty.
pub open spec fn present(value: Option<Seq<char>>) -> bool {
    value matches Some(v) && v.len() > 0
}

/// An optional string as an optional text.
pub open spec fn opt_view(value: Option<&str>) -> Option<Seq<char>> {
    match value {
        Some(v) => Some(v@),
        None => None,
    }
}

fn is_present(value: Option<&str>) -> (r: bool)
    ensures
        r == present(opt_view(value)),
{
    match value {
        Some(v) => chars_of(v).len() > 0,
        None => false,
    }
}

/// Whether a salted hash of the pass phrase is stored: both its salt and
/// the hash, each non-empty. Without one, the edit key file is consulted.
pub fn salted_credential_stored(salt: Option<&str>, hash: Option<&str>) -> (r: bool)
    ensures
        r == (present(opt_view(salt)) && present(opt_view(hash))),
{
    is_present(salt) && is_present(hash)
}

/// Whether a Tier 1 edit credential is configured: a salted hash is stored,
/// or the edit key file holds a key.
pub fn tier1_edit_credential_configured(salt: Option<&str>, hash: Option<&str>, edit_key: Option<&str>) -> (r:
    bool)
    ensures
        r == ((present(opt_view(salt)) && present(opt_view(hash))) || edit_key is Some),
{
    salted_credential_stored(salt, hash) || edit_key.is_some()
}

/// Whether `candidate` is the Tier 1 edit pass phrase: its salted hash
/// equals the stored one; when no salted hash is stored, it equals the key
/// of the edit key file (`edit_key`, which is then consulted).
pub fn tier1_edit_credential_matches(
    salt: Option<&str>,
    hash: Option<&str>,
    edit_key: Option<&str>,
    candidate: &str,
) -> (r: bool)
    ensures
        r == if present(opt_view(salt)) && present(opt_view(hash)) {
            lower_hex(sha256_digest(credential_message(salt->0@, candidate@))) == hash->0@
        } else {
            edit_key matches Some(k) && k@ == candidate@
        },
{
    if salted_credential_stored(salt, hash) {
        match (salt, hash) {
            (Some(s), Some(h)) => {
                let computed = tier1_edit_credential_hash(s, candidate);
                str_equal(computed.as_str(), h)
            },
            _ => false,
        }
    } else {
        match edit_key {
            Some(k) => str_equal(k, candidate),
            None => false,
        }
    }
}

/// The first line of `ls` that is not blank, trimmed.
pub open spec fn first_filled_line(ls: Seq<Seq<char>>) -> Option<Seq<char>>
    decreases ls.len(),
{
    if ls.len() == 0 {
        None
    } else if trim(ls[0]).len() > 0 {
        Some(trim(ls[0]))
    } else {
        first_filled_line(ls.drop_first())
    }
}

/// The key in the contents of the edit key file: its first line that is not
/// blank, trimmed; `None` when there is none.
pub fn tier1_edit_key_from(contents: &str) -> (r: Option<String>)
    ensures
        match first_filled_line(lines(contents@)) {
            Some(k) => r matches Some(s) && s@ == k,
            None => r is None,
        },
{
    let text = chars_of(contents);
    let ls = split_lines(text.as_slice());
    let ghost all = views(ls@);
    let mut i: usize = 0;
    assert(all.skip(0) =~= all);
    while i < ls.len()
        invariant
            i <= ls@.len(),
            all == views(ls@),
            all == lines(contents@),
            first_filled_line(all.skip(i as int)) == first_filled_line(all),
        decreases ls@.len() - i,
    {
        assert(all.skip(i as int)[0] == ls@[i as int]@);
        assert(all.skip(i as int).drop_first() =~= all.skip(i + 1));
        let trimmed = trim_chars(ls[i].as_slice());
        if trimmed.len() > 0 {
            return Some(string_from_chars(trimmed.as_slice()));
        }
        i = i + 1;
    }
    assert(all.skip(i as int) =~= Seq::<Seq<char>>::empty());
    None
}

/// The checks before a Tier 1 edit unlock, in order: a pass phrase must be
/// given (blank is refused), it must match the credential, and protected
/// settings must be open (`access_open`, under `access_mode`). On success
/// the trimmed phrase is returned.
pub fn tier1_edit_unlock_check(
    phrase: &str,
    salt: Option<&str>,
    hash: Option<&str>,
    edit_key: Option<&str>,
    access_mode: ProtectedAccessMode,
    access_open: bool,
) -> (r: Result<String, DaemonError>)
    ensures
        trim(phrase@).len() == 0 ==> (r matches Err(DaemonError::InvalidRequest(m)) && m@
            == "Tier 1 credential is required"@),
        trim(phrase@).len() > 0 && !credential_matches(salt, hash, edit_key, trim(phrase@)) ==> (
        r matches Err(DaemonError::InvalidRequest(m)) && m@ == "Tier 1 edit credential does not match"@),
        trim(phrase@).len() > 0 && credential_matches(salt, hash, edit_key, trim(phrase@))
            && !access_open ==> (r matches Err(DaemonError::InvalidRequest(m)) && m@ == "Tier 1 edits"@
            + " are only available "@ + spec_protected_access_mode_description(access_mode)),
        r is Ok <==> (trim(phrase@).len() > 0 && credential_matches(salt, hash, edit_key, trim(phrase@))
            && access_open),
        r matches Ok(p) ==> p@ == trim(phrase@),
{
    let trimmed = string_from_chars(trim_chars(chars_of(phrase).as_slice()).as_slice());
    if chars_of(trimmed.as_str()).len() == 0 {
        return Err(DaemonError::InvalidRequest(owned("Tier 1 credential is required")));
    }
    if !tier1_edit_credential_matches(salt, hash, edit_key, trimmed.as_str()) {
        return Err(DaemonError::InvalidRequest(owned("Tier 1 edit credential does not match")));
    }
    if !access_open {
        return Err(protected_access_closed_error("Tier 1 edits", access_mode));
    }
    Ok(trimmed)
}

/// Whether `candidate` matches the credential, as
/// [`tier1_edit_credential_matches`] decides.
pub open spec fn credential_matches(
    salt: Option<&str>,
    hash: Option<&str>,
    edit_key: Option<&str>,
    candidate: Seq<char>,
) -> bool {
    if present(opt_view(salt)) && present(opt_view(hash)) {
        lower_hex(sha256_digest(credential_message(salt->0@, candidate))) == hash->0@
    } else {
        edit_key matches Some(k) && k@ == candidate
    }
}

/// The fewest characters a new Tier 1 pass phrase may have.
pub const MIN_TIER1_CREDENTIAL_CHARS: usize = 16;

/// The checks before a Tier 1 pass phrase is set: once trimmed it must have
/// at least 16 characters, and no credential may be configured yet. On
/// success the trimmed phrase is returned, to be hashed with a new salt.
pub fn tier1_edit_credential_setup_check(phrase: &str, already_configured: bool) -> (r: Result<
    String,
    DaemonError,
>)
    ensures
        trim(phrase@).len() < 16 ==> (r matches Err(DaemonError::InvalidRequest(m)) && m@
            == "Tier 1 credential must contain at least 16 characters"@),
        trim(phrase@).len() >= 16 && already_configured ==> (r matches Err(
            DaemonError::InvalidRequest(m),
        ) && m@ == "Tier 1 credential is already configured"@),
        r is Ok <==> (trim(phrase@).len() >= 16 && !already_configured),
        r matches Ok(p) ==> p@ == trim(phrase@),
{
    let trimmed = trim_chars(chars_of(phrase).as_slice());
    if trimmed.len() < MIN_TIER1_CREDENTIAL_CHARS {
        return Err(DaemonError::InvalidRequest(
            owned("Tier 1 credential must contain at least 16 characters"),
        ));
    }
    if already_configured {
        return Err(DaemonError::InvalidRequest(owned("Tier 1 credential is already configured")));
    }
    Ok(string_from_chars(trimmed.as_slice()))
}

} // verus!
