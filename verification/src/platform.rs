use vstd::prelude::*;

verus! {

/// Whether the machine that runs this code stores integers least
/// significant byte first, in vstd's terms for the endianness of the
/// executing hardware.
pub open spec fn native_little() -> bool {
    vstd::endian::endianness() is Little
}

/// Calls `u32::to_ne_bytes` on the value 1 and returns its first byte.
///
/// The standard library documents that `to_ne_bytes` gives the memory
/// representation in the target's native byte order, which is little or big
/// endian: the first byte of the value 1 is therefore 1 on a little-endian
/// machine and 0 on a big-endian one.
#[verifier::external_body]
pub fn native_order_probe() -> (r: u8)
    ensures
        r == 0 || r == 1,
        r == 1 <==> native_little(),
{
    1u32.to_ne_bytes()[0]
}

/// Whether integers are stored least significant byte first on this machine.
pub(crate) fn native_order_is_little() -> (r: bool)
    ensures
        r == native_little(),
{
    native_order_probe() == 1
}

} // verus!

verus! {

/// Calls `std::str::from_utf8` and, when the bytes are valid UTF-8, returns
/// the characters they encode.
///
/// The standard library documents that `from_utf8` fails exactly when the
/// bytes are not valid UTF-8; the characters of a valid string are the scalar
/// values that its bytes encode.
#[verifier::external_body]
pub fn utf8_chars(bytes: &[u8]) -> (r: Option<Vec<char>>)
    ensures
        r is Some <==> vstd::utf8::valid_utf8(bytes@),
        r matches Some(v) ==> v@ == vstd::utf8::decode_utf8(bytes@),
{
    std::str::from_utf8(bytes).ok().map(|s| s.chars().collect())
}

} // verus!

verus! {

/// The path that `Path::with_file_name` makes of `path` and `name`: the
/// path with its final component replaced by `name` (or `name` pushed when it
/// has none), as the standard library defines it.
pub uninterp spec fn path_with_file_name(path: Seq<char>, name: Seq<char>) -> Seq<char>;

/// Calls `Path::with_file_name` on `path`; the result is named. A path made
/// of a `str` and a `str` name is valid UTF-8 again, so no character is lost
/// in `to_string_lossy`.
#[verifier::external_body]
pub fn with_file_name(path: &str, name: &str) -> (r: String)
    ensures
        r@ == path_with_file_name(path@, name@),
{
    std::path::Path::new(path).with_file_name(name).to_string_lossy().into_owned()
}

} // verus!
