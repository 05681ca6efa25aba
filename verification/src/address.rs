use vstd::prelude::*;

verus! {

/// What the address codec extracts from an address string: the embedded
/// public-key-hash bytes, or nothing when the string is malformed.
pub uninterp spec fn decoded_address(addr: Seq<char>) -> Option<Seq<u8>>;

/// Relies on bitcoincash_addr::Address::decode: success and payload depend
/// on the address string alone, and a malformed string comes back as an
/// error value.  One caveat keeps a guard in front of the call: handed a
/// recognized prefix, a colon and a checksum-passing tail of fewer than ten
/// symbols, the cashaddr codec indexes into an empty payload and panics, so
/// strings with such a short tail are refused here without consulting the
/// codec.  No well-formed address is that short (a base58 address decodes
/// to 25 bytes, a cashaddr tail carries at least a 20-byte hash plus an
/// 8-symbol checksum), and the base58 codec accepts no string containing a
/// colon, so the refused strings decode to an error on every path that
/// returns.
#[verifier::external_body]
pub(crate) fn decode_address(addr: &str) -> (r: Option<Vec<u8>>)
    ensures
        r is Some <==> decoded_address(addr@) is Some,
        r matches Some(v) ==> v@ == decoded_address(addr@)->Some_0,
{
    if let Some(pos) = addr.find(':') {
        if addr.len() - pos - 1 < 10 {
            return None;
        }
    }
    match bitcoincash_addr::Address::decode(addr) {
        Ok(a) => Some(a.body),
        Err(_) => None,
    }
}

} // verus!
