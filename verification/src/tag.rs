//! Route tags: digests that identify a directed pair.

use soroban_sdk::xdr::ToXdr;
use soroban_sdk::Bytes;
use soroban_sdk::Env;
use vstd::prelude::*;
use crate::ident::is_symbol;
use crate::ident::Symbol;
use crate::router::StableRouteRouter;

verus! {

/// The host environment of `soroban_sdk`, opaque here.
#[verifier::external_type_specification]
#[verifier::external_body]
pub struct ExEnv(soroban_sdk::Env);

/// The XDR encoding of a symbol: the 32-bit type tag 15, the 32-bit length and
/// the characters, filled up with zeros to a multiple of four bytes. Numbers
/// are big-endian. It is the encoding only of texts that [`is_symbol`] admits.
pub open spec fn symbol_xdr(text: Seq<char>) -> Seq<u8> {
    seq![0u8, 0u8, 0u8, 15u8, 0u8, 0u8, 0u8, text.len() as u8] + text.map_values(|c: char| c as u8)
        + Seq::new(((4 - text.len() % 4) % 4) as nat, |i: int| 0u8)
}

/// What a route tag is the digest of: the source, then the destination.
pub open spec fn tag_preimage(source: Seq<char>, destination: Seq<char>) -> Seq<u8> {
    symbol_xdr(source) + symbol_xdr(destination)
}

/// The Keccak-256 digest of `data`.
pub uninterp spec fn keccak256_digest(data: Seq<u8>) -> Seq<u8>;

/// `ToXdr::to_xdr` of `soroban_sdk`, on the symbol that `soroban_sdk::Symbol::new`
/// makes of the text: claimed to be the XDR encoding of the symbol as a contract
/// value. `Symbol::new` panics on a text that is not a symbol's; a host whose
/// budget is already spent stops the invocation here.
#[verifier::external_body]
fn to_xdr(env: &Env, text: &str) -> (bytes: Vec<u8>)
    requires
        is_symbol(text@),
    ensures
        bytes@ == symbol_xdr(text@),
{
    soroban_sdk::Symbol::new(env, text).to_xdr(env).to_alloc_vec()
}

/// `Crypto::keccak256` of `soroban_sdk`: claimed to depend on the bytes alone.
/// The host meters the work, so only short inputs are handed to it; a host
/// whose budget is already spent stops the invocation here.
#[verifier::external_body]
fn keccak256(env: &Env, data: &Vec<u8>) -> (digest: [u8; 32])
    requires
        data@.len() <= 128,
    ensures
        digest@ == keccak256_digest(data@),
{
    env.crypto().keccak256(&Bytes::from_slice(env, data.as_slice())).to_array()
}

impl StableRouteRouter {
    /// Identifier of the directed pair: the Keccak-256 digest of the XDR
    /// encodings of source and destination, in this order.
    pub fn route_tag(env: &Env, source: Symbol, destination: Symbol) -> (tag: [u8; 32])
        ensures
            tag@ == keccak256_digest(tag_preimage(source@, destination@)),
    {
        let mut preimage = to_xdr(env, source.as_str());
        let mut tail = to_xdr(env, destination.as_str());
        preimage.append(&mut tail);
        keccak256(env, &preimage)
    }
}

} // verus!
