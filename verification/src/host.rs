use vstd::prelude::*;
use soroban_sdk::Env;
use crate::types::Hash32;

verus! {

/// The host environment of a contract invocation.
#[verifier::external_type_specification]
#[verifier::external_body]
pub struct ExEnv(soroban_sdk::Env);

/// The SHA-256 digest of `bytes`.
pub uninterp spec fn sha256_of(bytes: Seq<u8>) -> Seq<u8>;

/// Calls `soroban_sdk::crypto::Crypto::sha256` (through `Env::crypto`) on
/// a copy of `bytes`. Claimed: the 32 bytes returned are the SHA-256
/// digest of `bytes`, a function of `bytes` alone, named `sha256_of`.
#[verifier::external_body]
pub(crate) fn sha256_digest(env: &Env, bytes: &Vec<u8>) -> (r: Hash32)
    ensures
        r@ == sha256_of(bytes@),
{
    let data = soroban_sdk::Bytes::from_slice(env, bytes.as_slice());
    env.crypto().sha256(&data).to_array()
}

} // verus!
