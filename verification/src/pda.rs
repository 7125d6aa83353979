use anchor_lang::prelude::Pubkey;
use vstd::prelude::*;

use crate::state::Address;

verus! {

/// The address of the exchange program,
/// `833pSHchW8AWggrvx8394HHkH1cMHxdyYcDro8ABYUXC` in base 58.
pub const GIGADEX_PROGRAM_ID: [u8; 32] = [
    104, 136, 40, 1, 61, 34, 253, 127, 72, 5, 154, 121, 233, 2, 121, 249, 237, 7, 114, 68, 219, 56,
    236, 191, 83, 91, 25, 204, 73, 182, 149, 123,
];

/// `market_auth_pda_seed` in ASCII.
pub const MARKET_AUTH_PDA_SEED: [u8; 20] = [
    109, 97, 114, 107, 101, 116, 95, 97, 117, 116, 104, 95, 112, 100, 97, 95, 115, 101, 101, 100,
];

/// `fee_mod_pda_seed` in ASCII.
pub const FEE_MOD_PDA_SEED: [u8; 16] = [
    102, 101, 101, 95, 109, 111, 100, 95, 112, 100, 97, 95, 115, 101, 101, 100,
];

/// `additional_pda_seed` in ASCII.
pub const ADDITIONAL_PDA_SEED: [u8; 19] = [
    97, 100, 100, 105, 116, 105, 111, 110, 97, 108, 95, 112, 100, 97, 95, 115, 101, 101, 100,
];

/// The address that the ledger derives for `program` from the seeds `first`
/// and `second`, where it finds one.
pub uninterp spec fn program_address(first: Seq<u8>, second: Seq<u8>, program: Seq<u8>) -> Option<
    Seq<u8>,
>;

/// `Pubkey::try_find_program_address` with two seeds: the address it finds
/// is a function of the seeds and the program alone, and it finds none
/// rather than fail.
#[verifier::external_body]
fn find_program_address(first: &[u8], second: &[u8], program: &[u8; 32]) -> (r: Option<Address>)
    ensures
        r is Some == program_address(first@, second@, program@) is Some,
        r is Some ==> r->Some_0@ == program_address(first@, second@, program@)->Some_0,
{
    let program_id = Pubkey::new_from_array(*program);
    match Pubkey::try_find_program_address(&[first, second], &program_id) {
        Some((address, _)) => Some(Address { bytes: address.to_bytes() }),
        None => None,
    }
}

/// The address derived for the exchange program from a market's address and
/// `seed`.
pub open spec fn market_pda(market_address: Address, seed: Seq<u8>) -> Option<Seq<u8>> {
    program_address(market_address@, seed, GIGADEX_PROGRAM_ID@)
}

/// Whether `found` is the address `derived`, or none where none was derived.
pub open spec fn is_derived(found: Option<Address>, derived: Option<Seq<u8>>) -> bool {
    match found {
        Some(address) => derived == Some(address@),
        None => derived is None,
    }
}

/// The authority of a market: the address derived from the market's address
/// and the authority seed.
pub fn get_market_auth_pda(market_address: Address) -> (r: Option<Address>)
    ensures
        is_derived(r, market_pda(market_address, MARKET_AUTH_PDA_SEED@)),
{
    let seed = MARKET_AUTH_PDA_SEED;
    find_program_address(market_address.bytes.as_slice(), seed.as_slice(), &GIGADEX_PROGRAM_ID)
}

/// The auxiliary configuration account of a market: the address derived from
/// the market's address and the auxiliary seed.
pub fn get_additional_pda(market_address: Address) -> (r: Option<Address>)
    ensures
        is_derived(r, market_pda(market_address, ADDITIONAL_PDA_SEED@)),
{
    let seed = ADDITIONAL_PDA_SEED;
    find_program_address(market_address.bytes.as_slice(), seed.as_slice(), &GIGADEX_PROGRAM_ID)
}

/// The fee account of a market: the address derived from the market's
/// address and the fee seed.
pub fn get_fee_mod(market_address: Address) -> (r: Option<Address>)
    ensures
        is_derived(r, market_pda(market_address, FEE_MOD_PDA_SEED@)),
{
    let seed = FEE_MOD_PDA_SEED;
    find_program_address(market_address.bytes.as_slice(), seed.as_slice(), &GIGADEX_PROGRAM_ID)
}

} // verus!
