use std::str::FromStr;

use anchor_lang::prelude::Pubkey;
use gigadex::amm::{AccountMeta, DerivedAccounts, GigadexOBSwap, SwapParams};
use gigadex::pda::{
    get_additional_pda, get_fee_mod, get_market_auth_pda, ADDITIONAL_PDA_SEED, FEE_MOD_PDA_SEED,
    GIGADEX_PROGRAM_ID, MARKET_AUTH_PDA_SEED,
};
use gigadex::state::Address;

fn address(tag: u8) -> Address {
    Address { bytes: [tag; 32] }
}

fn program() -> Pubkey {
    Pubkey::from_str("833pSHchW8AWggrvx8394HHkH1cMHxdyYcDro8ABYUXC").unwrap()
}

fn derived(market: &Address, seed: &[u8]) -> Address {
    let (found, _) = Pubkey::find_program_address(&[&market.bytes, seed], &program());
    Address { bytes: found.to_bytes() }
}

fn market_account() -> Vec<u8> {
    let mut data = vec![0u8; 8];
    for tag in 1..=7u8 {
        data.extend_from_slice(&[tag; 32]);
    }
    data
}

#[test]
fn program_id_is_the_exchange_program() {
    assert_eq!(GIGADEX_PROGRAM_ID, program().to_bytes());
    let swap = GigadexOBSwap::from_keyed_account(address(9), &market_account()).unwrap();
    assert_eq!(swap.program_id().bytes, program().to_bytes());
}

#[test]
fn seeds_are_their_ascii_names() {
    assert_eq!(&MARKET_AUTH_PDA_SEED[..], b"market_auth_pda_seed");
    assert_eq!(&FEE_MOD_PDA_SEED[..], b"fee_mod_pda_seed");
    assert_eq!(&ADDITIONAL_PDA_SEED[..], b"additional_pda_seed");
}

#[test]
fn derived_addresses_are_the_ledgers() {
    for tag in [0u8, 1, 9, 200, 255] {
        let market = address(tag);
        assert_eq!(get_market_auth_pda(market), Some(derived(&market, b"market_auth_pda_seed")));
        assert_eq!(get_fee_mod(market), Some(derived(&market, b"fee_mod_pda_seed")));
        assert_eq!(get_additional_pda(market), Some(derived(&market, b"additional_pda_seed")));
    }
}

#[test]
fn derived_addresses_differ_by_seed_and_market() {
    let market = address(9);
    let authority = get_market_auth_pda(market).unwrap();
    let fee_mod = get_fee_mod(market).unwrap();
    let additional = get_additional_pda(market).unwrap();
    assert_ne!(authority, fee_mod);
    assert_ne!(authority, additional);
    assert_ne!(fee_mod, additional);
    assert_ne!(authority, market);
    assert_ne!(get_fee_mod(address(10)).unwrap(), fee_mod);
}

#[test]
fn label_and_account_count() {
    let swap = GigadexOBSwap::from_keyed_account(address(9), &market_account()).unwrap();
    assert_eq!(swap.label(), "GigaDex");
    assert_eq!(swap.get_accounts_len(), 32);
}

#[test]
fn accounts_to_update_are_books_fees_and_configuration() {
    let swap = GigadexOBSwap::from_keyed_account(address(9), &market_account()).unwrap();
    let accounts = swap.get_accounts_to_update().unwrap();
    assert_eq!(
        accounts,
        vec![
            address(5),
            address(6),
            derived(&address(9), b"fee_mod_pda_seed"),
            derived(&address(9), b"additional_pda_seed"),
        ]
    );
}

#[test]
fn swap_names_sixteen_accounts_in_order() {
    let mut swap = GigadexOBSwap::from_keyed_account(address(9), &market_account()).unwrap();
    swap.additional_pda.fee_receiver_wallet = address(20);
    swap.fee_mod.collection_royalty_address = address(21);
    let params = SwapParams {
        source_mint: address(7),
        user_source_token_account: address(30),
        user_destination_token_account: address(31),
        user_transfer_authority: address(32),
    };
    let metas = swap.get_swap_and_account_metas(&params, address(40), address(41)).unwrap();
    let writable = |pubkey: Address| AccountMeta { pubkey, is_signer: false, is_writable: true };
    let readonly = |pubkey: Address| AccountMeta { pubkey, is_signer: false, is_writable: false };
    let expected = vec![
        AccountMeta { pubkey: address(32), is_signer: true, is_writable: true },
        writable(address(9)),
        writable(address(2)),
        writable(address(5)),
        writable(address(6)),
        writable(address(3)),
        writable(address(4)),
        writable(address(20)),
        writable(address(21)),
        writable(derived(&address(9), b"fee_mod_pda_seed")),
        writable(derived(&address(9), b"additional_pda_seed")),
        writable(address(30)),
        writable(address(31)),
        writable(derived(&address(9), b"market_auth_pda_seed")),
        readonly(address(40)),
        readonly(address(41)),
    ];
    assert_eq!(metas, expected);

    // a swap that pays in the base mint goes to the bids
    let params = SwapParams { source_mint: address(1), ..params };
    let metas = swap.get_swap_and_account_metas(&params, address(40), address(41)).unwrap();
    assert_eq!(metas[3], writable(address(6)));
    assert_eq!(metas.len(), 16);
}

#[test]
fn swap_list_takes_the_derived_accounts_it_is_given() {
    let swap = GigadexOBSwap::from_keyed_account(address(9), &market_account()).unwrap();
    let derived_accounts =
        DerivedAccounts { fee_mod: address(50), additional: address(51), market_auth: address(52) };
    let params = SwapParams {
        source_mint: address(1),
        user_source_token_account: address(30),
        user_destination_token_account: address(31),
        user_transfer_authority: address(32),
    };
    let metas = swap.swap_account_list(&params, &derived_accounts, address(40), address(41));
    assert_eq!(metas.len(), 16);
    assert_eq!(metas[0], AccountMeta { pubkey: address(32), is_signer: true, is_writable: true });
    assert_eq!(metas[3].pubkey, address(6));
    assert_eq!(metas[9].pubkey, address(50));
    assert_eq!(metas[10].pubkey, address(51));
    assert_eq!(metas[13].pubkey, address(52));
    assert!(metas[..14].iter().all(|meta| meta.is_writable));
    assert!(metas[1..].iter().all(|meta| !meta.is_signer));
    assert_eq!(metas[14], AccountMeta { pubkey: address(40), is_signer: false, is_writable: false });
    assert_eq!(metas[15], AccountMeta { pubkey: address(41), is_signer: false, is_writable: false });
}

#[test]
fn derived_accounts_are_the_three_of_the_market() {
    let swap = GigadexOBSwap::from_keyed_account(address(9), &market_account()).unwrap();
    let found = swap.derived_accounts().unwrap();
    assert_eq!(found.fee_mod, derived(&address(9), b"fee_mod_pda_seed"));
    assert_eq!(found.additional, derived(&address(9), b"additional_pda_seed"));
    assert_eq!(found.market_auth, derived(&address(9), b"market_auth_pda_seed"));
}
