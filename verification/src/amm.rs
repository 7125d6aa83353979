use vstd::prelude::*;

use crate::error::QuoteError;
use crate::layout::{
    fits, is_additional_at, is_fee_mod_at, is_market_at, is_order_tree_at, order_tree_decodable,
    ADDITIONAL_PDA_ACCOUNT_SIZE, FEE_MOD_SIZE, MARKET_SIZE,
};
use crate::pda::{
    get_additional_pda, get_fee_mod, get_market_auth_pda, market_pda, ADDITIONAL_PDA_SEED,
    FEE_MOD_PDA_SEED, GIGADEX_PROGRAM_ID, MARKET_AUTH_PDA_SEED,
};
use crate::quote::{apply_fee, fee_split, lemma_simulate_empty_book, simulate, FEE_DENOMINATOR};
use crate::state::{AdditionalPdaAccount, Address, FeeMod, Market, OrderTree};

verus! {

/// Bytes that the ledger puts in front of every account's payload.
pub const ACCOUNT_HEADER: usize = 8;

/// A request for a quote: how much of which mint goes in.
#[derive(Clone, Copy, Debug, PartialEq, Eq)]
pub struct QuoteParams {
    pub in_amount: u64,
    pub input_mint: Address,
    pub output_mint: Address,
}

/// The answer to a quote request.
#[derive(Clone, Copy, Debug, PartialEq, Eq)]
pub struct Quote {
    /// True exactly when `out_amount` is 0.
    pub not_enough_liquidity: bool,
    pub min_in_amount: Option<u64>,
    pub min_out_amount: Option<u64>,
    pub in_amount: u64,
    /// What the taker receives after the fee.
    pub out_amount: u64,
    pub fee_amount: u64,
    pub fee_mint: Address,
}

/// The accounts of the taker in a swap.
#[derive(Clone, Copy, Debug, PartialEq, Eq)]
pub struct SwapParams {
    pub source_mint: Address,
    pub user_source_token_account: Address,
    pub user_destination_token_account: Address,
    pub user_transfer_authority: Address,
}

/// An account that a swap instruction names, and how it uses it.
#[derive(Clone, Copy, Debug, PartialEq, Eq)]
pub struct AccountMeta {
    pub pubkey: Address,
    pub is_signer: bool,
    pub is_writable: bool,
}

/// The addresses derived from a market's own: its fee account, its
/// auxiliary configuration account and its authority.
#[derive(Clone, Copy, Debug, PartialEq, Eq)]
pub struct DerivedAccounts {
    pub fee_mod: Address,
    pub additional: Address,
    pub market_auth: Address,
}

/// One market with the last snapshot of its two books and its fees.
#[derive(Clone)]
pub struct GigadexOBSwap {
    pub key: Address,
    pub market: Market,
    pub bids: OrderTree,
    pub asks: OrderTree,
    pub fee_mod: FeeMod,
    pub additional_pda: AdditionalPdaAccount,
}

/// A market whose book on the order's side is empty pays out nothing and
/// charges nothing, whatever is offered, as long as its fee is one that can
/// be applied.
pub proof fn lemma_quote_empty_book(swap: GigadexOBSwap, params: QuoteParams)
    requires
        swap.book(swap.is_buy(params.input_mint)).root_idx == 0,
        swap.fee_mod.base_fee_bp <= FEE_DENOMINATOR,
    ensures
        swap.quoted(params) == Ok::<(u64, u64), QuoteError>((0, 0)),
{
    lemma_simulate_empty_book(
        swap.book(swap.is_buy(params.input_mint)),
        params.in_amount,
        swap.is_buy(params.input_mint),
    );
}

/// An account that the instruction may write to and that does not sign.
pub open spec fn writable_account(pubkey: Address) -> AccountMeta {
    AccountMeta { pubkey, is_signer: false, is_writable: true }
}

fn writable(pubkey: Address) -> (r: AccountMeta)
    ensures
        r == writable_account(pubkey),
{
    AccountMeta { pubkey, is_signer: false, is_writable: true }
}

impl GigadexOBSwap {
    /// Whether an order that pays in `input_mint` buys: it does where that
    /// mint is the market's quote mint.
    pub open spec fn is_buy(&self, input_mint: Address) -> bool {
        input_mint@ == self.market.quote_mint@
    }

    /// The book that an order meets: the asks for a buy, the bids for a
    /// sell.
    pub open spec fn book(&self, buy: bool) -> OrderTree {
        if buy {
            self.asks
        } else {
            self.bids
        }
    }

    /// What a quote for `params` pays out and charges, `(net, fee)`: the
    /// simulated amount of the book the order meets, split by the base fee.
    pub open spec fn quoted(&self, params: QuoteParams) -> Result<(u64, u64), QuoteError> {
        let buy = self.is_buy(params.input_mint);
        match simulate(self.book(buy), params.in_amount, buy) {
            Err(e) => Err(e),
            Ok(amount_out) => fee_split(amount_out, self.fee_mod.base_fee_bp),
        }
    }

    /// The address of the book that a swap paying in `source_mint` goes to:
    /// the asks where that is the quote mint, the bids otherwise.
    pub open spec fn swap_book(&self, source_mint: Address) -> Address {
        if self.is_buy(source_mint) {
            self.market.asks
        } else {
            self.market.bids
        }
    }

    /// The three addresses derived from the market's own exist.
    pub open spec fn has_derived_accounts(&self) -> bool {
        &&& market_pda(self.key, FEE_MOD_PDA_SEED@) is Some
        &&& market_pda(self.key, ADDITIONAL_PDA_SEED@) is Some
        &&& market_pda(self.key, MARKET_AUTH_PDA_SEED@) is Some
    }

    /// The account list of a swap, in the order the exchange program reads
    /// it: the taker's authority as the one signer, then the market, its
    /// balances, the book the swap goes to, the bids, the two vaults, the fee
    /// receiver, the royalty receiver, the fee account, the auxiliary
    /// account, the taker's two token accounts, the market authority, all
    /// writable, and the two programs read-only.
    pub open spec fn swap_accounts(
        &self,
        swap_params: SwapParams,
        derived: DerivedAccounts,
        token_program: Address,
        system_program: Address,
    ) -> Seq<AccountMeta> {
        seq![
            AccountMeta {
                pubkey: swap_params.user_transfer_authority,
                is_signer: true,
                is_writable: true,
            },
            writable_account(self.key),
            writable_account(self.market.balances),
            writable_account(self.swap_book(swap_params.source_mint)),
            writable_account(self.market.bids),
            writable_account(self.market.wsol_vault),
            writable_account(self.market.lot_vault),
            writable_account(self.additional_pda.fee_receiver_wallet),
            writable_account(self.fee_mod.collection_royalty_address),
            writable_account(derived.fee_mod),
            writable_account(derived.additional),
            writable_account(swap_params.user_source_token_account),
            writable_account(swap_params.user_destination_token_account),
            writable_account(derived.market_auth),
            AccountMeta { pubkey: token_program, is_signer: false, is_writable: false },
            AccountMeta { pubkey: system_program, is_signer: false, is_writable: false },
        ]
    }

    /// `derived` holds the three addresses derived from the market's own.
    pub open spec fn is_derived_from_key(&self, derived: DerivedAccounts) -> bool {
        &&& market_pda(self.key, FEE_MOD_PDA_SEED@) == Some(derived.fee_mod@)
        &&& market_pda(self.key, ADDITIONAL_PDA_SEED@) == Some(derived.additional@)
        &&& market_pda(self.key, MARKET_AUTH_PDA_SEED@) == Some(derived.market_auth@)
    }

    /// A market from the bytes of its account, which hold the market record
    /// behind the account header. Books and fees start empty. It fails where
    /// the account is too short for header and record.
    pub fn from_keyed_account(key: Address, data: &[u8]) -> (r: Result<GigadexOBSwap, QuoteError>)
        ensures
            r is Ok <==> fits(data@.len() as int, ACCOUNT_HEADER as int, MARKET_SIZE as int),
            r is Err ==> r->Err_0 == QuoteError::LayoutError,
            r is Ok ==> {
                let swap = r->Ok_0;
                &&& swap.key == key
                &&& is_market_at(swap.market, data@, ACCOUNT_HEADER as int)
                &&& swap.bids.is_blank()
                &&& swap.asks.is_blank()
                &&& swap.fee_mod.is_blank()
                &&& swap.additional_pda.is_blank()
            },
    {
        match Market::decode(data, ACCOUNT_HEADER) {
            Err(e) => Err(e),
            Ok(market) => Ok(
                GigadexOBSwap {
                    key,
                    market,
                    bids: OrderTree::default(),
                    asks: OrderTree::default(),
                    fee_mod: FeeMod::default(),
                    additional_pda: AdditionalPdaAccount::default(),
                },
            ),
        }
    }

    /// The name under which the exchange is listed.
    pub fn label(&self) -> (r: String)
        ensures
            r@ == "GigaDex"@,
    {
        "GigaDex".to_owned()
    }

    /// The address of the exchange program.
    pub fn program_id(&self) -> (r: Address)
        ensures
            r@ == GIGADEX_PROGRAM_ID@,
    {
        Address { bytes: GIGADEX_PROGRAM_ID }
    }

    /// How many accounts a swap is counted as taking up in a transaction.
    pub fn get_accounts_len(&self) -> (r: usize)
        ensures
            r == 32,
    {
        32
    }

    /// The market's address.
    pub fn key(&self) -> (r: Address)
        ensures
            r == self.key,
    {
        self.key
    }

    /// The two mints that the market trades: base first, quote second.
    pub fn get_reserve_mints(&self) -> (r: Vec<Address>)
        ensures
            r@ == seq![self.market.mint, self.market.quote_mint],
    {
        let mut mints = Vec::new();
        mints.push(self.market.mint);
        mints.push(self.market.quote_mint);
        assert(mints@ =~= seq![self.market.mint, self.market.quote_mint]);
        mints
    }

    /// The accounts whose bytes `update` takes, in the order asks, bids, fee
    /// account, auxiliary account; none where one of the last two cannot be
    /// derived.
    pub fn get_accounts_to_update(&self) -> (r: Option<Vec<Address>>)
        ensures
            r is Some <==> market_pda(self.key, FEE_MOD_PDA_SEED@) is Some && market_pda(
                self.key,
                ADDITIONAL_PDA_SEED@,
            ) is Some,
            r is Some ==> {
                let accounts = r->Some_0@;
                &&& accounts.len() == 4
                &&& accounts[0] == self.market.asks
                &&& accounts[1] == self.market.bids
                &&& market_pda(self.key, FEE_MOD_PDA_SEED@) == Some(accounts[2]@)
                &&& market_pda(self.key, ADDITIONAL_PDA_SEED@) == Some(accounts[3]@)
            },
    {
        let fee_mod = match get_fee_mod(self.key) {
            None => {
                return None;
            },
            Some(fee_mod) => fee_mod,
        };
        let additional = match get_additional_pda(self.key) {
            None => {
                return None;
            },
            Some(additional) => additional,
        };
        let mut accounts = Vec::new();
        accounts.push(self.market.asks);
        accounts.push(self.market.bids);
        accounts.push(fee_mod);
        accounts.push(additional);
        Some(accounts)
    }

    /// The three addresses derived from the market's own; none where one
    /// of them cannot be found.
    pub fn derived_accounts(&self) -> (r: Option<DerivedAccounts>)
        ensures
            r is Some <==> self.has_derived_accounts(),
            r is Some ==> self.is_derived_from_key(r->Some_0),
    {
        let fee_mod = match get_fee_mod(self.key) {
            None => {
                return None;
            },
            Some(fee_mod) => fee_mod,
        };
        let additional = match get_additional_pda(self.key) {
            None => {
                return None;
            },
            Some(additional) => additional,
        };
        let market_auth = match get_market_auth_pda(self.key) {
            None => {
                return None;
            },
            Some(market_auth) => market_auth,
        };
        Some(DerivedAccounts { fee_mod, additional, market_auth })
    }

    /// The account list of a swap for `swap_params`, given the market's
    /// derived addresses and the addresses of the token program and the
    /// system program.
    pub fn swap_account_list(
        &self,
        swap_params: &SwapParams,
        derived: &DerivedAccounts,
        token_program: Address,
        system_program: Address,
    ) -> (r: Vec<AccountMeta>)
        ensures
            r@ == self.swap_accounts(*swap_params, *derived, token_program, system_program),
    {
        let order_tree = if swap_params.source_mint.same_as(&self.market.quote_mint) {
            self.market.asks
        } else {
            self.market.bids
        };
        let mut metas = Vec::new();
        metas.push(
            AccountMeta {
                pubkey: swap_params.user_transfer_authority,
                is_signer: true,
                is_writable: true,
            },
        );
        metas.push(writable(self.key));
        metas.push(writable(self.market.balances));
        metas.push(writable(order_tree));
        metas.push(writable(self.market.bids));
        metas.push(writable(self.market.wsol_vault));
        metas.push(writable(self.market.lot_vault));
        metas.push(writable(self.additional_pda.fee_receiver_wallet));
        metas.push(writable(self.fee_mod.collection_royalty_address));
        metas.push(writable(derived.fee_mod));
        metas.push(writable(derived.additional));
        metas.push(writable(swap_params.user_source_token_account));
        metas.push(writable(swap_params.user_destination_token_account));
        metas.push(writable(derived.market_auth));
        metas.push(AccountMeta { pubkey: token_program, is_signer: false, is_writable: false });
        metas.push(AccountMeta { pubkey: system_program, is_signer: false, is_writable: false });
        assert(metas@ =~= self.swap_accounts(
            *swap_params,
            *derived,
            token_program,
            system_program,
        ));
        metas
    }

    /// The account list of a swap for `swap_params`, given the addresses of
    /// the token program and the system program; none where an address
    /// derived from the market's cannot be found.
    pub fn get_swap_and_account_metas(
        &self,
        swap_params: &SwapParams,
        token_program: Address,
        system_program: Address,
    ) -> (r: Option<Vec<AccountMeta>>)
        ensures
            r is Some <==> self.has_derived_accounts(),
            r is Some ==> exists|derived: DerivedAccounts|
                self.is_derived_from_key(derived) && r->Some_0@ == #[trigger] self.swap_accounts(
                    *swap_params,
                    derived,
                    token_program,
                    system_program,
                ),
    {
        match self.derived_accounts() {
            None => None,
            Some(derived) => Some(
                self.swap_account_list(swap_params, &derived, token_program, system_program),
            ),
        }
    }

    /// Replaces books, fees and auxiliary configuration by what the four
    /// accounts hold behind their headers. Either all four decode and are
    /// taken together, or the snapshot stays as it was.
    pub fn update(
        &mut self,
        bids_data: &[u8],
        asks_data: &[u8],
        fee_mod_data: &[u8],
        additional_pda_data: &[u8],
    ) -> (r: Result<(), QuoteError>)
        ensures
            r is Ok <==> {
                &&& order_tree_decodable(bids_data@, ACCOUNT_HEADER as int)
                &&& order_tree_decodable(asks_data@, ACCOUNT_HEADER as int)
                &&& fits(fee_mod_data@.len() as int, ACCOUNT_HEADER as int, FEE_MOD_SIZE as int)
                &&& fits(
                    additional_pda_data@.len() as int,
                    ACCOUNT_HEADER as int,
                    ADDITIONAL_PDA_ACCOUNT_SIZE as int,
                )
            },
            r is Err ==> r->Err_0 == QuoteError::LayoutError && *final(self) == *old(self),
            r is Ok ==> {
                &&& final(self).key == old(self).key
                &&& final(self).market == old(self).market
                &&& is_order_tree_at(final(self).bids, bids_data@, ACCOUNT_HEADER as int)
                &&& is_order_tree_at(final(self).asks, asks_data@, ACCOUNT_HEADER as int)
                &&& final(self).bids.well_formed()
                &&& final(self).asks.well_formed()
                &&& is_fee_mod_at(final(self).fee_mod, fee_mod_data@, ACCOUNT_HEADER as int)
                &&& is_additional_at(
                    final(self).additional_pda,
                    additional_pda_data@,
                    ACCOUNT_HEADER as int,
                )
            },
    {
        let asks = match OrderTree::decode(asks_data, ACCOUNT_HEADER) {
            Err(e) => {
                return Err(e);
            },
            Ok(asks) => asks,
        };
        let bids = match OrderTree::decode(bids_data, ACCOUNT_HEADER) {
            Err(e) => {
                return Err(e);
            },
            Ok(bids) => bids,
        };
        let fee_mod = match FeeMod::decode(fee_mod_data, ACCOUNT_HEADER) {
            Err(e) => {
                return Err(e);
            },
            Ok(fee_mod) => fee_mod,
        };
        let additional_pda = match AdditionalPdaAccount::decode(additional_pda_data, ACCOUNT_HEADER) {
            Err(e) => {
                return Err(e);
            },
            Ok(additional_pda) => additional_pda,
        };
        self.asks = asks;
        self.bids = bids;
        self.fee_mod = fee_mod;
        self.additional_pda = additional_pda;
        Ok(())
    }

    /// Quotes an order of `in_amount` paid in `input_mint`. An order paid in
    /// the quote mint buys from the asks; any other sells into the bids. The
    /// base fee is taken from what the book gives, and the quote reports no
    /// liquidity exactly when nothing is left to pay out.
    pub fn quote(&self, quote_params: &QuoteParams) -> (r: Result<Quote, QuoteError>)
        ensures
            r is Ok <==> self.quoted(*quote_params) is Ok,
            r is Err ==> self.quoted(*quote_params) == Err::<(u64, u64), QuoteError>(r->Err_0),
            r is Ok ==> {
                let quote = r->Ok_0;
                let (net, fee) = self.quoted(*quote_params)->Ok_0;
                &&& quote.out_amount == net
                &&& quote.fee_amount == fee
                &&& quote.not_enough_liquidity == (net == 0)
                &&& quote.in_amount == quote_params.in_amount
                &&& quote.min_in_amount == Some(quote_params.in_amount)
                &&& quote.min_out_amount == Some(net)
                &&& quote.fee_mint == self.market.quote_mint
            },
    {
        let buy = quote_params.input_mint.same_as(&self.market.quote_mint);
        let walked = if buy {
            self.asks.calculate_quote(quote_params.in_amount, buy)
        } else {
            self.bids.calculate_quote(quote_params.in_amount, buy)
        };
        let amount_out = match walked {
            Err(e) => {
                return Err(e);
            },
            Ok(amount_out) => amount_out,
        };
        match apply_fee(amount_out, self.fee_mod.base_fee_bp) {
            Err(e) => Err(e),
            Ok((net, fee)) => Ok(
                Quote {
                    not_enough_liquidity: net == 0,
                    min_in_amount: Some(quote_params.in_amount),
                    min_out_amount: Some(net),
                    in_amount: quote_params.in_amount,
                    out_amount: net,
                    fee_amount: fee,
                    fee_mint: self.market.quote_mint,
                },
            ),
        }
    }
}

} // verus!
