//! Read-only quoting against a price-ordered order book snapshot.
//!
//! A snapshot arrives as raw account bytes. `layout` decodes the
//! fixed-offset records into the types of `state`, `tree` answers the
//! best-price query on the array-backed search tree, and `quote` walks the
//! book for a market order of a given size and splits off the fee. `amm`
//! holds one market with its two books and answers quote requests, and `pda`
//! derives the addresses of a market's side accounts.

pub mod amm;
pub mod error;
pub mod layout;
pub mod pda;
pub mod quote;
pub mod state;
pub mod tree;
