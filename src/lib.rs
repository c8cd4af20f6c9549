//! A governed parimutuel betting ledger: a betting pool that registers
//! matches, takes wagers and pays winners in bounded chunks, and a
//! governance engine whose approved proposals become pool commands.
pub mod actor;
pub mod bolao;
pub mod codec;
pub mod dao;
pub mod errors;
pub mod ledger;
