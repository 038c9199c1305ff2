pub mod types;
pub mod state;
pub mod ledger;
pub mod positions;
pub mod settle;
pub mod market;
pub mod sides;
pub mod slots;
pub mod margin;
pub mod admin;
pub mod funding;
pub mod account_ops;
pub mod trade;
pub mod liquidation;
pub mod closing;
pub mod crank;
pub mod conservation;
pub mod refresh;
pub mod guarantees;
pub mod trade_na;
pub mod laws;
