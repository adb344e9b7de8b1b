//! A verified membership collective: a paid-membership ledger with a shared
//! treasury, a one-time reward-network bootstrap, and orchestration of
//! member-owned asset-token creation.
//!
//! The contract state machine lives in [`collective`]; its durable records
//! are routed through the typed storage dispatcher in [`storage`]; the
//! payment and reward assets are modeled by [`asset`]; the tokens that
//! members create through the factory collaborators are in [`tokens`].

pub mod asset;
pub mod collective;
pub mod storage;
pub mod tokens;
