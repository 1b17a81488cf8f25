//! Recalling delegations: recall or die.
//!
//! One ladder per recalled record. It ends with the client returning the
//! delegation, with the client proving that it never held it, or with a
//! revocation that the client learns of when it next renews its lease.
//!
//! The first transmit is batched per client: one callback carries as many recalls
//! as the client's back channel allows, and the reply is split by position.
//! From there on each record's ladder runs alone.
pub mod batch;
pub mod config;
pub mod ladder;

pub use crate::deleg_recall::batch::{
    classify, clone_cb_error, group_orders, split_batch_reply, CallbackError, Classified,
    RecallItem, RecallOrder, RecallTask,
};
pub use crate::deleg_recall::config::RecallLadderConfig;
pub use crate::deleg_recall::ladder::{Ladder, RecallDriver};
