//! Order pricing and placement for a small catalogue shop.
//!
//! Given the products of a cart, the library decides which promotional
//! campaigns apply, what each one leaves of the total, and which is best for
//! the customer; it reserves stock without letting it go negative; and it
//! steers the placement of an order through the store, the campaign cache
//! and the notification queue as a state machine that a driver runs.
//!
//! Amounts are whole micro-units of currency throughout (see `money`).

pub mod cache;
pub mod controllers;
pub mod error;
pub mod insertables;
pub mod inventory;
pub mod models;
pub mod money;
pub mod notifier;
pub mod sequences;
pub mod workflow;
