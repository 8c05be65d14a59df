//! What holds of the provider as a whole.
//!
//! [`terms`] are the words that the laws on single operations use. Those laws speak
//! of what an operation was called with and what it gave, field by field.

pub mod checks;
pub mod guidance;
pub mod inputs;
pub mod lookup;
pub mod preparation;
pub mod queries;
pub mod ranking;
pub mod requests;
pub mod scoring;
pub mod session;
pub mod steps;
pub mod terms;
pub mod texts;
