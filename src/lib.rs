//! Newsletter registration with double opt-in: validated contact data, a transactional store of
//! pending subscribers and their confirmation tokens, and the confirmation of a token.

pub mod configuration;
pub mod domain;
pub mod store;
pub mod subscription_confirm;
pub mod subscriptions;
