//! Keyword-action matching and dispatch engine for a chat bot.
//!
//! The library models configured rules (keyword and mention triggers bound to
//! candidate actions), decides whether an incoming message matches a rule,
//! selects one action uniformly at random, plans the outbound side effects of
//! an action as an explicit effect sequence, and drives a partial-failure
//! tolerant execution state machine over that plan. It also normalizes
//! channel history into a transcript for the completion backend and chunks
//! oversized replies into protocol-sized segments.

pub mod dispatch;
pub mod executor;
pub mod matcher;
pub mod relay;
pub mod rules;
pub mod selector;
pub mod text;
