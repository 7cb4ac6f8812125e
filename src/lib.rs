//! The core of a desktop manager for social-media posting bots.
//!
//! * [`migration`], with [`catalog`] and [`schema`]: the engine that brings a
//!   local store of any earlier shape to the current schema, and the laws that
//!   say a fresh store ends at exactly that schema and a second run does
//!   nothing.
//! * [`reply_rules`]: the carrying over of reply rules from the older
//!   one-target-many-repliers shape, one rule per replier.
//! * [`oauth`], with [`percent`] and [`digest`]: OAuth 1.0a request signing.
//! * [`content`], [`last_checked`], [`accounts`], [`posting`], [`export`]: the
//!   rules the record operations apply around the store.

pub mod accounts;
pub mod catalog;
pub mod content;
pub mod digest;
pub mod export;
pub mod json;
pub mod last_checked;
pub mod migration;
pub mod oauth;
pub mod percent;
pub mod posting;
pub mod reply_rules;
pub mod schema;
pub mod text;
