//! A transactional update-chain engine for turn-based world simulation.
//!
//! An [`action::Action`] proposes a chain of [`update::Update`]s, the rules of
//! the [`engine::Engine`] examine one queued update per step, and a chain whose
//! last update permits it is folded into the committed [`state::State`].
//!
//! Filters, action generators and rules are function values that the host
//! supplies. Every contract speaks of them through what they promise
//! (`call_requires`, `call_ensures`), so whatever is proved here holds for any
//! function the host hands in.
//!
//! [`layers`] is a companion for hosts that derive attributes from a state:
//! a base value seen through an ordered list of overrides.

pub mod state;
pub mod update;
pub mod action;
pub mod rule;
pub mod engine;
pub mod layers;
