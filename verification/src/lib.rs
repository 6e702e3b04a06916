//! A hierarchical, IP-keyed token-bucket rate limiter.
//!
//! Every request carries a source IP address and an action category. Each
//! IPv4 address owns one group of token buckets (one bucket per action
//! category); IPv6 addresses share groups at three nested prefix widths
//! (/48, /56 and /64), with capacity scaled up for the coarser prefixes.
//! A request is admitted only if every group on its path still has tokens.

pub mod action;
pub mod assoc;
pub mod bucket;
pub mod cell;
pub mod config;
pub mod group;
pub mod ip;
pub mod laws;
pub mod parse;
pub mod storage;
