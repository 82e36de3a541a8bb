//! The decision core of an upstream connection pool.
//!
//! The pool keeps a handful of lanes open to every configured upstream,
//! publishes the tools each upstream serves, and decides when a call may be
//! dispatched, when a lane must be dialed again and what a manifest reload
//! changes. Every rule is a function on plain values with a contract; sockets,
//! locks and timers belong to the program around it.

pub mod admission;
pub mod assoc;
pub mod audit;
pub mod binding;
pub mod boot;
pub mod call;
pub mod clock;
pub mod contracts;
pub mod discovery;
pub mod dispatch;
pub mod drift;
pub mod entry;
pub mod error;
pub mod facts;
pub mod files;
pub mod freshness;
pub mod heal;
pub mod health;
pub mod lane;
pub mod lifecycle;
pub mod listen;
pub mod listing;
pub mod manifest;
pub mod names;
pub mod pool;
pub mod reconnect;
pub mod recovery;
pub mod redial;
pub mod refusal_record;
pub mod reload;
pub mod resolution;
pub mod resources;
pub mod settings;
pub mod shape;
pub mod snapshot;
pub mod structural;
pub mod text;
pub mod tools;
pub mod transitions;
pub mod value;
