//! A dependency injection container whose registration, resolution and diagnostics rules
//! are stated as contracts and proved.
use vstd::prelude::*;

pub mod support;
pub mod time;
pub mod key;
pub mod key_order;
pub mod text;
pub mod lifetime;
pub mod error;
pub mod descriptors;
pub mod circular;
pub mod keymap;
pub mod textmap;
pub mod registry;
pub mod engine;
pub mod dispose_bag;
pub mod labeled_scopes;
pub mod cancellation;
pub mod sorting;
pub mod metrics;
pub mod scope_local;
pub mod graph_export;
pub mod observer_text;
pub mod observer;
pub mod debug;
pub mod performance;
pub mod decoration;
pub mod aop;
pub mod prewarm;
pub mod fast_singletons;
pub mod config;
pub mod options;
pub mod capabilities;
pub mod tenant;
pub mod lifecycle;
pub mod async_rules;

pub use time::Duration;
pub use key::Key;
pub use lifetime::Lifetime;
pub use error::{DiError, DiResult};
pub use descriptors::ServiceDescriptor;
pub use circular::CircularPanic;

verus! {

} // verus!
