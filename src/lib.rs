pub mod guard;
pub mod keys;
pub mod shared;
pub mod subscriber;
pub mod token;
pub mod usage;

pub use guard::{authorize, serve_counted, AuthDecision};
pub use keys::{KeyError, KeyStore};
pub use shared::SharedKeyStore;
pub use subscriber::Subscriber;
pub use usage::{Counters, Operation, UsageStats};
