//! A control-plane cache client and the key-value extraction primitive it
//! uses to parse accounting metadata out of semi-structured strings.

pub mod client;
pub mod digits;
pub mod extract;
pub mod uid;

pub use client::CachedControlClient;
pub use client::Snapshot;
pub use client::TransportError;
pub use extract::parse_str;
pub use extract::ParseValue;
pub use uid::get_now;
pub use uid::get_uid;
