//! Salish application messaging: an in-process, typed message bus.
//!
//! Producers publish payloads without knowing which consumers exist;
//! consumers register endpoints that declare interest in a payload type
//! (identified by a type token) and are invoked when a matching message
//! arrives.

pub mod endpoint;
pub mod filter;
pub mod handler;
pub mod message;
pub mod policy;
pub mod router;
pub mod traits;

pub use message::Message;
pub use policy::Policy;
pub use traits::EndpointAddress;
