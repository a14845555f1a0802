//! Spoof-resistant resolution of an HTTP client's network address.
//!
//! A request may have crossed trusted relays before it reached the server. The
//! library classifies addresses as local or global and walks the forwarded
//! address chain from the nearest hop backward to the first address that no
//! longer lies on a local network.

pub mod addr;
pub mod classify;
pub mod text;
pub mod resolve;
pub mod render;
pub mod laws;
pub mod read_back;

pub use crate::addr::{IpAddress, Ipv4Address, Ipv6Address};
pub use crate::classify::{classify, Classification};
pub use crate::resolve::{resolve, ClientAddr, RequestAddressContext};
pub use crate::text::parse_ip;
