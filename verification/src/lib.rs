//! Wake-on-LAN host resolution, magic-packet encoding and dispatch planning.
//!
//! The library resolves a wake-up target (a logical host name looked up in a
//! registry, or a directly supplied hardware address), validates and decodes
//! textual hardware addresses, and builds the 102-byte magic packet for each
//! address of the target.  Transmitting the packets over UDP, reading the
//! command line and loading the registry from disk are left to the caller.

pub mod address;
pub mod dispatch;
pub mod errors;
pub mod host;
pub mod packet;

pub use address::convert_mac;
pub use address::validate_hardware_address_syntax;
pub use address::validate_ipv4_syntax;
pub use dispatch::craft_packets_for_host;
pub use dispatch::plan_dispatch;
pub use dispatch::resolve_destination;
pub use dispatch::Config;
pub use dispatch::DestinationEndpoint;
pub use dispatch::DispatchPlan;
pub use errors::ConfigError;
pub use errors::ConfigFileNotFoundError;
pub use errors::MagicError;
pub use errors::UnknownHostError;
pub use errors::WakeUpError;
pub use host::Host;
pub use host::HostRegistry;
pub use packet::craft_magic_packet;
