//! The error taxonomy of the wake-up pipeline: one tagged variant per failure
//! kind, plus the lightweight marker types that callers can match on.

use vstd::prelude::*;

verus! {

/// The failure kinds of the wake-up pipeline.
///
/// `ConfigUnavailable` is recoverable only when the caller supplied a direct
/// hardware address; every other kind aborts the whole operation.
#[derive(Clone, Copy, Debug, PartialEq, Eq, Structural)]
pub enum WakeUpError {
    /// A hardware address string that does not decode to exactly 6 bytes.
    InvalidMacFormat,
    /// A destination address that is not four dot-separated decimal groups.
    InvalidIpFormat,
    /// A host name that is not present in the registry.
    UnknownHost,
    /// The host registry could not be built.
    ConfigUnavailable,
    /// An encoded packet whose length is not 102 bytes (never produced).
    PacketConstruction,
    /// A socket or network failure while sending.
    Transmission,
}

impl WakeUpError {
    /// A human-readable description of the failure kind.
    pub fn message(&self) -> (r: String)
        ensures
            self is InvalidMacFormat ==> r@
                == "Invalid format for mac address. Please use ':' as separator between hex digits."@,
            self is InvalidIpFormat ==> r@ == "Invalid format for ip address"@,
            self is UnknownHost ==> r@ == "Not a known host."@,
            self is ConfigUnavailable ==> r@ == "Could not find config file."@,
            self is PacketConstruction ==> r@
                == "Something went wrong while crafting the magic package."@,
            self is Transmission ==> r@ == "Could not send the magic packet."@,
    {
        match self {
            WakeUpError::InvalidMacFormat => String::from_str(
                "Invalid format for mac address. Please use ':' as separator between hex digits.",
            ),
            WakeUpError::InvalidIpFormat => String::from_str("Invalid format for ip address"),
            WakeUpError::UnknownHost => String::from_str("Not a known host."),
            WakeUpError::ConfigUnavailable => String::from_str("Could not find config file."),
            WakeUpError::PacketConstruction => String::from_str(
                "Something went wrong while crafting the magic package.",
            ),
            WakeUpError::Transmission => String::from_str("Could not send the magic packet."),
        }
    }
}

/// Marker for an invalid configuration.
#[derive(Clone, Copy, Debug)]
pub struct ConfigError;

impl ConfigError {
    /// The failure kind this marker stands for.
    pub fn kind(&self) -> (k: WakeUpError)
        ensures
            k == WakeUpError::ConfigUnavailable,
    {
        WakeUpError::ConfigUnavailable
    }

    /// A human-readable description.
    pub fn message(&self) -> (r: String)
        ensures
            r@ == "Invalid config."@,
    {
        String::from_str("Invalid config.")
    }
}

/// Marker for a host name that the registry does not contain.
#[derive(Clone, Copy, Debug)]
pub struct UnknownHostError;

impl UnknownHostError {
    /// The failure kind this marker stands for.
    pub fn kind(&self) -> (k: WakeUpError)
        ensures
            k == WakeUpError::UnknownHost,
    {
        WakeUpError::UnknownHost
    }

    /// A human-readable description.
    pub fn message(&self) -> (r: String)
        ensures
            r@ == "Not a known host."@,
    {
        String::from_str("Not a known host.")
    }
}

/// Marker for a host registry that could not be located.
#[derive(Clone, Copy, Debug)]
pub struct ConfigFileNotFoundError;

impl ConfigFileNotFoundError {
    /// The failure kind this marker stands for.
    pub fn kind(&self) -> (k: WakeUpError)
        ensures
            k == WakeUpError::ConfigUnavailable,
    {
        WakeUpError::ConfigUnavailable
    }

    /// A human-readable description.
    pub fn message(&self) -> (r: String)
        ensures
            r@ == "Could not find config file."@,
    {
        String::from_str("Could not find config file.")
    }
}

/// Marker for a packet whose encoded length is not 102 bytes.
#[derive(Clone, Copy, Debug)]
pub struct MagicError;

impl MagicError {
    /// The failure kind this marker stands for.
    pub fn kind(&self) -> (k: WakeUpError)
        ensures
            k == WakeUpError::PacketConstruction,
    {
        WakeUpError::PacketConstruction
    }

    /// A human-readable description.
    pub fn message(&self) -> (r: String)
        ensures
            r@ == "Something went wrong while crafting the magic package."@,
    {
        String::from_str("Something went wrong while crafting the magic package.")
    }
}

} // verus!
