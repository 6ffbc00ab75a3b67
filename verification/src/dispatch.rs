//! The dispatcher: resolve the target (registry lookup by name, or an
//! anonymous one-address host for a directly supplied hardware address),
//! validate and decode each of its hardware addresses, and encode one magic
//! packet per address, in the host's listed order, together with the
//! destination endpoint.  Transmitting the packets is the caller's part.

use vstd::prelude::*;

use crate::address::is_mac_syntax;
use crate::address::mac_bytes;
use crate::address::validate_hardware_address_syntax;
use crate::errors::WakeUpError;
use crate::host::Host;
use crate::host::HostRegistry;
use crate::packet::craft_magic_packet;
use crate::packet::magic_packet_bytes;

verus! {

/// What the caller asks for: exactly one of a host name or a direct
/// hardware address, and an optional destination address and port.
pub struct Config {
    /// The name of the host to wake, looked up in the registry.
    pub host_name: Option<String>,
    /// The destination address; the limited broadcast address when absent.
    pub ip_address: Option<String>,
    /// The destination port; 9 when absent.
    pub port: Option<u16>,
    /// A directly supplied hardware address to wake.
    pub mac_address: Option<String>,
}

impl Config {
    /// Exactly one of the host name and the direct hardware address is
    /// supplied.  Callers establish this before dispatch is planned.
    pub open spec fn wf(&self) -> bool {
        self.host_name is Some <==> self.mac_address is None
    }
}

/// Where the packets go: an IPv4 address and a port.
pub struct DestinationEndpoint {
    /// The textual IPv4 destination address.
    pub address: String,
    /// The destination port.
    pub port: u16,
}

/// The destination for the packets: the caller's choices where given, else
/// the limited broadcast address `255.255.255.255` and port 9.
pub fn resolve_destination(address: &Option<String>, port: &Option<u16>) -> (r:
    DestinationEndpoint)
    ensures
        address matches Some(a) ==> r.address@ == a@,
        address is None ==> r.address@ == "255.255.255.255"@,
        port matches Some(p) ==> r.port == p,
        port is None ==> r.port == 9,
{
    let destination_address = match address {
        Option::Some(a) => a.clone(),
        Option::None => String::from_str("255.255.255.255"),
    };
    let destination_port: u16 = match port {
        Option::Some(p) => *p,
        Option::None => 9,
    };
    DestinationEndpoint { address: destination_address, port: destination_port }
}

/// Every address of the sequence has valid hardware-address syntax.
pub open spec fn all_macs_valid(macs: Seq<String>) -> bool {
    forall|i: int| 0 <= i < macs.len() ==> is_mac_syntax(macs[i]@)
}

/// One magic packet per address, in the listed order.
pub open spec fn packets_for(macs: Seq<String>) -> Seq<Seq<u8>> {
    macs.map_values(|m: String| magic_packet_bytes(mac_bytes(m@)))
}

/// Validate and decode each hardware address of the host, in listed order,
/// and encode one magic packet per address.  The first address that fails
/// validation aborts the whole batch with `InvalidMacFormat`.
pub fn craft_packets_for_host(host: &Host) -> (r: Result<Vec<Vec<u8>>, WakeUpError>)
    ensures
        r is Ok <==> all_macs_valid(host.mac_addresses@),
        r matches Ok(ps) ==> ps@.map_values(|p: Vec<u8>| p@) == packets_for(host.mac_addresses@),
        r matches Err(e) ==> e == WakeUpError::InvalidMacFormat,
{
    let mut packets: Vec<Vec<u8>> = Vec::new();
    let mut i: usize = 0;
    while i < host.mac_addresses.len()
        invariant
            0 <= i <= host.mac_addresses@.len(),
            packets@.len() == i,
            forall|k: int| 0 <= k < i ==> is_mac_syntax(host.mac_addresses@[k]@),
            forall|k: int|
                0 <= k < i ==> packets@[k]@ == magic_packet_bytes(
                    mac_bytes(host.mac_addresses@[k]@),
                ),
        decreases host.mac_addresses@.len() - i,
    {
        let mac_address: &String = &host.mac_addresses[i];
        if !validate_hardware_address_syntax(mac_address.as_str()) {
            return Result::Err(WakeUpError::InvalidMacFormat);
        }
        match craft_magic_packet(mac_address) {
            Result::Ok(p) => {
                packets.push(p);
            },
            Result::Err(_) => {
                proof {
                    assert(false);
                }
                return Result::Err(WakeUpError::InvalidMacFormat);
            },
        }
        i = i + 1;
    }
    proof {
        assert(packets@.map_values(|p: Vec<u8>| p@) =~= packets_for(host.mac_addresses@));
    }
    Result::Ok(packets)
}

/// The packets to send and where to send them.
pub struct DispatchPlan {
    /// One magic packet per resolved hardware address, in listed order.
    pub packets: Vec<Vec<u8>>,
    /// The endpoint every packet goes to.
    pub destination: DestinationEndpoint,
}

/// Plan a dispatch: resolve the target of `config`, encode one magic packet
/// per hardware address, and fix the destination endpoint.
///
/// In name mode a missing registry is `ConfigUnavailable` and an absent
/// name is `UnknownHost`; in direct mode the registry is not consulted, so
/// its absence is harmless.  Any address that fails validation aborts with
/// `InvalidMacFormat`.  No packet is produced on any error.
pub fn plan_dispatch(config: &Config, registry: Option<&HostRegistry>) -> (r: Result<
    DispatchPlan,
    WakeUpError,
>)
    requires
        config.wf(),
    ensures
        config.host_name is Some && registry is None ==> r == Result::<
            DispatchPlan,
            WakeUpError,
        >::Err(WakeUpError::ConfigUnavailable),
        config.host_name is Some && registry is Some && !registry->Some_0.contains_name(
            config.host_name->Some_0@,
        ) ==> r == Result::<DispatchPlan, WakeUpError>::Err(WakeUpError::UnknownHost),
        config.host_name is Some && registry is Some && registry->Some_0.contains_name(
            config.host_name->Some_0@,
        ) ==> {
            let target = registry->Some_0.resolved_host(config.host_name->Some_0@);
            &&& (r is Ok <==> all_macs_valid(target.mac_addresses@))
            &&& (r is Ok ==> r->Ok_0.packets@.map_values(|p: Vec<u8>| p@) == packets_for(
                target.mac_addresses@,
            ))
            &&& (r is Err ==> r->Err_0 == WakeUpError::InvalidMacFormat)
        },
        config.mac_address is Some ==> {
            &&& (r is Ok <==> is_mac_syntax(config.mac_address->Some_0@))
            &&& (r is Ok ==> r->Ok_0.packets@.map_values(|p: Vec<u8>| p@) == seq![
                magic_packet_bytes(mac_bytes(config.mac_address->Some_0@)),
            ])
            &&& (r is Err ==> r->Err_0 == WakeUpError::InvalidMacFormat)
        },
        r is Ok ==> {
            &&& (config.ip_address is Some ==> r->Ok_0.destination.address@
                == config.ip_address->Some_0@)
            &&& (config.ip_address is None ==> r->Ok_0.destination.address@
                == "255.255.255.255"@)
            &&& (config.port is Some ==> r->Ok_0.destination.port == config.port->Some_0)
            &&& (config.port is None ==> r->Ok_0.destination.port == 9)
        },
{
    let destination = resolve_destination(&config.ip_address, &config.port);
    match &config.host_name {
        Option::Some(name) => {
            match registry {
                Option::None => Result::Err(WakeUpError::ConfigUnavailable),
                Option::Some(reg) => {
                    match reg.resolve_by_name(name) {
                        Result::Err(e) => Result::Err(e),
                        Result::Ok(target) => {
                            match craft_packets_for_host(target) {
                                Result::Err(e) => Result::Err(e),
                                Result::Ok(packets) => Result::Ok(
                                    DispatchPlan { packets, destination },
                                ),
                            }
                        },
                    }
                },
            }
        },
        Option::None => {
            let mac_address: &String = match &config.mac_address {
                Option::Some(m) => m,
                Option::None => {
                    proof {
                        assert(false);
                    }
                    return Result::Err(WakeUpError::InvalidMacFormat);
                },
            };
            let mut addresses: Vec<String> = Vec::new();
            addresses.push(mac_address.clone());
            let anonymous = Host::new(addresses, String::new());
            proof {
                assert(anonymous.mac_addresses@.len() == 1);
                assert(anonymous.mac_addresses@[0]@ == mac_address@);
                assert(all_macs_valid(anonymous.mac_addresses@) <==> is_mac_syntax(
                    mac_address@,
                )) by {
                    if is_mac_syntax(mac_address@) {
                        assert forall|i: int|
                            0 <= i < anonymous.mac_addresses@.len() implies is_mac_syntax(
                            anonymous.mac_addresses@[i]@,
                        ) by {
                            assert(i == 0);
                        }
                    }
                }
                assert(packets_for(anonymous.mac_addresses@) =~= seq![
                    magic_packet_bytes(mac_bytes(mac_address@)),
                ]);
            }
            match craft_packets_for_host(&anonymous) {
                Result::Err(e) => Result::Err(e),
                Result::Ok(packets) => Result::Ok(DispatchPlan { packets, destination }),
            }
        },
    }
}

} // verus!
