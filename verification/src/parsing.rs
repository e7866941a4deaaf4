//! The arguments of a run, as plain values: the interface to create and the
//! endpoint to reach or to listen on.
use vstd::prelude::*;

verus! {

/// The interface name used where none is given.
pub const DEFAULT_IFNAME: &'static str = "tun0";

/// An IP address by its octets, first octet first.
#[derive(Debug, Clone, Copy, PartialEq, Eq)]
pub enum IpAddress {
    V4([u8; 4]),
    V6([u8; 16]),
}

/// A TCP endpoint: an address and a port.
#[derive(Debug, Clone, Copy, PartialEq, Eq)]
pub struct SocketAddress {
    pub ip: IpAddress,
    pub port: u16,
}

/// Properties of the virtual interface.
#[derive(Debug, PartialEq, Eq)]
pub struct Interface {
    pub ifname: String,
    pub ifaddr: IpAddress,
    /// The prefix length of the interface's subnet.
    pub netmask: u8,
}

/// The two ways to run: connect to a remote endpoint, or listen on a local
/// one.
#[derive(Debug, Clone, Copy, PartialEq, Eq)]
pub enum Mode {
    Client { remote: SocketAddress },
    Server { local: SocketAddress },
}

/// Everything a run needs to know.
#[derive(Debug, PartialEq, Eq)]
pub struct Args {
    pub interface: Interface,
    pub mode: Mode,
}

/// The mode that the `server` switch and the endpoint select.
pub open spec fn spec_mode(ip: IpAddress, port: u16, server: bool) -> Mode {
    let endpoint = SocketAddress { ip, port };
    if server {
        Mode::Server { local: endpoint }
    } else {
        Mode::Client { remote: endpoint }
    }
}

/// Puts the options of the command line together.
///
/// The endpoint is the one to listen on where `server` is set and the one to
/// connect to where it is not. Without a name the interface is called
/// `DEFAULT_IFNAME`.
pub fn parse_arg(
    host: IpAddress,
    port: u16,
    ifname: Option<String>,
    ifaddr: IpAddress,
    netmask: u8,
    server: bool,
) -> (args: Args)
    ensures
        args.interface.ifname@ == match ifname {
            Some(name) => name@,
            None => DEFAULT_IFNAME@,
        },
        args.interface.ifaddr == ifaddr,
        args.interface.netmask == netmask,
        args.mode == spec_mode(host, port, server),
{
    let addr = SocketAddress { ip: host, port };
    let ifname = match ifname {
        Some(name) => name,
        None => DEFAULT_IFNAME.to_owned(),
    };
    Args {
        interface: Interface { ifname, ifaddr, netmask },
        mode: if server {
            Mode::Server { local: addr }
        } else {
            Mode::Client { remote: addr }
        },
    }
}

} // verus!
