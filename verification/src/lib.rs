//! A point-to-point VPN over one TCP connection: the handshake that checks
//! both ends' addressing, the framing of IP packets on the stream, and the
//! engine that shuttles them between the tunnel device and the socket.
//!
//! Nothing here touches a socket, a device or a signal. Each part is a
//! function on bytes or a state machine that says what to do next; the
//! program around the library does it and reports back.
use crate::client::{execute_client, ClientSession};
use crate::parsing::{Args, IpAddress, Mode};
use crate::server::{execute_server, ServerSession};
use crate::tunif::{Iface, IfaceError, IfaceView};
use vstd::prelude::*;
use vstd::utf8::encode_utf8;

pub mod client;
pub mod flows;
pub mod handshake;
pub mod parsing;
pub mod server;
pub mod signals;
pub mod tunif;
pub mod wire;

verus! {

/// Why a run cannot start: the configuration is at fault.
#[derive(Debug, Clone, Copy, PartialEq, Eq, Structural)]
pub enum ConfigError {
    /// The interface address is not an IPv4 address.
    Ipv6Unsupported,
    /// The interface cannot be described.
    Iface(IfaceError),
}

/// What a run is to set up, once its configuration has passed.
#[derive(Debug)]
pub enum Session {
    Client(ClientSession),
    Server(ServerSession),
}

/// The interface that a configuration describes, or what is wrong with it.
/// The address family is judged first, then what `IfaceView::new` judges.
pub open spec fn spec_configure(ifname: Seq<char>, ifaddr: IpAddress, netmask: u8) -> Result<
    IfaceView,
    ConfigError,
> {
    match ifaddr {
        IpAddress::V6(_) => Err(ConfigError::Ipv6Unsupported),
        IpAddress::V4(ip) => match IfaceView::new(encode_utf8(ifname), ip, netmask) {
            Ok(iface) => Ok(iface),
            Err(e) => Err(ConfigError::Iface(e)),
        },
    }
}

/// Whether an exec result of `configure` is the one its model gives.
pub open spec fn configured_as(r: Result<Iface, ConfigError>, model: Result<IfaceView, ConfigError>) -> bool {
    match r {
        Ok(iface) => model == Ok::<IfaceView, ConfigError>(iface@),
        Err(e) => model == Err::<IfaceView, ConfigError>(e),
    }
}

/// Checks the configuration of the virtual interface and describes it.
pub fn configure(ifname: &str, ifaddr: &IpAddress, netmask: u8) -> (r: Result<Iface, ConfigError>)
    ensures
        configured_as(r, spec_configure(ifname@, *ifaddr, netmask)),
{
    match ifaddr {
        IpAddress::V6(_) => Err(ConfigError::Ipv6Unsupported),
        IpAddress::V4(ip) => match Iface::new(ifname, *ip, netmask) {
            Ok(iface) => Ok(iface),
            Err(e) => Err(ConfigError::Iface(e)),
        },
    }
}

/// Checks the arguments of a run and says what it is to set up: a client's
/// session towards the remote endpoint, or a server's on the local one.
pub fn run(args: Args) -> (r: Result<Session, ConfigError>)
    ensures
        match r {
            Ok(Session::Client(session)) => args.mode == (Mode::Client { remote: session.remote })
                && spec_configure(
                args.interface.ifname@,
                args.interface.ifaddr,
                args.interface.netmask,
            ) == Ok::<IfaceView, ConfigError>(session.iface@),
            Ok(Session::Server(session)) => args.mode == (Mode::Server { local: session.local })
                && spec_configure(
                args.interface.ifname@,
                args.interface.ifaddr,
                args.interface.netmask,
            ) == Ok::<IfaceView, ConfigError>(session.iface@),
            Err(e) => spec_configure(
                args.interface.ifname@,
                args.interface.ifaddr,
                args.interface.netmask,
            ) == Err::<IfaceView, ConfigError>(e),
        },
{
    let ifname = args.interface.ifname;
    let ifaddr = args.interface.ifaddr;
    let netmask = args.interface.netmask;
    match args.mode {
        Mode::Client { remote } => match execute_client(ifname, ifaddr, netmask, remote) {
            Ok(session) => Ok(Session::Client(session)),
            Err(e) => Err(e),
        },
        Mode::Server { local } => match execute_server(ifname, ifaddr, netmask, local) {
            Ok(session) => Ok(Session::Server(session)),
            Err(e) => Err(e),
        },
    }
}

} // verus!
