//! The server's side of a run: it listens for a client and answers the
//! handshake.
use crate::parsing::{IpAddress, SocketAddress};
use crate::tunif::{Iface, IfaceView};
use crate::{configure, spec_configure, ConfigError};
use vstd::prelude::*;

verus! {

/// What a server is to set up: its interface, and the listener on `local`,
/// on whose connections it runs the handshake as responder.
#[derive(Debug)]
pub struct ServerSession {
    pub iface: Iface,
    pub local: SocketAddress,
}

/// Checks a server's configuration and says what it is to set up.
pub fn execute_server(ifname: String, ifaddr: IpAddress, netmask: u8, local: SocketAddress) -> (r:
    Result<ServerSession, ConfigError>)
    ensures
        match r {
            Ok(session) => session.local == local && spec_configure(ifname@, ifaddr, netmask)
                == Ok::<IfaceView, ConfigError>(session.iface@),
            Err(e) => spec_configure(ifname@, ifaddr, netmask) == Err::<IfaceView, ConfigError>(e),
        },
{
    match configure(ifname.as_str(), &ifaddr, netmask) {
        Ok(iface) => Ok(ServerSession { iface, local }),
        Err(e) => Err(e),
    }
}

} // verus!
