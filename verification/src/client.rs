//! The client's side of a run: it connects to the server and opens the
//! handshake.
use crate::parsing::{IpAddress, SocketAddress};
use crate::tunif::{Iface, IfaceView};
use crate::{configure, spec_configure, ConfigError};
use vstd::prelude::*;

verus! {

/// What a client is to set up: its interface, and the connection to the
/// server at `remote`, on which it runs the handshake as initiator.
#[derive(Debug)]
pub struct ClientSession {
    pub iface: Iface,
    pub remote: SocketAddress,
}

/// Checks a client's configuration and says what it is to set up.
pub fn execute_client(ifname: String, ifaddr: IpAddress, netmask: u8, remote: SocketAddress) -> (r:
    Result<ClientSession, ConfigError>)
    ensures
        match r {
            Ok(session) => session.remote == remote && spec_configure(ifname@, ifaddr, netmask)
                == Ok::<IfaceView, ConfigError>(session.iface@),
            Err(e) => spec_configure(ifname@, ifaddr, netmask) == Err::<IfaceView, ConfigError>(e),
        },
{
    match configure(ifname.as_str(), &ifaddr, netmask) {
        Ok(iface) => Ok(ClientSession { iface, remote }),
        Err(e) => Err(e),
    }
}

} // verus!
