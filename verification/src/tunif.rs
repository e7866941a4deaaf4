//! The virtual interface, as far as it can be described without touching
//! the system: its name, address and prefix length, the checks they have to
//! pass, the fields of the control requests that configure it, and whether
//! it is up.
use crate::wire::put_bytes;
use vstd::prelude::*;
use vstd::string::StringSliceAdditionalSpecFns;

verus! {

/// Bytes of the name field in an interface request, the closing zero byte
/// included.
pub const IFNAMSIZ: usize = 16;

/// Longest interface name, in bytes.
pub const MAX_NAME_LEN: usize = 15;

/// Longest prefix of an IPv4 address, in bits.
pub const MAX_PREFIX: u8 = 32;

/// The network mask of a prefix length, as a 32-bit word: the `prefix`
/// highest bits set and the rest clear.
pub open spec fn spec_netmask(prefix: u8) -> u32
    recommends
        prefix <= 32,
{
    if prefix == 0 {
        0u32
    } else {
        0xFFFF_FFFFu32 << ((32 - prefix) as u32)
    }
}

/// Computes the network mask of a prefix length.
pub fn get_netmask(n: u8) -> (mask: u32)
    requires
        n <= 32,
    ensures
        mask == spec_netmask(n),
{
    if n == 0 {
        0
    } else {
        let shift: u32 = 32 - (n as u32);
        0xFFFF_FFFFu32 << shift
    }
}

/// The mask of a prefix length has exactly its `prefix` highest bits set.
pub proof fn lemma_netmask_bits(prefix: u8, bit: u32)
    requires
        prefix <= 32,
        bit < 32,
    ensures
        ((spec_netmask(prefix) >> bit) & 1 == 1) <==> bit + prefix >= 32,
{
    assert(((spec_netmask(prefix) >> bit) & 1 == 1) <==> bit + prefix >= 32) by (bit_vector)
        requires
            prefix <= 32,
            bit < 32,
    ;
}

/// Two different prefix lengths never share a mask.
pub proof fn lemma_netmask_injective(p: u8, q: u8)
    requires
        p <= 32,
        q <= 32,
        p != q,
    ensures
        spec_netmask(p) != spec_netmask(q),
{
    assert(spec_netmask(p) != spec_netmask(q)) by (bit_vector)
        requires
            p <= 32,
            q <= 32,
            p != q,
    ;
}

/// Why an interface cannot be described.
#[derive(Debug, Clone, Copy, PartialEq, Eq, Structural)]
pub enum IfaceError {
    /// The prefix length is above `MAX_PREFIX`.
    BadPrefix(u8),
    /// The name has so many bytes, more than `MAX_NAME_LEN`.
    NameTooLong(usize),
    /// The name holds a zero byte.
    NameHasNul,
}

/// Whether the bytes can name an interface: few enough to leave room for
/// the closing zero byte of a request's name field, and none of them zero.
pub open spec fn valid_name(name: Seq<u8>) -> bool {
    &&& name.len() <= MAX_NAME_LEN
    &&& forall|i: int| 0 <= i < name.len() ==> name[i] != 0
}

/// The name field of an interface request: the name, filled up with zero
/// bytes to `IFNAMSIZ`.
pub open spec fn name_field(name: Seq<u8>) -> Seq<u8>
    recommends
        valid_name(name),
{
    Seq::new(
        IFNAMSIZ as nat,
        |i: int|
            if i < name.len() {
                name[i]
            } else {
                0u8
            },
    )
}

/// The octets of a prefix length's network mask, first octet first.
pub open spec fn netmask_bytes(prefix: u8) -> Seq<u8>
    recommends
        prefix <= MAX_PREFIX,
{
    crate::wire::be32(spec_netmask(prefix))
}

/// A virtual interface: what it is called, where it sits, and whether it is
/// up.
#[derive(Debug)]
pub struct Iface {
    name: Vec<u8>,
    ip: [u8; 4],
    netmask: u8,
    up: bool,
}

/// The mathematical value of an `Iface`.
pub struct IfaceView {
    /// The bytes of the interface's name.
    pub name: Seq<u8>,
    /// The octets of its IPv4 address, first octet first.
    pub ip: [u8; 4],
    /// The prefix length of its subnet.
    pub netmask: u8,
    /// Whether it is up.
    pub up: bool,
}

impl IfaceView {
    /// What holds of every interface: its prefix length is in range, and its
    /// name is one an interface can have.
    pub open spec fn wf(self) -> bool {
        self.netmask <= MAX_PREFIX && valid_name(self.name)
    }

    /// The interface that `Iface::new` describes, or the first check that
    /// fails: the prefix length is judged first, then the name's length,
    /// then its bytes. A new interface is down.
    pub open spec fn new(name: Seq<u8>, ip: [u8; 4], netmask: u8) -> Result<IfaceView, IfaceError> {
        if netmask > MAX_PREFIX {
            Err(IfaceError::BadPrefix(netmask))
        } else if name.len() > MAX_NAME_LEN {
            Err(IfaceError::NameTooLong(name.len() as usize))
        } else if exists|i: int| 0 <= i < name.len() && name[i] == 0 {
            Err(IfaceError::NameHasNul)
        } else {
            Ok(IfaceView { name, ip, netmask, up: false })
        }
    }
}

impl View for Iface {
    type V = IfaceView;

    closed spec fn view(&self) -> IfaceView {
        IfaceView { name: self.name@, ip: self.ip, netmask: self.netmask, up: self.up }
    }
}

impl Iface {
    #[verifier::type_invariant]
    closed spec fn inv(self) -> bool {
        self@.wf()
    }

    /// Describes an interface called `n`, at address `ip`, on a subnet with
    /// a prefix of `netmask` bits. The interface is down.
    pub fn new(n: &str, ip: [u8; 4], netmask: u8) -> (r: Result<Iface, IfaceError>)
        ensures
            match r {
                Ok(iface) => IfaceView::new(n.spec_bytes(), ip, netmask) == Ok::<
                    IfaceView,
                    IfaceError,
                >(iface@) && iface@.wf(),
                Err(e) => IfaceView::new(n.spec_bytes(), ip, netmask) == Err::<
                    IfaceView,
                    IfaceError,
                >(e),
            },
    {
        if netmask > MAX_PREFIX {
            return Err(IfaceError::BadPrefix(netmask));
        }
        let bytes = n.as_bytes();
        if bytes.len() > MAX_NAME_LEN {
            return Err(IfaceError::NameTooLong(bytes.len()));
        }
        let mut i: usize = 0;
        while i < bytes.len()
            invariant
                netmask <= MAX_PREFIX,
                bytes@ == n.spec_bytes(),
                i <= bytes.len() <= MAX_NAME_LEN,
                forall|j: int| 0 <= j < i ==> bytes@[j] != 0,
            decreases bytes.len() - i,
        {
            if bytes[i] == 0 {
                assert(0 <= i < bytes@.len() && bytes@[i as int] == 0);
                return Err(IfaceError::NameHasNul);
            }
            i += 1;
        }
        let mut name: Vec<u8> = Vec::new();
        put_bytes(&mut name, bytes);
        assert(name@ =~= bytes@);
        Ok(Iface { name, ip, netmask, up: false })
    }

    /// The bytes of the interface's name.
    pub fn name(&self) -> (name: &[u8])
        ensures
            name@ == self@.name,
            valid_name(name@),
    {
        proof {
            use_type_invariant(self);
        }
        self.name.as_slice()
    }

    /// The octets of the interface's address.
    pub fn ip(&self) -> (ip: [u8; 4])
        ensures
            ip == self@.ip,
    {
        self.ip
    }

    /// The prefix length of the interface's subnet.
    pub fn netmask(&self) -> (netmask: u8)
        ensures
            netmask == self@.netmask,
            netmask <= MAX_PREFIX,
    {
        proof {
            use_type_invariant(self);
        }
        self.netmask
    }

    /// Whether the interface is up.
    pub fn is_up(&self) -> (up: bool)
        ensures
            up == self@.up,
    {
        self.up
    }

    /// The name field of a request that is to configure this interface.
    pub fn ifr_name(&self) -> (field: [u8; 16])
        ensures
            field@ == name_field(self@.name),
            field@[IFNAMSIZ - 1] == 0,
    {
        proof {
            use_type_invariant(self);
        }
        let mut field: [u8; 16] = [0u8; 16];
        let mut i: usize = 0;
        while i < self.name.len()
            invariant
                i <= self.name.len() <= MAX_NAME_LEN,
                forall|j: int| 0 <= j < i ==> field@[j] == self.name@[j],
                forall|j: int| i <= j < IFNAMSIZ ==> field@[j] == 0,
            decreases self.name.len() - i,
        {
            field[i] = self.name[i];
            i += 1;
        }
        assert(field@ =~= name_field(self@.name));
        field
    }

    /// The octets of the interface's network mask, first octet first.
    pub fn netmask_octets(&self) -> (octets: Vec<u8>)
        ensures
            octets@ == netmask_bytes(self@.netmask),
    {
        proof {
            use_type_invariant(self);
        }
        let mut octets: Vec<u8> = Vec::new();
        crate::wire::put_u32(&mut octets, get_netmask(self.netmask));
        assert(octets@ =~= netmask_bytes(self@.netmask));
        octets
    }

    /// Marks the interface as up. Says whether it has to be brought up:
    /// whether it was down.
    pub fn bring_up(&mut self) -> (due: bool)
        ensures
            final(self)@ == (IfaceView { up: true, ..old(self)@ }),
            due == !old(self)@.up,
    {
        proof {
            use_type_invariant(&*self);
        }
        let due = !self.up;
        self.up = true;
        due
    }

    /// Marks the interface as down. Says whether it has to be brought down:
    /// whether it was up.
    pub fn bring_down(&mut self) -> (due: bool)
        ensures
            final(self)@ == (IfaceView { up: false, ..old(self)@ }),
            due == old(self)@.up,
    {
        proof {
            use_type_invariant(&*self);
        }
        let due = self.up;
        self.up = false;
        due
    }
}

/// The interface after each of `downs` calls of `bring_down`, and how many
/// of them found it up.
pub open spec fn torn_down(iface: IfaceView, downs: nat) -> (IfaceView, nat)
    decreases downs,
{
    if downs == 0 {
        (iface, 0)
    } else {
        let (later, due) = torn_down(IfaceView { up: false, ..iface }, (downs - 1) as nat);
        (
            later,
            due + if iface.up {
                1nat
            } else {
                0nat
            },
        )
    }
}

/// Teardown is idempotent. However often the interface is brought down, it
/// ends up down, nothing else about it changes, and at most one of the
/// calls finds work to do: exactly one where it was up, none where it was
/// down already.
pub proof fn lemma_teardown_once(iface: IfaceView, downs: nat)
    requires
        downs > 0,
    ensures
        torn_down(iface, downs).0 == (IfaceView { up: false, ..iface }),
        torn_down(iface, downs).1 == if iface.up {
            1nat
        } else {
            0nat
        },
    decreases downs,
{
    reveal_with_fuel(torn_down, 2);
    if downs > 1 {
        lemma_teardown_once(IfaceView { up: false, ..iface }, (downs - 1) as nat);
    }
}

} // verus!
