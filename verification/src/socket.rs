//! The engine's view of the host's UDP sockets: socket handles, how the
//! host's status codes read, and what a received datagram holds.
//!
//! The host answers every socket call with an `i32`: a negative value is a
//! failure, anything else is a success (a handle, a count, a length).

use vstd::prelude::*;
use vstd::slice::{slice_subrange, slice_to_vec};
use vstd::utf8::{decode_utf8, valid_utf8};
use crate::text::utf8_str;

verus! {

/// Address family of a socket.
#[derive(Debug, Clone, Copy, PartialEq, Eq, Structural)]
pub enum SocketType {
    Udp4,
    Udp6,
}

impl SocketType {
    /// The number by which the host's create call names this family.
    pub open spec fn spec_code(self) -> i32 {
        match self {
            SocketType::Udp4 => 0,
            SocketType::Udp6 => 1,
        }
    }

    /// The number by which the host's create call names this family.
    pub fn code(&self) -> (c: i32)
        ensures
            c == self.spec_code(),
    {
        match self {
            SocketType::Udp4 => 0,
            SocketType::Udp6 => 1,
        }
    }
}

/// The socket calls the host offers.
#[derive(Debug, Clone, Copy, PartialEq, Eq, Structural)]
pub enum SocketOp {
    Create,
    Bind,
    JoinMulticast,
    LeaveMulticast,
    SetMulticastTtl,
    SetMulticastLoopback,
    SetBroadcast,
    Send,
    Receive,
}

impl SocketOp {
    /// The error reported when the host refuses this call.
    pub open spec fn failure_text(self) -> Seq<char> {
        match self {
            SocketOp::Create => "Failed to create socket"@,
            SocketOp::Bind => "Failed to bind socket"@,
            SocketOp::JoinMulticast => "Failed to join multicast group"@,
            SocketOp::LeaveMulticast => "Failed to leave multicast group"@,
            SocketOp::SetMulticastTtl => "Failed to set multicast TTL"@,
            SocketOp::SetMulticastLoopback => "Failed to set multicast loopback"@,
            SocketOp::SetBroadcast => "Failed to set broadcast"@,
            SocketOp::Send => "Failed to send data"@,
            SocketOp::Receive => "Failed to receive data"@,
        }
    }

    /// The error reported when the host refuses this call.
    pub fn failure_message(&self) -> (m: &'static str)
        ensures
            m@ == self.failure_text(),
    {
        match self {
            SocketOp::Create => "Failed to create socket",
            SocketOp::Bind => "Failed to bind socket",
            SocketOp::JoinMulticast => "Failed to join multicast group",
            SocketOp::LeaveMulticast => "Failed to leave multicast group",
            SocketOp::SetMulticastTtl => "Failed to set multicast TTL",
            SocketOp::SetMulticastLoopback => "Failed to set multicast loopback",
            SocketOp::SetBroadcast => "Failed to set broadcast",
            SocketOp::Send => "Failed to send data",
            SocketOp::Receive => "Failed to receive data",
        }
    }
}

/// Reads the host's answer to `op`: a negative status is the failure of
/// `op`, any other status is handed back.
pub fn check_status(op: SocketOp, status: i32) -> (r: Result<i32, &'static str>)
    ensures
        r is Err <==> status < 0,
        r matches Ok(v) ==> v == status,
        r matches Err(m) ==> m@ == op.failure_text(),
{
    if status < 0 {
        Err(op.failure_message())
    } else {
        Ok(status)
    }
}


/// A socket the host has opened, known by the handle it returned.
#[derive(Debug)]
pub struct UdpSocket {
    id: i32,
}

/// A request for the host to open a socket of `socket_type`; the host's
/// answer completes it.
#[derive(Debug, Clone, Copy, PartialEq, Eq, Structural)]
pub struct OpenRequest {
    pub socket_type: SocketType,
}

impl View for UdpSocket {
    type V = i32;

    /// The host's handle for the socket.
    closed spec fn view(&self) -> i32 {
        self.id
    }
}

impl UdpSocket {
    /// Asks for a new socket of the given family.
    pub fn new(socket_type: SocketType) -> (r: OpenRequest)
        ensures
            r.socket_type == socket_type,
    {
        OpenRequest { socket_type }
    }

    /// Asks for a new IPv4 socket.
    pub fn new_v4() -> (r: OpenRequest)
        ensures
            r.socket_type == SocketType::Udp4,
    {
        Self::new(SocketType::Udp4)
    }

    /// Asks for a new IPv6 socket.
    pub fn new_v6() -> (r: OpenRequest)
        ensures
            r.socket_type == SocketType::Udp6,
    {
        Self::new(SocketType::Udp6)
    }

    /// The host's handle for this socket.
    pub fn id(&self) -> (r: i32)
        ensures
            r == self@,
    {
        self.id
    }

    /// The number of datagrams waiting, from the host's answer to a
    /// pending-count call: a failed call counts as none.
    pub fn pending(&self, status: i32) -> (n: usize)
        ensures
            status < 0 ==> n == 0,
            status >= 0 ==> n == status,
    {
        if status < 0 {
            0
        } else {
            status as usize
        }
    }

    /// Whether a datagram is waiting, from the host's answer to a
    /// pending-count call.
    pub fn has_data(&self, pending_status: i32) -> (b: bool)
        ensures
            b == (pending_status > 0),
    {
        self.pending(pending_status) > 0
    }

    /// Reads the host's answer to a receive call: `status` is the datagram's
    /// length (zero when nothing was waiting, negative on failure),
    /// `addr_buf` the sender's address as NUL-terminated text and `port` the
    /// sender's port.
    pub fn recv_from(&self, status: i32, addr_buf: &[u8; 46], port: u16) -> (r: Result<
        Option<(usize, String, u16)>,
        &'static str,
    >)
        ensures
            r is Err <==> status < 0,
            r matches Err(m) ==> m@ == SocketOp::Receive.failure_text(),
            r matches Ok(None) <==> status == 0,
            r matches Ok(Some((n, addr, p))) ==> {
                &&& n == status
                &&& addr@ == source_address(addr_buf@)
                &&& p == port
            },
    {
        if status < 0 {
            Err(SocketOp::Receive.failure_message())
        } else if status == 0 {
            Ok(None)
        } else {
            let addr = address_text(addr_buf.as_slice());
            Ok(Some((status as usize, addr, port)))
        }
    }

    /// Reads the host's answer to a receive call into a datagram that owns
    /// its bytes: the first `status` bytes of `buf`.
    pub fn recv_datagram(&self, status: i32, buf: &[u8], addr_buf: &[u8; 46], port: u16) -> (r:
        Result<Option<Datagram>, &'static str>)
        requires
            status <= buf@.len(),
        ensures
            r is Err <==> status < 0,
            r matches Err(m) ==> m@ == SocketOp::Receive.failure_text(),
            r matches Ok(None) <==> status == 0,
            r matches Ok(Some(d)) ==> {
                &&& d.data@ == buf@.take(status as int)
                &&& d.source_addr@ == source_address(addr_buf@)
                &&& d.source_port == port
            },
    {
        match self.recv_from(status, addr_buf, port) {
            Err(e) => Err(e),
            Ok(None) => Ok(None),
            Ok(Some((len, addr, p))) => {
                let data = slice_to_vec(slice_subrange(buf, 0, len));
                Ok(Some(Datagram { data, source_addr: addr, source_port: p }))
            },
        }
    }
}

impl OpenRequest {
    /// The number the host's create call takes for this request.
    pub fn type_code(&self) -> (c: i32)
        ensures
            c == self.socket_type.spec_code(),
    {
        self.socket_type.code()
    }

    /// Reads the host's answer to the create call: a handle, or a failure.
    pub fn complete(self, status: i32) -> (r: Result<UdpSocket, &'static str>)
        ensures
            r is Err <==> status < 0,
            r matches Ok(s) ==> s@ == status,
            r matches Err(m) ==> m@ == SocketOp::Create.failure_text(),
    {
        match check_status(SocketOp::Create, status) {
            Ok(id) => Ok(UdpSocket { id }),
            Err(e) => Err(e),
        }
    }
}

/// A received datagram with its sender.
#[derive(Debug)]
pub struct Datagram {
    pub data: Vec<u8>,
    pub source_addr: String,
    pub source_port: u16,
}

/// The bytes of `s` before its first NUL, or all of `s` when it has none.
pub open spec fn until_nul(s: Seq<u8>) -> Seq<u8>
    decreases s.len(),
{
    if s.len() == 0 || s[0] == 0 {
        seq![]
    } else {
        seq![s[0]] + until_nul(s.drop_first())
    }
}

/// The sender's address as the host writes it: text up to the first NUL,
/// read as UTF-8; empty when that text is not valid UTF-8.
pub open spec fn source_address(addr_buf: Seq<u8>) -> Seq<char> {
    let t = until_nul(addr_buf);
    if valid_utf8(t) {
        decode_utf8(t)
    } else {
        seq![]
    }
}

/// When no byte before `k` is NUL and `k` is the end or a NUL, the text up
/// to the first NUL is the first `k` bytes.
proof fn lemma_until_nul(s: Seq<u8>, k: int)
    requires
        0 <= k <= s.len(),
        forall|i: int| 0 <= i < k ==> s[i] != 0,
        k == s.len() || s[k] == 0,
    ensures
        until_nul(s) == s.take(k),
    decreases k,
{
    if k == 0 {
        assert(s.take(0) =~= seq![]);
    } else {
        lemma_until_nul(s.drop_first(), k - 1);
        assert(seq![s[0]] + s.drop_first().take(k - 1) =~= s.take(k));
    }
}

/// Decodes the NUL-terminated address the host wrote.
fn address_text(addr_buf: &[u8]) -> (r: String)
    ensures
        r@ == source_address(addr_buf@),
{
    let mut k: usize = 0;
    while k < addr_buf.len() && addr_buf[k] != 0
        invariant
            k <= addr_buf@.len(),
            forall|i: int| 0 <= i < k ==> addr_buf@[i] != 0,
        decreases addr_buf@.len() - k,
    {
        k = k + 1;
    }
    proof {
        lemma_until_nul(addr_buf@, k as int);
    }
    let text = slice_subrange(addr_buf, 0, k);
    match utf8_str(text) {
        Some(s) => String::from_str(s),
        None => String::new(),
    }
}

} // verus!
