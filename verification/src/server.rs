use vstd::prelude::*;

use crate::utils::{padded, MsgType, MSGTYPESIZE};

verus! {

/// Size of the buffer a UDP datagram is received into: one byte more than a
/// message, so that an oversized datagram is seen and cut.
pub const DATAGRAM_BUF_SIZE: usize = 1025;

/// The bytes of a datagram of `len` bytes received into `buf` that a message
/// keeps: at most `MSGTYPESIZE` of them.
pub open spec fn kept_bytes(buf: Seq<u8>, len: int) -> Seq<u8> {
    buf.take(if len < MSGTYPESIZE { len } else { MSGTYPESIZE as int })
}

/// The message a UDP receiver makes of a datagram of `len` bytes received
/// into `buf`: its first `MSGTYPESIZE` bytes, then zeros.
pub fn msg_from_datagram(buf: &[u8; DATAGRAM_BUF_SIZE], len: usize) -> (msg: MsgType)
    ensures
        msg@ == padded(kept_bytes(buf@, len as int)),
        forall|j: int| 0 <= j < MSGTYPESIZE ==> msg@[j] == (if j < len { buf@[j] } else { 0u8 }),
{
    let mut msg: MsgType = [0u8; MSGTYPESIZE];
    let copy_len: usize = if len < MSGTYPESIZE { len } else { MSGTYPESIZE };
    for i in 0..copy_len
        invariant
            copy_len <= MSGTYPESIZE,
            buf@.len() == DATAGRAM_BUF_SIZE,
            msg@.len() == MSGTYPESIZE,
            forall|j: int| 0 <= j < i ==> msg@[j] == buf@[j],
            forall|j: int| i <= j < MSGTYPESIZE ==> msg@[j] == 0u8,
    {
        msg[i] = buf[i];
    }
    assert(msg@ =~= padded(kept_bytes(buf@, len as int)));
    msg
}

/// A server that takes strong (TCP) and weak (UDP) traffic from clients and
/// passes it on to a real-time and a history server. It holds the four
/// addresses it works with.
pub struct TcpUdpServer<'a> {
    listener_addr: &'a str,
    udp_receiver_addr: &'a str,
    real_time_server_address: &'a str,
    history_server_address: &'a str,
}

impl<'a> View for TcpUdpServer<'a> {
    /// The TCP listener address, the UDP receiver address, the real-time
    /// server address and the history server address.
    type V = (Seq<char>, Seq<char>, Seq<char>, Seq<char>);

    closed spec fn view(&self) -> Self::V {
        (
            self.listener_addr@,
            self.udp_receiver_addr@,
            self.real_time_server_address@,
            self.history_server_address@,
        )
    }
}

impl<'a> TcpUdpServer<'a> {
    /// A server with the given addresses.
    pub fn new(
        listener_addr: &'a str,
        udp_receiver_addr: &'a str,
        real_time_server_address: &'a str,
        history_server_address: &'a str,
    ) -> (server: Self)
        ensures
            server@ == (
                listener_addr@,
                udp_receiver_addr@,
                real_time_server_address@,
                history_server_address@,
            ),
    {
        TcpUdpServer {
            listener_addr,
            udp_receiver_addr,
            real_time_server_address,
            history_server_address,
        }
    }

    /// Where the strong (TCP) receiver listens.
    pub fn listener_addr(&self) -> (a: &'a str)
        ensures
            a@ == self@.0,
    {
        self.listener_addr
    }

    /// Where the weak (UDP) receiver binds.
    pub fn udp_receiver_addr(&self) -> (a: &'a str)
        ensures
            a@ == self@.1,
    {
        self.udp_receiver_addr
    }

    /// Where weak traffic is published.
    pub fn real_time_server_address(&self) -> (a: &'a str)
        ensures
            a@ == self@.2,
    {
        self.real_time_server_address
    }

    /// Where strong traffic is published.
    pub fn history_server_address(&self) -> (a: &'a str)
        ensures
            a@ == self@.3,
    {
        self.history_server_address
    }
}


/// A tokio UDP socket, carried through opaque.
#[verifier::external_type_specification]
#[verifier::external_body]
pub struct ExUdpSocket(tokio::net::UdpSocket);

/// The weak (UDP) receiver of the server. Its one socket is its one
/// "client": once the socket is handed out, it accepts no more.
pub struct UdpReceiver {
    finish_accepting: bool,
    socket: Option<tokio::net::UdpSocket>,
}

impl UdpReceiver {
    /// The socket it still holds, if any.
    pub closed spec fn socket(&self) -> Option<tokio::net::UdpSocket> {
        self.socket
    }

    /// Whether it has stopped accepting.
    pub closed spec fn finished(&self) -> bool {
        self.finish_accepting
    }

    /// A receiver around the socket that binding gave, or none when binding
    /// failed; it has not accepted yet.
    pub fn with_socket(socket: Option<tokio::net::UdpSocket>) -> (r: Self)
        ensures
            r.socket() == socket,
            !r.finished(),
    {
        UdpReceiver { finish_accepting: false, socket }
    }

    /// Whether it still holds its socket, so that `accept_client` can hand
    /// it out.
    pub fn holds_socket(&self) -> (held: bool)
        ensures
            held == self.socket() is Some,
    {
        self.socket.is_some()
    }

    /// Hands out the socket and stops accepting. It must still hold the
    /// socket: binding succeeded and the socket was not handed out before.
    pub fn accept_client(&mut self) -> (socket: tokio::net::UdpSocket)
        requires
            old(self).socket() is Some,
        ensures
            Some(socket) == old(self).socket(),
            final(self).finished(),
            final(self).socket() is None,
    {
        self.finish_accepting = true;
        self.socket.take().unwrap()
    }

    /// Whether it has stopped accepting.
    pub fn finish_accepting(&self) -> (finished: bool)
        ensures
            finished == self.finished(),
    {
        self.finish_accepting
    }
}

} // verus!
