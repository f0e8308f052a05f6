use vstd::prelude::*;

use tokio::sync::{broadcast, mpsc};

use crate::client::UdpSender;
use crate::utils::{MsgType, MSGTYPESIZE};

verus! {

/// The parameters of a broadcaster that sends over UDP multicast.
pub struct UdpBroadcasterParams {}

/// Compares two message buffers byte by byte.
pub fn msg_eq(a: &MsgType, b: &MsgType) -> (eq: bool)
    ensures
        eq == (a@ == b@),
{
    let mut i: usize = 0;
    while i < MSGTYPESIZE
        invariant
            i <= MSGTYPESIZE,
            a@.len() == MSGTYPESIZE,
            b@.len() == MSGTYPESIZE,
            forall|j: int| 0 <= j < i ==> a@[j] == b@[j],
        decreases MSGTYPESIZE - i,
    {
        if a[i] != b[i] {
            return false;
        }
        i = i + 1;
    }
    assert(a@ =~= b@);
    true
}

/// The set of messages a broadcaster has already passed on. Each message is
/// held once.
pub struct MsgSet {
    msgs: Vec<MsgType>,
}

impl View for MsgSet {
    type V = Set<Seq<u8>>;

    closed spec fn view(&self) -> Set<Seq<u8>> {
        Set::new(|x: Seq<u8>| exists|i: int| 0 <= i < self.msgs@.len() && self.msgs@[i]@ == x)
    }
}

impl MsgSet {
    #[verifier::type_invariant]
    closed spec fn no_repeats(&self) -> bool {
        forall|i: int, j: int|
            0 <= i < j < self.msgs@.len() ==> self.msgs@[i]@ != self.msgs@[j]@
    }

    /// An empty set.
    pub fn new() -> (set: MsgSet)
        ensures
            set@ == Set::<Seq<u8>>::empty(),
    {
        let set = MsgSet { msgs: Vec::new() };
        assert(set@ =~= Set::<Seq<u8>>::empty());
        set
    }

    /// Whether `msg` is in the set.
    pub fn contains(&self, msg: &MsgType) -> (found: bool)
        ensures
            found == self@.contains(msg@),
    {
        let mut i: usize = 0;
        while i < self.msgs.len()
            invariant
                i <= self.msgs@.len(),
                forall|j: int| 0 <= j < i ==> self.msgs@[j]@ != msg@,
            decreases self.msgs@.len() - i,
        {
            if msg_eq(&self.msgs[i], msg) {
                return true;
            }
            i = i + 1;
        }
        false
    }

    /// Adds `msg`; returns whether it was not there before.
    pub fn insert(&mut self, msg: MsgType) -> (added: bool)
        ensures
            added == !old(self)@.contains(msg@),
            final(self)@ == old(self)@.insert(msg@),
    {
        let ghost before = self@;
        if self.contains(&msg) {
            assert(self@ =~= before.insert(msg@));
            false
        } else {
            proof {
                use_type_invariant(&*self);
            }
            let ghost old_msgs = self.msgs@;
            let mut msgs: Vec<MsgType> = Vec::new();
            std::mem::swap(&mut msgs, &mut self.msgs);
            msgs.push(msg);
            assert(msgs@ == old_msgs.push(msg));
            assert forall|i: int| 0 <= i < old_msgs.len() implies old_msgs[i]@ != msg@ by {
                if old_msgs[i]@ == msg@ {
                    assert(before.contains(msg@));
                }
            }
            self.msgs = msgs;
            assert forall|x: Seq<u8>| #[trigger] self@.contains(x) == before.insert(msg@).contains(x) by {
                if before.contains(x) {
                    let i = choose|i: int| 0 <= i < old_msgs.len() && old_msgs[i]@ == x;
                    assert(self.msgs@[i]@ == x);
                }
                if self@.contains(x) {
                    let i = choose|i: int| 0 <= i < self.msgs@.len() && self.msgs@[i]@ == x;
                    if i < old_msgs.len() {
                        assert(old_msgs[i]@ == x);
                    }
                }
                if x == msg@ {
                    assert(self.msgs@[old_msgs.len() as int]@ == x);
                }
            }
            assert(self@ =~= before.insert(msg@));
            true
        }
    }
}

/// Tells whether `msg` was passed on before, and records it as passed. A
/// broadcaster that hears a message a second time (from another boat or
/// through a cycle) does not propagate it again.
pub fn check_if_msg_already_passed(msg: MsgType, old_msg_set: &mut MsgSet) -> (passed: bool)
    ensures
        passed == old(old_msg_set)@.contains(msg@),
        final(old_msg_set)@ == old(old_msg_set)@.insert(msg@),
{
    !old_msg_set.insert(msg)
}

/// The messages, in order, that a broadcaster which has already passed on
/// `seen` sends when it receives `msgs`, each step being one call of
/// `check_if_msg_already_passed`: the message is recorded, and it goes out
/// when the call answers that it was not passed on before.
pub open spec fn forwarded(seen: Set<Seq<u8>>, msgs: Seq<Seq<u8>>) -> Seq<Seq<u8>>
    decreases msgs.len(),
{
    if msgs.len() == 0 {
        seq![]
    } else {
        let later = forwarded(seen.insert(msgs[0]), msgs.drop_first());
        if seen.contains(msgs[0]) {
            later
        } else {
            seq![msgs[0]] + later
        }
    }
}

/// Cycle freedom of the broadcast: whatever the order in which messages
/// arrive, each message goes out at most once, only messages not passed on
/// before go out, and every such message that arrives goes out.
pub proof fn law_forwarded_once(seen: Set<Seq<u8>>, msgs: Seq<Seq<u8>>)
    ensures
        forwarded(seen, msgs).no_duplicates(),
        forall|i: int|
            0 <= i < forwarded(seen, msgs).len() ==> !seen.contains(
                #[trigger] forwarded(seen, msgs)[i],
            ) && msgs.contains(forwarded(seen, msgs)[i]),
        forall|i: int|
            0 <= i < msgs.len() && !seen.contains(#[trigger] msgs[i]) ==> forwarded(
                seen,
                msgs,
            ).contains(msgs[i]),
    decreases msgs.len(),
{
    if msgs.len() > 0 {
        let rest = msgs.drop_first();
        let m = msgs[0];
        if seen.contains(m) {
            assert(seen.insert(m) =~= seen);
            law_forwarded_once(seen, rest);
            let f = forwarded(seen, msgs);
            assert forall|i: int| 0 <= i < f.len() implies !seen.contains(#[trigger] f[i])
                && msgs.contains(f[i]) by {
                let k = choose|k: int| 0 <= k < rest.len() && rest[k] == f[i];
                assert(msgs[k + 1] == f[i]);
            }
            assert forall|i: int| 0 <= i < msgs.len() && !seen.contains(#[trigger] msgs[i])
                implies f.contains(msgs[i]) by {
                assert(rest[i - 1] == msgs[i]);
            }
        } else {
            let seen2 = seen.insert(m);
            law_forwarded_once(seen2, rest);
            let g = forwarded(seen2, rest);
            let f = forwarded(seen, msgs);
            assert(f == seq![m] + g);
            assert forall|i: int| 0 <= i < f.len() implies !seen.contains(#[trigger] f[i])
                && msgs.contains(f[i]) by {
                if i == 0 {
                    assert(msgs[0] == m);
                } else {
                    assert(f[i] == g[i - 1]);
                    let k = choose|k: int| 0 <= k < rest.len() && rest[k] == g[i - 1];
                    assert(msgs[k + 1] == f[i]);
                }
            }
            assert forall|i: int| 0 <= i < msgs.len() && !seen.contains(#[trigger] msgs[i])
                implies f.contains(msgs[i]) by {
                if msgs[i] == m {
                    assert(f[0] == m);
                } else {
                    assert(rest[i - 1] == msgs[i]);
                    assert(!seen2.contains(rest[i - 1]));
                    let k = choose|k: int| 0 <= k < g.len() && g[k] == msgs[i];
                    assert(f[k + 1] == msgs[i]);
                }
            }
            assert forall|a: int, b: int| 0 <= a < f.len() && 0 <= b < f.len() && a != b
                implies f[a] != f[b] by {
                if a != 0 && b != 0 {
                    assert(f[a] == g[a - 1]);
                    assert(f[b] == g[b - 1]);
                } else if a == 0 {
                    assert(f[b] == g[b - 1]);
                    assert(!seen2.contains(g[b - 1]));
                } else {
                    assert(f[a] == g[a - 1]);
                    assert(!seen2.contains(g[a - 1]));
                }
            }
        }
    }
}


/// The sending half of a tokio broadcast channel, carried through opaque.
#[verifier::external_type_specification]
#[verifier::external_body]
#[verifier::reject_recursive_types(T)]
pub struct ExBroadcastSender<T>(broadcast::Sender<T>);

/// The receiving half of a tokio broadcast channel, carried through opaque.
#[verifier::external_type_specification]
#[verifier::external_body]
#[verifier::reject_recursive_types(T)]
pub struct ExBroadcastReceiver<T>(broadcast::Receiver<T>);

/// The sending half of a tokio unbounded channel, carried through opaque.
#[verifier::external_type_specification]
#[verifier::external_body]
#[verifier::reject_recursive_types(T)]
pub struct ExUnboundedSender<T>(mpsc::UnboundedSender<T>);

/// The receiving half of a tokio unbounded channel, carried through opaque.
#[verifier::external_type_specification]
#[verifier::external_body]
#[verifier::reject_recursive_types(T)]
pub struct ExUnboundedReceiver<T>(mpsc::UnboundedReceiver<T>);

/// A broadcaster that stands in for a radio link: a tokio broadcast channel
/// that every boat's broadcaster shares. It holds its arguments until the
/// broadcaster starts and hands them out once.
#[verifier::reject_recursive_types(M)]
pub struct BroadcasterMockup<M> {
    receiver_arg: Option<broadcast::Receiver<M>>,
    sender_arg: Option<broadcast::Sender<M>>,
    log_arg: Option<()>,
    local_recv_channel: Option<mpsc::UnboundedReceiver<M>>,
    local_send_channel: Option<mpsc::UnboundedSender<M>>,
}

/// The arguments a broadcaster runs with: the receiving end of the shared
/// channel, its sending end, the logger's argument, and the local channel's
/// receiving and sending ends.
pub type MockupArgs<M> = (
    broadcast::Receiver<M>,
    broadcast::Sender<M>,
    (),
    mpsc::UnboundedReceiver<M>,
    mpsc::UnboundedSender<M>,
);

impl<M> BroadcasterMockup<M> {
    /// The receiving end of the shared channel it holds, if any.
    pub closed spec fn receiver_arg(&self) -> Option<broadcast::Receiver<M>> {
        self.receiver_arg
    }

    /// The sending end of the shared channel it holds, if any.
    pub closed spec fn sender_arg(&self) -> Option<broadcast::Sender<M>> {
        self.sender_arg
    }

    /// The logger's argument it holds, if any.
    pub closed spec fn log_arg(&self) -> Option<()> {
        self.log_arg
    }

    /// The receiving end of the local channel it holds, if any.
    pub closed spec fn local_recv_channel(&self) -> Option<mpsc::UnboundedReceiver<M>> {
        self.local_recv_channel
    }

    /// The sending end of the local channel it holds, if any.
    pub closed spec fn local_send_channel(&self) -> Option<mpsc::UnboundedSender<M>> {
        self.local_send_channel
    }

    /// A broadcaster holding the given arguments.
    pub fn new(
        receiver_arg: broadcast::Receiver<M>,
        sender_arg: broadcast::Sender<M>,
        log_arg: (),
        local_recv_channel: mpsc::UnboundedReceiver<M>,
        local_send_channel: mpsc::UnboundedSender<M>,
    ) -> (b: Self)
        ensures
            b.receiver_arg() == Some(receiver_arg),
            b.sender_arg() == Some(sender_arg),
            b.log_arg() == Some(log_arg),
            b.local_recv_channel() == Some(local_recv_channel),
            b.local_send_channel() == Some(local_send_channel),
    {
        BroadcasterMockup {
            receiver_arg: Some(receiver_arg),
            sender_arg: Some(sender_arg),
            log_arg: Some(log_arg),
            local_recv_channel: Some(local_recv_channel),
            local_send_channel: Some(local_send_channel),
        }
    }

    /// Sets the local channel, both its ends: the broadcaster sends what it
    /// takes from the local channel's receiving end, and relays what it hears
    /// into its sending end.
    pub fn set_recv_channel(
        &mut self,
        recv_channel: mpsc::UnboundedReceiver<M>,
        send_channel: mpsc::UnboundedSender<M>,
    )
        ensures
            final(self).local_recv_channel() == Some(recv_channel),
            final(self).local_send_channel() == Some(send_channel),
            final(self).receiver_arg() == old(self).receiver_arg(),
            final(self).sender_arg() == old(self).sender_arg(),
            final(self).log_arg() == old(self).log_arg(),
    {
        self.local_recv_channel = Some(recv_channel);
        self.local_send_channel = Some(send_channel);
    }

    /// The first argument, in the order they are handed out, that it no
    /// longer holds.
    pub open spec fn first_missing(&self) -> Option<MockupArg> {
        if self.receiver_arg() is None {
            Some(MockupArg::ReceiverArg)
        } else if self.sender_arg() is None {
            Some(MockupArg::SenderArg)
        } else if self.log_arg() is None {
            Some(MockupArg::LogArg)
        } else if self.local_recv_channel() is None {
            Some(MockupArg::LocalRecvChannel)
        } else if self.local_send_channel() is None {
            Some(MockupArg::LocalSendChannel)
        } else {
            None
        }
    }

    /// The first argument, in the order they are handed out, that it no
    /// longer holds; `None` when it can start.
    pub fn missing_arg(&self) -> (missing: Option<MockupArg>)
        ensures
            missing == self.first_missing(),
    {
        if self.receiver_arg.is_none() {
            Some(MockupArg::ReceiverArg)
        } else if self.sender_arg.is_none() {
            Some(MockupArg::SenderArg)
        } else if self.log_arg.is_none() {
            Some(MockupArg::LogArg)
        } else if self.local_recv_channel.is_none() {
            Some(MockupArg::LocalRecvChannel)
        } else if self.local_send_channel.is_none() {
            Some(MockupArg::LocalSendChannel)
        } else {
            None
        }
    }

    /// Hands out all the arguments, which it then no longer holds, so that it
    /// cannot start a second time. It must hold all of them.
    pub fn get_args(&mut self) -> (args: MockupArgs<M>)
        requires
            old(self).first_missing() is None,
        ensures
            Some(args.0) == old(self).receiver_arg(),
            Some(args.1) == old(self).sender_arg(),
            Some(args.2) == old(self).log_arg(),
            Some(args.3) == old(self).local_recv_channel(),
            Some(args.4) == old(self).local_send_channel(),
            final(self).receiver_arg() is None,
            final(self).sender_arg() is None,
            final(self).log_arg() is None,
            final(self).local_recv_channel() is None,
            final(self).local_send_channel() is None,
            final(self).first_missing() == Some(MockupArg::ReceiverArg),
    {
        (
            self.receiver_arg.take().unwrap(),
            self.sender_arg.take().unwrap(),
            self.log_arg.take().unwrap(),
            self.local_recv_channel.take().unwrap(),
            self.local_send_channel.take().unwrap(),
        )
    }
}

/// An argument of a `BroadcasterMockup`.
#[derive(PartialEq, Eq, Structural)]
pub enum MockupArg {
    ReceiverArg,
    SenderArg,
    LogArg,
    LocalRecvChannel,
    LocalSendChannel,
}


/// An IPv4 multicast group address and port.
#[derive(Clone, Copy)]
pub struct MulticastAddr {
    pub ip: [u8; 4],
    pub port: u16,
}

/// A broadcaster over UDP multicast: a socket that sends to the group, a
/// socket that has joined it, and a sender that logs what it hears. It holds
/// these, and the local channel once it is set, until it starts, and hands
/// them out once.
pub struct UdpBroadcaster {
    sender_socket: Option<tokio::net::UdpSocket>,
    receiver_socket: Option<tokio::net::UdpSocket>,
    log_arg: Option<UdpSender>,
    local_recv_channel: Option<mpsc::UnboundedReceiver<MsgType>>,
    local_send_channel: Option<mpsc::UnboundedSender<MsgType>>,
    multicast_address: MulticastAddr,
}

/// The arguments a UDP broadcaster runs with: the receiving socket, the
/// sending socket with the group's address, the logger, and the local
/// channel's receiving and sending ends.
pub type UdpBroadcasterArgs = (
    tokio::net::UdpSocket,
    (tokio::net::UdpSocket, MulticastAddr),
    UdpSender,
    mpsc::UnboundedReceiver<MsgType>,
    mpsc::UnboundedSender<MsgType>,
);

/// An argument of a `UdpBroadcaster`.
#[derive(PartialEq, Eq, Structural)]
pub enum UdpBroadcasterArg {
    ReceiverSocket,
    SenderSocket,
    LogArg,
    LocalRecvChannel,
    LocalSendChannel,
}

impl UdpBroadcaster {
    /// The sending socket it holds, if any.
    pub closed spec fn sender_socket(&self) -> Option<tokio::net::UdpSocket> {
        self.sender_socket
    }

    /// The receiving socket it holds, if any.
    pub closed spec fn receiver_socket(&self) -> Option<tokio::net::UdpSocket> {
        self.receiver_socket
    }

    /// The logger it holds, if any.
    pub closed spec fn log_arg(&self) -> Option<UdpSender> {
        self.log_arg
    }

    /// The receiving end of the local channel it holds, if any.
    pub closed spec fn local_recv_channel(&self) -> Option<mpsc::UnboundedReceiver<MsgType>> {
        self.local_recv_channel
    }

    /// The sending end of the local channel it holds, if any.
    pub closed spec fn local_send_channel(&self) -> Option<mpsc::UnboundedSender<MsgType>> {
        self.local_send_channel
    }

    /// The multicast group it sends to.
    pub closed spec fn multicast_address(&self) -> MulticastAddr {
        self.multicast_address
    }

    /// A broadcaster around sockets that are set up, before its local channel
    /// is set.
    pub fn from_sockets(
        sender_socket: tokio::net::UdpSocket,
        receiver_socket: tokio::net::UdpSocket,
        log_arg: UdpSender,
        multicast_address: MulticastAddr,
    ) -> (b: Self)
        ensures
            b.sender_socket() == Some(sender_socket),
            b.receiver_socket() == Some(receiver_socket),
            b.log_arg() == Some(log_arg),
            b.local_recv_channel() is None,
            b.local_send_channel() is None,
            b.multicast_address() == multicast_address,
    {
        UdpBroadcaster {
            sender_socket: Some(sender_socket),
            receiver_socket: Some(receiver_socket),
            log_arg: Some(log_arg),
            local_recv_channel: None,
            local_send_channel: None,
            multicast_address,
        }
    }

    /// Sets the local channel.
    pub fn set_recv_channel(
        &mut self,
        recv_channel: mpsc::UnboundedReceiver<MsgType>,
        send_channel: mpsc::UnboundedSender<MsgType>,
    )
        ensures
            final(self).local_recv_channel() == Some(recv_channel),
            final(self).local_send_channel() == Some(send_channel),
            final(self).sender_socket() == old(self).sender_socket(),
            final(self).receiver_socket() == old(self).receiver_socket(),
            final(self).log_arg() == old(self).log_arg(),
            final(self).multicast_address() == old(self).multicast_address(),
    {
        self.local_recv_channel = Some(recv_channel);
        self.local_send_channel = Some(send_channel);
    }

    /// The first argument, in the order they are handed out, that it no
    /// longer holds.
    pub open spec fn first_missing(&self) -> Option<UdpBroadcasterArg> {
        if self.receiver_socket() is None {
            Some(UdpBroadcasterArg::ReceiverSocket)
        } else if self.sender_socket() is None {
            Some(UdpBroadcasterArg::SenderSocket)
        } else if self.log_arg() is None {
            Some(UdpBroadcasterArg::LogArg)
        } else if self.local_recv_channel() is None {
            Some(UdpBroadcasterArg::LocalRecvChannel)
        } else if self.local_send_channel() is None {
            Some(UdpBroadcasterArg::LocalSendChannel)
        } else {
            None
        }
    }

    /// The first argument, in the order they are handed out, that it no
    /// longer holds; `None` when it can start.
    pub fn missing_arg(&self) -> (missing: Option<UdpBroadcasterArg>)
        ensures
            missing == self.first_missing(),
    {
        if self.receiver_socket.is_none() {
            Some(UdpBroadcasterArg::ReceiverSocket)
        } else if self.sender_socket.is_none() {
            Some(UdpBroadcasterArg::SenderSocket)
        } else if self.log_arg.is_none() {
            Some(UdpBroadcasterArg::LogArg)
        } else if self.local_recv_channel.is_none() {
            Some(UdpBroadcasterArg::LocalRecvChannel)
        } else if self.local_send_channel.is_none() {
            Some(UdpBroadcasterArg::LocalSendChannel)
        } else {
            None
        }
    }

    /// Hands out all the arguments, which it then no longer holds, so that it
    /// cannot start a second time. It must hold all of them: its local
    /// channel must be set.
    pub fn get_args(&mut self) -> (args: UdpBroadcasterArgs)
        requires
            old(self).first_missing() is None,
        ensures
            Some(args.0) == old(self).receiver_socket(),
            Some(args.1.0) == old(self).sender_socket(),
            args.1.1 == old(self).multicast_address(),
            Some(args.2) == old(self).log_arg(),
            Some(args.3) == old(self).local_recv_channel(),
            Some(args.4) == old(self).local_send_channel(),
            final(self).receiver_socket() is None,
            final(self).sender_socket() is None,
            final(self).log_arg() is None,
            final(self).local_recv_channel() is None,
            final(self).local_send_channel() is None,
            final(self).multicast_address() == old(self).multicast_address(),
            final(self).first_missing() == Some(UdpBroadcasterArg::ReceiverSocket),
    {
        (
            self.receiver_socket.take().unwrap(),
            (self.sender_socket.take().unwrap(), self.multicast_address),
            self.log_arg.take().unwrap(),
            self.local_recv_channel.take().unwrap(),
            self.local_send_channel.take().unwrap(),
        )
    }
}

} // verus!
