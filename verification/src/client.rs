use vstd::prelude::*;
use vstd::utf8::*;

use crate::server::{kept_bytes, DATAGRAM_BUF_SIZE};
use crate::text::{
    has_marker, lemma_trim_end_padding_nul_free, lemma_trim_ws_of_trimmed_end, trim_end_padding,
    trim_end_padding_of, trim_ws,
};
use crate::utils::{
    before_marker, build_timestamped_ais_message, law_msg_roundtrip, lemma_before_marker_of_joined,
    msg_text, MSGTYPESIZE, lenient_utf8, padded, split_message_on_timestamp,
    clock_since_epoch, rfc3339_text, string_from_utf8_lossy, string_to_msg_type, timestamped, utc_time_from_clock, AISResponse, MsgType,
};

verus! {

/// The sentence a boat state reports in a message buffer: its bytes read
/// leniently as UTF-8, without trailing NUL and whitespace characters.
pub open spec fn reported_sentence(data: Seq<u8>) -> Seq<char> {
    trim_end_padding(lenient_utf8(data))
}

/// The message buffer that the client publishes for a boat state report
/// `data` taken at time `timestamp`.
pub open spec fn stamped_report(data: Seq<u8>, timestamp: Seq<char>) -> Seq<u8> {
    padded(encode_utf8(timestamped(reported_sentence(data), timestamp)))
}

/// Turns a report of the boat state into the message that the client's
/// senders publish: the reported sentence, trimmed, followed by `TIMESTAMP`
/// and `timestamp`, in a message buffer.
pub fn stamp_boat_state(data: MsgType, timestamp: String) -> (msg: MsgType)
    ensures
        msg@ == stamped_report(data@, timestamp@),
{
    let text = string_from_utf8_lossy(data.as_slice());
    let trimmed = trim_end_padding_of(text.as_str());
    let response = AISResponse { timestamp, ais_message: trimmed };
    let msg = build_timestamped_ais_message(response);
    string_to_msg_type(msg)
}

/// Stamps a boat state report with the moment that the clock reading
/// `reading` stands for: a message exactly when that moment exists, stamped
/// with its RFC 3339 text, and always one for a reading after the Unix epoch
/// of fewer than 2^40 seconds.
pub fn stamp_boat_state_at_clock(data: MsgType, reading: Option<(u64, u32)>) -> (msg: Option<
    MsgType,
>)
    ensures
        match reading {
            None => msg is None,
            Some(r) => {
                &&& (msg matches Some(m) ==> exists|seconds: i64|
                    seconds == r.0 && m@ == stamped_report(data@, #[trigger] rfc3339_text(seconds, r.1)))
                &&& (r.0 < 0x100_0000_0000 && r.1 < 1_000_000_000 ==> msg is Some)
            },
        },
{
    match utc_time_from_clock(reading) {
        Some(now) => {
            let ghost (seconds, nanos) = (now.seconds, now.nanos);
            let msg = stamp_boat_state(data, now.rfc3339);
            assert(msg@ == stamped_report(data@, rfc3339_text(seconds, nanos)));
            Some(msg)
        },
        None => None,
    }
}

/// Stamps a boat state report with the current time, as the client's boat
/// state handler does with every report it gets: the timestamp is the RFC 3339
/// text of a moment read from the clock. `None` when the clock cannot be read
/// (`stamp_boat_state_at_clock` states what comes of every clock reading).
pub fn timestamp_boat_state(data: MsgType) -> (msg: Option<MsgType>)
    ensures
        msg matches Some(m) ==> exists|seconds: i64, nanos: u32|
            m@ == stamped_report(data@, #[trigger] rfc3339_text(seconds, nanos)),
{
    stamp_boat_state_at_clock(data, clock_since_epoch())
}

/// Calls `String::from_utf8` on a copy of `bytes`. Trusted: it succeeds
/// exactly when the bytes are valid UTF-8, and then holds their decoding
/// (std's documentation of `String::from_utf8`).
#[verifier::external_body]
fn string_from_utf8(bytes: &[u8]) -> (s: Option<String>)
    ensures
        s is Some <==> valid_utf8(bytes@),
        s matches Some(t) ==> t@ == decode_utf8(bytes@),
{
    String::from_utf8(bytes.to_vec()).ok()
}

/// Why a message buffer yields no raw NMEA sentence.
pub enum RawNmeaError {
    /// The buffer is not valid UTF-8.
    InvalidUtf8,
    /// The decoded buffer has no `TIMESTAMP` marker; it is carried here.
    NoTimestamp(String),
}

/// The raw NMEA sentence held in a message buffer, as the raw NMEA senders
/// publish it: the whole buffer decoded as UTF-8, and the text in front of
/// its first `TIMESTAMP` marker.
pub open spec fn raw_nmea(msg: Seq<u8>) -> Option<Seq<char>> {
    if valid_utf8(msg) {
        before_marker(decode_utf8(msg))
    } else {
        None
    }
}

/// Extracts the raw NMEA sentence from a timestamped message buffer.
pub fn raw_nmea_sentence(msg: MsgType) -> (r: Result<String, RawNmeaError>)
    ensures
        valid_utf8(msg@) <==> !(r matches Err(RawNmeaError::InvalidUtf8)),
        match raw_nmea(msg@) {
            Some(s) => r matches Ok(t) && t@ == s,
            None => valid_utf8(msg@) ==> (r matches Err(RawNmeaError::NoTimestamp(t)) && t@
                == decode_utf8(msg@)),
        },
{
    match string_from_utf8(msg.as_slice()) {
        None => Err(RawNmeaError::InvalidUtf8),
        Some(text) => match split_message_on_timestamp(text) {
            Ok((ais_message, _timestamp)) => Ok(ais_message),
            Err(text) => Err(RawNmeaError::NoTimestamp(text)),
        },
    }
}


/// The weak sender of a client: a UDP socket connected to the server.
pub struct UdpSender {
    socket: tokio::net::UdpSocket,
}

impl UdpSender {
    /// The socket it sends through.
    pub closed spec fn spec_socket(&self) -> tokio::net::UdpSocket {
        self.socket
    }

    /// A sender around a connected socket.
    pub fn from_socket(socket: tokio::net::UdpSocket) -> (sender: Self)
        ensures
            sender.spec_socket() == socket,
    {
        UdpSender { socket }
    }

    /// The socket it sends through.
    pub fn socket(&self) -> (socket: &tokio::net::UdpSocket)
        ensures
            *socket == self.spec_socket(),
    {
        &self.socket
    }
}

/// A sender that cannot send: it drops every message. Clients without a
/// working link use it and reach others only through the broadcaster.
pub struct BrokenSedner {}

impl BrokenSedner {
    /// A broken sender.
    pub fn new() -> (sender: Self)
        ensures
            sender == (BrokenSedner {}),
    {
        BrokenSedner {}
    }
}

impl Default for BrokenSedner {
    fn default() -> (sender: Self)
        ensures
            sender == (BrokenSedner {}),
    {
        Self::new()
    }
}

/// `k` NUL characters.
pub open spec fn nuls(k: nat) -> Seq<char> {
    Seq::new(k, |i: int| '\0')
}

/// UTF-8 encoding of a concatenation is the concatenation of encodings.
proof fn lemma_encode_concat(x: Seq<char>, y: Seq<char>)
    ensures
        encode_utf8(x + y) == encode_utf8(x) + encode_utf8(y),
    decreases x.len(),
{
    if x.len() == 0 {
        assert(x + y =~= y);
    } else {
        assert((x + y).drop_first() =~= x.drop_first() + y);
        lemma_encode_concat(x.drop_first(), y);
        assert(encode_utf8(x + y) =~= encode_utf8(x) + encode_utf8(y));
    }
}

/// NUL characters encode to zero bytes.
proof fn lemma_encode_nuls(k: nat)
    ensures
        encode_utf8(nuls(k)) == Seq::new(k, |i: int| 0u8),
    decreases k,
{
    if k > 0 {
        lemma_encode_nuls((k - 1) as nat);
        assert(nuls(k).drop_first() =~= nuls((k - 1) as nat));
        assert(('\0' as u32) == 0u32);
        assert((0u32 & 0x7F) as u8 == 0u8) by (bit_vector);
        assert(encode_scalar(0u32) =~= seq![0u8]);
        assert(encode_utf8(nuls(k)) =~= Seq::new(k, |i: int| 0u8));
    } else {
        assert(nuls(k) =~= Seq::<char>::empty());
        assert(Seq::new(k, |i: int| 0u8) =~= Seq::<u8>::empty());
    }
}

/// A message buffer holding text `t` reads, as a whole, as `t` followed by
/// NUL characters.
proof fn lemma_padded_decodes(t: Seq<char>)
    requires
        encode_utf8(t).len() <= MSGTYPESIZE,
    ensures
        valid_utf8(padded(encode_utf8(t))),
        decode_utf8(padded(encode_utf8(t))) == t + nuls(
            (MSGTYPESIZE - encode_utf8(t).len()) as nat,
        ),
{
    let e = encode_utf8(t);
    let k = (MSGTYPESIZE - e.len()) as nat;
    lemma_encode_concat(t, nuls(k));
    lemma_encode_nuls(k);
    assert(padded(e) =~= encode_utf8(t + nuls(k)));
    encode_utf8_valid_utf8(t + nuls(k));
    encode_utf8_decode_utf8(t + nuls(k));
}

/// Trailing NUL characters are padding.
proof fn lemma_trim_end_padding_nuls(s: Seq<char>, k: nat)
    ensures
        trim_end_padding(s + nuls(k)) == trim_end_padding(s),
    decreases k,
{
    if k > 0 {
        let t = s + nuls(k);
        assert(t.last() == '\0');
        assert(t.drop_last() =~= s + nuls((k - 1) as nat));
        lemma_trim_end_padding_nuls(s, (k - 1) as nat);
    } else {
        assert(s + nuls(k) =~= s);
    }
}

/// A boat state report that holds a string (without NUL characters, fitting
/// in a message buffer) reports that string: the sentence it reports, trimmed,
/// is the string trimmed, and the stamped message is the trimmed string, the
/// marker and the timestamp, whatever the string's length.
pub proof fn law_stamp_carries_sentence(s: Seq<char>, timestamp: Seq<char>)
    requires
        forall|i: int| 0 <= i < s.len() ==> s[i] != '\0',
        encode_utf8(s).len() <= MSGTYPESIZE,
    ensures
        trim_ws(reported_sentence(padded(encode_utf8(s)))) == trim_ws(s),
        stamped_report(padded(encode_utf8(s)), timestamp) == padded(
            encode_utf8(trim_ws(s) + crate::text::marker() + timestamp),
        ),
{
    let k = (MSGTYPESIZE - encode_utf8(s).len()) as nat;
    lemma_padded_decodes(s);
    lemma_trim_end_padding_nuls(s, k);
    lemma_trim_end_padding_nul_free(s);
    lemma_trim_ws_of_trimmed_end(s);
}

/// A full datagram that carries a message buffer is received as that buffer.
pub proof fn law_datagram_carries_msg(msg: Seq<u8>, buf: Seq<u8>, len: int)
    requires
        msg.len() == MSGTYPESIZE,
        buf.len() == DATAGRAM_BUF_SIZE,
        buf.take(MSGTYPESIZE as int) == msg,
        len >= MSGTYPESIZE,
    ensures
        padded(kept_bytes(buf, len)) == msg,
{
    assert(padded(kept_bytes(buf, len)) =~= msg);
}

/// What the whole system promises of a boat's report: a report that the
/// client stamps reaches the server's publishers as its trimmed sentence,
/// both over the weak path, where the message buffer travels as is, and over
/// the strong path, where it travels as a line of text that the server puts
/// back into a buffer. This holds when the stamped text has no NUL character,
/// fits in a message buffer, and the trimmed sentence does not itself hold
/// the word `TIMESTAMP`.
pub proof fn law_report_reaches_publisher(data: Seq<u8>, timestamp: Seq<char>)
    requires
        !has_marker(trim_ws(reported_sentence(data))),
        forall|i: int|
            0 <= i < timestamped(reported_sentence(data), timestamp).len() ==> #[trigger] timestamped(
                reported_sentence(data),
                timestamp,
            )[i] != '\0',
        encode_utf8(timestamped(reported_sentence(data), timestamp)).len() <= MSGTYPESIZE,
    ensures
        raw_nmea(stamped_report(data, timestamp)) == Some(trim_ws(reported_sentence(data))),
        raw_nmea(padded(encode_utf8(msg_text(stamped_report(data, timestamp))))) == Some(
            trim_ws(reported_sentence(data)),
        ),
{
    let a = trim_ws(reported_sentence(data));
    let t = timestamped(reported_sentence(data), timestamp);
    let k = (MSGTYPESIZE - encode_utf8(t).len()) as nat;
    law_msg_roundtrip(t);
    lemma_padded_decodes(t);
    assert(t + nuls(k) =~= a + crate::text::marker() + (timestamp + nuls(k)));
    lemma_before_marker_of_joined(a, timestamp + nuls(k));
}

} // verus!
