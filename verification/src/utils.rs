use vstd::prelude::*;
use vstd::string::StringExecFns;
use vstd::utf8::*;

use crate::text::{chars_of, find_marker, first_marker, has_marker, lemma_first_marker, marker, marker_at, substring, trim, trim_ws};

verus! {

/// The word that separates an AIS sentence from its timestamp in a message.
pub const TIMESTAMP: &'static str = "TIMESTAMP";

/// Size in bytes of every message buffer that travels between clients,
/// broadcasters and the server.
pub const MSGTYPESIZE: usize = 1024;

/// A fixed-size message buffer; unused trailing bytes are zero.
pub type MsgType = [u8; MSGTYPESIZE];

/// The buffer that holds `bytes`: their first `MSGTYPESIZE` bytes, then zeros.
pub open spec fn padded(bytes: Seq<u8>) -> Seq<u8> {
    Seq::new(MSGTYPESIZE as nat, |i: int| if i < bytes.len() { bytes[i] } else { 0u8 })
}

/// Copies the UTF-8 bytes of `s` into a message buffer, truncating to
/// `MSGTYPESIZE` bytes and filling the rest with zeros.
pub fn string_to_msg_type(s: String) -> (msg: MsgType)
    ensures
        msg@ == padded(encode_utf8(s@)),
{
    let bytes = s.as_str().as_bytes();
    let mut msg: MsgType = [0u8; MSGTYPESIZE];
    let len: usize = if bytes.len() < MSGTYPESIZE { bytes.len() } else { MSGTYPESIZE };
    for i in 0..len
        invariant
            len <= bytes@.len(),
            len <= MSGTYPESIZE,
            bytes@ == encode_utf8(s@),
            msg@.len() == MSGTYPESIZE,
            forall|j: int| 0 <= j < i ==> msg@[j] == bytes@[j],
            forall|j: int| i <= j < MSGTYPESIZE ==> msg@[j] == 0u8,
    {
        msg[i] = bytes[i];
    }
    assert(msg@ =~= padded(encode_utf8(s@)));
    msg
}


/// Name for the characters that `String::from_utf8_lossy` decodes from
/// `bytes`.
pub uninterp spec fn utf8_lossy(bytes: Seq<u8>) -> Seq<char>;

/// The characters of `bytes` read as UTF-8: exactly their decoding when they
/// are valid, else what `String::from_utf8_lossy` gives.
pub open spec fn lenient_utf8(bytes: Seq<u8>) -> Seq<char> {
    if valid_utf8(bytes) {
        decode_utf8(bytes)
    } else {
        utf8_lossy(bytes)
    }
}

/// Calls `String::from_utf8_lossy` and takes the owned string. Trusted: the
/// result is `utf8_lossy` of the bytes, and a valid UTF-8 input decodes to
/// exactly its characters (std's documentation: a valid slice comes back as
/// is). Which replacement characters stand for invalid sequences is left
/// unsaid.
#[verifier::external_body]
pub(crate) fn string_from_utf8_lossy(bytes: &[u8]) -> (s: String)
    ensures
        s@ == utf8_lossy(bytes@),
        s@ == lenient_utf8(bytes@),
{
    String::from_utf8_lossy(bytes).into_owned()
}

/// `n` is the length of the text in `bytes`: the index of the first zero
/// byte, or the whole length when there is none.
pub open spec fn is_text_len(bytes: Seq<u8>, n: int) -> bool {
    &&& 0 <= n <= bytes.len()
    &&& forall|j: int| 0 <= j < n ==> bytes[j] != 0u8
    &&& (n == bytes.len() || bytes[n] == 0u8)
}

/// The length of the text held in a zero-padded buffer.
pub open spec fn text_len(bytes: Seq<u8>) -> int {
    choose|n: int| is_text_len(bytes, n)
}

/// The text length of a buffer is unique and exists.
pub proof fn lemma_text_len(bytes: Seq<u8>, n: int)
    requires
        is_text_len(bytes, n),
    ensures
        text_len(bytes) == n,
{
    let m = text_len(bytes);
    assert(is_text_len(bytes, m));
    if m < n {
        assert(bytes[m] != 0u8);
    } else if n < m {
        assert(bytes[n] != 0u8);
    }
}

/// The string that a message buffer holds: the bytes before the first zero
/// byte, decoded as UTF-8 with invalid sequences replaced.
pub open spec fn msg_text(msg: Seq<u8>) -> Seq<char> {
    lenient_utf8(msg.take(text_len(msg)))
}

/// Reads the text of a message buffer: the bytes up to the first zero byte
/// (or all of them), decoded leniently as UTF-8.
pub fn msg_type_to_string(msg: MsgType) -> (s: String)
    ensures
        s@ == msg_text(msg@),
{
    let mut len: usize = 0;
    while len < MSGTYPESIZE && msg[len] != 0
        invariant
            len <= MSGTYPESIZE,
            msg@.len() == MSGTYPESIZE,
            forall|j: int| 0 <= j < len ==> msg@[j] != 0u8,
        decreases MSGTYPESIZE - len,
    {
        len = len + 1;
    }
    proof {
        lemma_text_len(msg@, len as int);
    }
    let text = &msg[0..len];
    assert(text@ == msg@.take(len as int));
    string_from_utf8_lossy(text)
}


/// No byte of the UTF-8 encoding of a non-NUL character is zero.
proof fn lemma_scalar_has_no_zero_byte(v: u32)
    requires
        is_scalar(v),
        v != 0,
    ensures
        forall|j: int| 0 <= j < encode_scalar(v).len() ==> #[trigger] encode_scalar(v)[j] != 0u8,
{
    assert(v != 0 && v <= 0x7F ==> (v & 0x7F) as u8 != 0u8) by (bit_vector);
    assert(0xC0u8 | ((v >> 6) & 0x1F) as u8 != 0u8) by (bit_vector);
    assert(0xE0u8 | ((v >> 12) & 0x0F) as u8 != 0u8) by (bit_vector);
    assert(0xF0u8 | ((v >> 18) & 0x7) as u8 != 0u8) by (bit_vector);
    assert(0x80u8 | (v & 0x3F) as u8 != 0u8) by (bit_vector);
    assert(0x80u8 | ((v >> 6) & 0x3F) as u8 != 0u8) by (bit_vector);
    assert(0x80u8 | ((v >> 12) & 0x3F) as u8 != 0u8) by (bit_vector);
}

/// The UTF-8 encoding of characters none of which is NUL has no zero byte.
proof fn lemma_encoding_has_no_zero_byte(s: Seq<char>)
    requires
        forall|i: int| 0 <= i < s.len() ==> s[i] != '\0',
    ensures
        forall|j: int| 0 <= j < encode_utf8(s).len() ==> #[trigger] encode_utf8(s)[j] != 0u8,
    decreases s.len(),
{
    if s.len() > 0 {
        let v = s[0] as u32;
        char_is_scalar(s[0]);
        assert(v != 0) by {
            char_u32_cast(s[0], v);
            if v == 0 {
                assert((0u32 as char) == '\0');
            }
        }
        lemma_scalar_has_no_zero_byte(v);
        lemma_encoding_has_no_zero_byte(s.drop_first());
        let a = encode_scalar(v);
        let b = encode_utf8(s.drop_first());
        assert(encode_utf8(s) == a + b);
        assert forall|j: int| 0 <= j < encode_utf8(s).len() implies #[trigger] encode_utf8(s)[j] != 0u8 by {
            if j < a.len() {
                assert(encode_utf8(s)[j] == a[j]);
            } else {
                assert(encode_utf8(s)[j] == b[j - a.len()]);
            }
        }
    }
}

/// Writing a string into a message buffer and reading it back gives the
/// string again, when it holds no NUL character and its UTF-8 encoding fits
/// in `MSGTYPESIZE` bytes.
pub proof fn law_msg_roundtrip(s: Seq<char>)
    requires
        forall|i: int| 0 <= i < s.len() ==> s[i] != '\0',
        encode_utf8(s).len() <= MSGTYPESIZE,
    ensures
        msg_text(padded(encode_utf8(s))) == s,
{
    let e = encode_utf8(s);
    let m = padded(e);
    lemma_encoding_has_no_zero_byte(s);
    assert(is_text_len(m, e.len() as int));
    lemma_text_len(m, e.len() as int);
    assert(m.take(e.len() as int) =~= e);
    encode_utf8_valid_utf8(s);
    encode_utf8_decode_utf8(s);
}


/// Reading a message buffer into a string and writing that string into a
/// buffer gives the buffer back, when the text before its first zero byte
/// (`n` bytes long) is valid UTF-8 and every byte after it is zero.
pub proof fn law_buffer_roundtrip(msg: Seq<u8>, n: int)
    requires
        msg.len() == MSGTYPESIZE,
        is_text_len(msg, n),
        valid_utf8(msg.take(n)),
        forall|j: int| n <= j < msg.len() ==> msg[j] == 0u8,
    ensures
        padded(encode_utf8(msg_text(msg))) == msg,
{
    lemma_text_len(msg, n);
    decode_utf8_encode_utf8(msg.take(n));
    assert(padded(msg.take(n)) =~= msg);
}


/// An AIS sentence with the time it was produced, as the encoding service
/// answers it.
pub struct AISResponse {
    pub ais_message: String,
    /// RFC 3339 time.
    pub timestamp: String,
}

/// The message that `build_timestamped_ais_message` makes: the trimmed
/// sentence, the marker, then the timestamp.
pub open spec fn timestamped(ais_message: Seq<char>, timestamp: Seq<char>) -> Seq<char> {
    trim_ws(ais_message) + marker() + timestamp
}

/// Joins an AIS sentence, with surrounding whitespace removed, and its
/// timestamp, separated by `TIMESTAMP`.
pub fn build_timestamped_ais_message(data: AISResponse) -> (msg: String)
    ensures
        msg@ == timestamped(data.ais_message@, data.timestamp@),
{
    let trimmed = trim(data.ais_message.as_str());
    proof {
        reveal_strlit("TIMESTAMP");
    }
    assert(TIMESTAMP@ =~= marker());
    let with_marker = trimmed.concat(TIMESTAMP);
    with_marker.concat(data.timestamp.as_str())
}


/// A moment read from the UTC clock: seconds and nanoseconds since the Unix
/// epoch, and the same moment as RFC 3339 text.
pub struct UtcTime {
    pub seconds: i64,
    pub nanos: u32,
    pub rfc3339: String,
}

/// Name for the text that `DateTime::<Utc>::to_rfc3339` gives for the moment
/// `seconds` seconds and `nanos` nanoseconds after the Unix epoch.
pub uninterp spec fn rfc3339_text(seconds: i64, nanos: u32) -> Seq<char>;

/// Reads the system clock: `SystemTime::now().duration_since(UNIX_EPOCH)`,
/// taken apart with `Duration::as_secs` and `Duration::subsec_nanos`. `None`
/// when the clock is set before the Unix epoch. Trusted: the nanoseconds are
/// below one billion (`subsec_nanos`'s documentation); nothing else is
/// promised of the values, which are whatever the clock reads.
#[verifier::external_body]
pub(crate) fn clock_since_epoch() -> (since: Option<(u64, u32)>)
    ensures
        since matches Some(t) ==> t.1 < 1_000_000_000,
{
    match std::time::SystemTime::now().duration_since(std::time::UNIX_EPOCH) {
        Ok(d) => Some((d.as_secs(), d.subsec_nanos())),
        Err(_) => None,
    }
}

/// Calls `chrono::DateTime::<Utc>::from_timestamp` and takes the moment apart
/// with `DateTime::timestamp`, `DateTime::timestamp_subsec_nanos` and
/// `DateTime::to_rfc3339`. Trusted: a moment that comes back gives back the
/// same seconds and nanoseconds (chrono documents the round trip), and its
/// text is `rfc3339_text` of them. A moment comes back for every nanosecond
/// count below one billion and every number of seconds from zero up to 2^40
/// (some 34,800 years; chrono's source refuses only seconds whose year lies
/// outside ±262,142 and invalid nanosecond counts). Where else `None` comes is
/// left unsaid.
#[verifier::external_body]
fn utc_time_at(seconds: i64, nanos: u32) -> (t: Option<UtcTime>)
    ensures
        t matches Some(u) ==> u.seconds == seconds && u.nanos == nanos && u.rfc3339@
            == rfc3339_text(seconds, nanos),
        0 <= seconds < 0x100_0000_0000 && nanos < 1_000_000_000 ==> t is Some,
{
    match chrono::DateTime::from_timestamp(seconds, nanos) {
        Some(dt) => Some(UtcTime { seconds: dt.timestamp(), nanos: dt.timestamp_subsec_nanos(), rfc3339: dt.to_rfc3339() }),
        None => None,
    }
}

/// `t` is the moment that a clock reading of `reading` (seconds and
/// nanoseconds since the Unix epoch, or `None` before the epoch) stands for:
/// no moment without a reading; a moment read has exactly the reading's
/// seconds and nanoseconds and the RFC 3339 text of them; and a reading of
/// fewer than 2^40 seconds (with a valid nanosecond count) always gives one.
pub open spec fn moment_of_reading(reading: Option<(u64, u32)>, t: Option<UtcTime>) -> bool {
    match reading {
        None => t is None,
        Some(r) => {
            &&& (t matches Some(u) ==> u.seconds == r.0 && u.nanos == r.1 && u.rfc3339@
                == rfc3339_text(u.seconds, u.nanos))
            &&& (r.0 < 0x100_0000_0000 && r.1 < 1_000_000_000 ==> t is Some)
        },
    }
}

/// The moment that the clock reading `reading` stands for.
pub fn utc_time_from_clock(reading: Option<(u64, u32)>) -> (t: Option<UtcTime>)
    ensures
        moment_of_reading(reading, t),
{
    match reading {
        None => None,
        Some((secs, nanos)) => {
            if secs <= 0x7fff_ffff_ffff_ffffu64 {
                utc_time_at(secs as i64, nanos)
            } else {
                None
            }
        },
    }
}

/// Reads the UTC clock. `None` when the clock cannot be read as a moment:
/// it is set before the Unix epoch or beyond the years that chrono holds.
/// A moment that is read has its RFC 3339 text in `rfc3339`. Which moment
/// the clock gives is whatever it reads; `utc_time_from_clock` states what
/// becomes of every reading.
pub fn utc_now() -> (now: Option<UtcTime>)
    ensures
        now matches Some(t) ==> 0 <= t.seconds && t.nanos < 1_000_000_000 && t.rfc3339@
            == rfc3339_text(t.seconds, t.nanos),
{
    utc_time_from_clock(clock_since_epoch())
}

/// The text in front of the first `TIMESTAMP` marker of `msg`, if it has one.
pub open spec fn before_marker(msg: Seq<char>) -> Option<Seq<char>> {
    if has_marker(msg) {
        Some(msg.take(first_marker(msg)))
    } else {
        None
    }
}

/// The AIS sentence in front of the first `TIMESTAMP` marker of `msg`.
pub fn text_before_timestamp(msg: &str) -> (before: Option<String>)
    ensures
        match before {
            Some(b) => before_marker(msg@) == Some(b@),
            None => before_marker(msg@) is None,
        },
{
    let v = chars_of(msg);
    match find_marker(&v) {
        Some(pos) => {
            proof {
                lemma_first_marker(msg@, pos as int);
            }
            Some(substring(msg, 0, pos))
        },
        None => None,
    }
}

/// Splits a timestamped message at its first `TIMESTAMP` marker and returns
/// the AIS sentence in front of it together with the moment that the clock
/// reading `reading` stands for. A message without the marker comes back as
/// the error.
pub fn split_message_at_clock(msg: String, reading: Option<(u64, u32)>) -> (r: Result<
    (String, Option<UtcTime>),
    String,
>)
    ensures
        match before_marker(msg@) {
            Some(b) => r matches Ok(p) && p.0@ == b && moment_of_reading(reading, p.1),
            None => r matches Err(e) && e@ == msg@,
        },
{
    match text_before_timestamp(msg.as_str()) {
        Some(before) => Ok((before, utc_time_from_clock(reading))),
        None => Err(msg),
    }
}

/// Splits a timestamped message at its first `TIMESTAMP` marker and returns
/// the AIS sentence in front of it together with the current time, when the
/// clock can be read. A message without the marker comes back as the error.
/// (`split_message_at_clock` states what comes of every clock reading.)
pub fn split_message_on_timestamp(msg: String) -> (r: Result<(String, Option<UtcTime>), String>)
    ensures
        match before_marker(msg@) {
            Some(b) => r matches Ok(p) && p.0@ == b && (p.1 matches Some(t) ==> t.rfc3339@
                == rfc3339_text(t.seconds, t.nanos)),
            None => r matches Err(e) && e@ == msg@,
        },
{
    split_message_at_clock(msg, clock_since_epoch())
}

/// The marker cannot start inside the last eight characters in front of
/// another occurrence of itself: no proper suffix of it is a prefix of it.
proof fn lemma_marker_no_overlap(s: Seq<char>, j: int, n: int)
    requires
        0 <= j < n < j + 9,
        marker_at(s, n),
    ensures
        !marker_at(s, j),
{
    if marker_at(s, j) {
        let w = s.subrange(j, j + 9);
        let u = s.subrange(n, n + 9);
        let k = n - j;
        assert(w[k] == s[n]);
        assert(u[0] == s[n]);
        assert(u[0] == 'T');
        assert(w[k] == marker()[k]);
        assert(k == 5);
        assert(w[6] == s[n + 1]);
        assert(u[1] == s[n + 1]);
        assert(u[1] == 'I');
        assert(w[6] == 'A');
    }
}

/// The text in front of a marker that follows a marker-free text `a` is `a`,
/// whatever comes after the marker.
pub proof fn lemma_before_marker_of_joined(a: Seq<char>, rest: Seq<char>)
    requires
        !has_marker(a),
    ensures
        before_marker(a + marker() + rest) == Some(a),
{
    let s = a + marker() + rest;
    let n = a.len() as int;
    assert(s.subrange(n, n + 9) =~= marker());
    assert(marker_at(s, n));
    assert forall|j: int| 0 <= j < n implies !marker_at(s, j) by {
        if j + 9 <= n {
            if marker_at(s, j) {
                assert(a.subrange(j, j + 9) =~= s.subrange(j, j + 9));
                assert(marker_at(a, j));
            }
        } else {
            lemma_marker_no_overlap(s, j, n);
        }
    }
    lemma_first_marker(s, n);
    assert(s.take(n) =~= a);
}

/// Splitting a message that `build_timestamped_ais_message` made gives back
/// the trimmed AIS sentence, whatever the timestamp, provided the trimmed
/// sentence does not itself hold the word `TIMESTAMP`.
pub proof fn law_split_undoes_build(ais_message: Seq<char>, timestamp: Seq<char>)
    requires
        !has_marker(trim_ws(ais_message)),
    ensures
        before_marker(timestamped(ais_message, timestamp)) == Some(trim_ws(ais_message)),
{
    lemma_before_marker_of_joined(trim_ws(ais_message), timestamp);
}

} // verus!
