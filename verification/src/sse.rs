//! Incremental decoder for Server-Sent-Events (SSE) byte streams.
//!
//! The transport hands over arbitrary byte chunks; this module reassembles
//! them into event blocks (separated by a blank line), extracts the first
//! non-sentinel `data: ` payload of each block, checks that the payload is
//! well-formed JSON, and surfaces every abnormal condition as an in-stream
//! item instead of tearing the stream down.
//!
//! The whole pipeline is specified against a byte-level model: `events_of`
//! gives the payloads of all complete blocks of a byte sequence, and
//! `stream_items` gives the full item sequence of the accumulated
//! transport bytes, including the terminal encoding-error item. Both are
//! functions of the concatenated bytes alone: chunk boundaries never
//! influence the result, a multi-byte character split across chunks is
//! simply held back until its continuation arrives.

use vstd::prelude::*;
use vstd::utf8::*;

verus! {

// ---------------------------------------------------------------------------
// Byte-level constants of the wire format
// ---------------------------------------------------------------------------

/// Line feed.
pub open spec fn nl() -> u8 {
    10u8
}

/// Carriage return.
pub open spec fn cr() -> u8 {
    13u8
}

/// The bytes of the field prefix `"data: "`.
pub open spec fn data_prefix() -> Seq<u8> {
    seq![100u8, 97u8, 116u8, 97u8, 58u8, 32u8]
}

/// The bytes of the sentinel payload `"[DONE]"`.
pub open spec fn done_sentinel() -> Seq<u8> {
    seq![91u8, 68u8, 79u8, 78u8, 69u8, 93u8]
}

/// ASCII whitespace, as trimmed around the sentinel.
pub open spec fn is_ws(b: u8) -> bool {
    b == 32u8 || b == 9u8 || b == 10u8 || b == 12u8 || b == 13u8
}

// ---------------------------------------------------------------------------
// Framing: blocks end at the first blank line ("\n\n")
// ---------------------------------------------------------------------------

/// A block delimiter starts at index `i` of `s`.
pub open spec fn is_block_end(s: Seq<u8>, i: int) -> bool {
    0 <= i && i + 1 < s.len() && s[i] == nl() && s[i + 1] == nl()
}

/// Index of the first block delimiter of `s`, if any.
pub open spec fn first_block_end(s: Seq<u8>) -> Option<int>
    decreases s.len(),
{
    if s.len() < 2 {
        None
    } else if s[0] == nl() && s[1] == nl() {
        Some(0int)
    } else {
        match first_block_end(s.drop_first()) {
            Some(i) => Some(i + 1),
            None => None,
        }
    }
}

/// `first_block_end` returns exactly the least delimiter position.
pub proof fn lemma_first_block_end(s: Seq<u8>)
    ensures
        match first_block_end(s) {
            Some(i) => is_block_end(s, i) && forall|j: int| 0 <= j < i ==> !is_block_end(s, j),
            None => forall|j: int| !is_block_end(s, j),
        },
    decreases s.len(),
{
    if s.len() < 2 {
    } else if s[0] == nl() && s[1] == nl() {
    } else {
        lemma_first_block_end(s.drop_first());
        assert forall|j: int| is_block_end(s, j) && j != 0 implies is_block_end(
            s.drop_first(),
            j - 1,
        ) by {
            assert(s.drop_first()[j - 1] == s[j]);
            assert(s.drop_first()[j] == s[j + 1]);
        }
        assert forall|j: int| is_block_end(s.drop_first(), j) implies is_block_end(s, j + 1) by {
            assert(s.drop_first()[j] == s[j + 1]);
            assert(s.drop_first()[j + 1] == s[j + 2]);
        }
        match first_block_end(s.drop_first()) {
            Some(i) => {
                assert(is_block_end(s, i + 1));
                assert forall|j: int| 0 <= j < i + 1 implies !is_block_end(s, j) by {
                    if j != 0 && is_block_end(s, j) {
                        assert(is_block_end(s.drop_first(), j - 1));
                    }
                }
            },
            None => {
                assert forall|j: int| !is_block_end(s, j) by {
                    if j != 0 && is_block_end(s, j) {
                        assert(is_block_end(s.drop_first(), j - 1));
                    }
                }
            },
        }
    }
}

/// A delimiter found in `s` is still the first delimiter of `s + t`.
pub proof fn lemma_first_block_end_append(s: Seq<u8>, t: Seq<u8>)
    requires
        first_block_end(s) is Some,
    ensures
        first_block_end(s + t) == first_block_end(s),
    decreases s.len(),
{
    if s.len() < 2 {
    } else if s[0] == nl() && s[1] == nl() {
        assert((s + t)[0] == nl() && (s + t)[1] == nl());
    } else {
        assert((s + t)[0] == s[0] && (s + t)[1] == s[1]);
        lemma_first_block_end_append(s.drop_first(), t);
        assert((s + t).drop_first() =~= s.drop_first() + t);
    }
}

// ---------------------------------------------------------------------------
// Field extraction: the first non-sentinel "data: " line of a block
// ---------------------------------------------------------------------------

/// Index of the first line feed of `s`, if any.
pub open spec fn find_nl(s: Seq<u8>) -> Option<int>
    decreases s.len(),
{
    if s.len() == 0 {
        None
    } else if s[0] == nl() {
        Some(0int)
    } else {
        match find_nl(s.drop_first()) {
            Some(i) => Some(i + 1),
            None => None,
        }
    }
}

/// `find_nl` returns exactly the least line-feed position.
pub proof fn lemma_find_nl(s: Seq<u8>)
    ensures
        match find_nl(s) {
            Some(i) => 0 <= i < s.len() && s[i] == nl() && forall|j: int|
                0 <= j < i ==> s[j] != nl(),
            None => forall|j: int| 0 <= j < s.len() ==> s[j] != nl(),
        },
    decreases s.len(),
{
    if s.len() == 0 {
    } else if s[0] == nl() {
    } else {
        lemma_find_nl(s.drop_first());
        match find_nl(s.drop_first()) {
            Some(i) => {
                assert(s[i + 1] == s.drop_first()[i]);
                assert forall|j: int| 0 <= j < i + 1 implies s[j] != nl() by {
                    if j != 0 {
                        assert(s[j] == s.drop_first()[j - 1]);
                    }
                }
            },
            None => {
                assert forall|j: int| 0 <= j < s.len() implies s[j] != nl() by {
                    if j != 0 {
                        assert(s[j] == s.drop_first()[j - 1]);
                    }
                }
            },
        }
    }
}

/// A line as seen by the extractor: the raw line with a trailing
/// carriage return removed.
pub open spec fn strip_cr(line: Seq<u8>) -> Seq<u8> {
    if line.len() > 0 && line.last() == cr() {
        line.drop_last()
    } else {
        line
    }
}

/// The line carries the `"data: "` field prefix.
pub open spec fn is_data_line(line: Seq<u8>) -> bool {
    line.len() >= 6 && line.subrange(0, 6) == data_prefix()
}

/// The payload carried by a data line.
pub open spec fn line_payload(line: Seq<u8>) -> Seq<u8>
    recommends
        is_data_line(line),
{
    line.subrange(6, line.len() as int)
}

/// `s` without leading ASCII whitespace.
pub open spec fn trim_start(s: Seq<u8>) -> Seq<u8>
    decreases s.len(),
{
    if s.len() > 0 && is_ws(s[0]) {
        trim_start(s.drop_first())
    } else {
        s
    }
}

/// `s` without trailing ASCII whitespace.
pub open spec fn trim_end(s: Seq<u8>) -> Seq<u8>
    decreases s.len(),
{
    if s.len() > 0 && is_ws(s.last()) {
        trim_end(s.drop_last())
    } else {
        s
    }
}

/// `s` without surrounding ASCII whitespace.
pub open spec fn trim(s: Seq<u8>) -> Seq<u8> {
    trim_end(trim_start(s))
}

/// The payload announces the logical end of the provider's stream.
/// Only ASCII whitespace is trimmed around it, deliberately: the
/// protocols put at most spaces and carriage returns there, and a
/// sentinel wrapped in exotic Unicode whitespace is treated as a
/// payload.
pub open spec fn is_sentinel(payload: Seq<u8>) -> bool {
    trim(payload) == done_sentinel()
}

/// The payload of the first non-sentinel data line of a block, if any.
/// Sentinel data lines and lines without the field prefix are skipped.
///
/// Taking only the first qualifying line is deliberate: the providers
/// this crate targets emit one payload per event, so later data lines of
/// a block are not joined to the first, as a general SSE consumer would
/// join them.
pub open spec fn block_payload(block: Seq<u8>) -> Option<Seq<u8>>
    decreases block.len(),
{
    match find_nl(block) {
        Some(i) => {
            if 0 <= i < block.len() {
                let line = strip_cr(block.subrange(0, i));
                let rest = block.subrange(i + 1, block.len() as int);
                if is_data_line(line) && !is_sentinel(line_payload(line)) {
                    Some(line_payload(line))
                } else {
                    block_payload(rest)
                }
            } else {
                None
            }
        },
        None => {
            let line = strip_cr(block);
            if is_data_line(line) && !is_sentinel(line_payload(line)) {
                Some(line_payload(line))
            } else {
                None
            }
        },
    }
}

// ---------------------------------------------------------------------------
// The event model of a byte sequence
// ---------------------------------------------------------------------------

/// The payloads of all complete blocks of `s`, in order. Bytes after the
/// last delimiter are not part of any complete block and contribute
/// nothing.
pub open spec fn events_of(s: Seq<u8>) -> Seq<Seq<u8>>
    decreases s.len(),
{
    match first_block_end(s) {
        Some(i) => {
            if 0 <= i && i + 2 <= s.len() {
                let block = s.subrange(0, i);
                let rest = s.subrange(i + 2, s.len() as int);
                match block_payload(block) {
                    Some(p) => seq![p] + events_of(rest),
                    None => events_of(rest),
                }
            } else {
                Seq::empty()
            }
        },
        None => Seq::empty(),
    }
}

/// Consuming the first complete block commutes with appending further
/// input: the block's payload (if any) comes first, and the remaining
/// bytes decode independently.
pub proof fn lemma_events_step(s: Seq<u8>, i: int, t: Seq<u8>)
    requires
        first_block_end(s) == Some(i),
    ensures
        0 <= i && i + 2 <= s.len(),
        events_of(s + t) == match block_payload(s.subrange(0, i)) {
            Some(p) => seq![p] + events_of(s.subrange(i + 2, s.len() as int) + t),
            None => events_of(s.subrange(i + 2, s.len() as int) + t),
        },
{
    lemma_first_block_end(s);
    lemma_first_block_end_append(s, t);
    assert((s + t).subrange(0, i) =~= s.subrange(0, i));
    assert((s + t).subrange(i + 2, (s + t).len() as int) =~= s.subrange(i + 2, s.len() as int)
        + t);
}

/// A byte sequence without a delimiter holds no complete block, so it
/// yields no event: a dangling partial event is discarded, not emitted.
pub proof fn lemma_dangling_tail_dropped(s: Seq<u8>)
    requires
        first_block_end(s) is None,
    ensures
        events_of(s) == Seq::<Seq<u8>>::empty(),
{
}

// ---------------------------------------------------------------------------
// Stream items
// ---------------------------------------------------------------------------

/// An abnormal condition surfaced as a stream item. `Transport` and
/// `Encoding` are terminal for the stream; `Decode` is not.
pub enum StreamError {
    /// The transport failed; the stream closes after this item.
    Transport(String),
    /// A transport chunk was not valid UTF-8; the stream closes after
    /// this item.
    Encoding(String),
    /// A payload was not well-formed JSON; the stream continues.
    Decode { payload: Vec<u8>, message: String },
}

/// One item of the decoded stream: a well-formed JSON payload, or an
/// error description.
pub type StreamItem = Result<Vec<u8>, StreamError>;

/// The mathematical shape of a stream item.
pub enum ItemModel {
    Payload(Seq<u8>),
    Decode(Seq<u8>, Seq<char>),
    Transport(Seq<char>),
    Encoding,
}

/// The model of an executable stream item. The human-readable text of an
/// encoding error carries no information of the model.
pub open spec fn view_item(it: StreamItem) -> ItemModel {
    match it {
        Ok(p) => ItemModel::Payload(p@),
        Err(StreamError::Transport(m)) => ItemModel::Transport(m@),
        Err(StreamError::Encoding(_)) => ItemModel::Encoding,
        Err(StreamError::Decode { payload, message }) => ItemModel::Decode(payload@, message@),
    }
}

/// The models of a sequence of executable stream items.
pub open spec fn view_items(items: Seq<StreamItem>) -> Seq<ItemModel> {
    items.map_values(|it: StreamItem| view_item(it))
}

// ---------------------------------------------------------------------------
// Trusted facts about the outside world
// ---------------------------------------------------------------------------

/// The parse-failure description that `serde_json` gives for a byte
/// sequence: `None` when the bytes are well-formed JSON, and the error
/// message otherwise. The result depends on the bytes alone.
pub uninterp spec fn json_syntax_error(s: Seq<u8>) -> Option<Seq<char>>;

/// Relies on `serde_json::from_slice` for `serde_json::Value`: it accepts
/// exactly the well-formed JSON documents, and its error message is a
/// function of the input bytes.
#[verifier::external_body]
fn json_check(bytes: &Vec<u8>) -> (r: Result<(), String>)
    ensures
        r is Ok <==> json_syntax_error(bytes@) is None,
        r matches Err(m) ==> json_syntax_error(bytes@) == Some(m@),
{
    match serde_json::from_slice::<serde_json::Value>(bytes) {
        Ok(_) => Ok(()),
        Err(e) => Err(e.to_string()),
    }
}

// ---------------------------------------------------------------------------
// Incremental UTF-8: scanning a byte stream one scalar at a time
// ---------------------------------------------------------------------------

/// `s` is a proper, still-extendable prefix of a single valid UTF-8
/// scalar encoding: one to three bytes that some further continuation
/// bytes could complete. A sequence that already rules every completion
/// out — a stray continuation byte, an overlong or surrogate lead pair,
/// a codepoint beyond the Unicode range — is not extendable.
pub open spec fn can_start_scalar(s: Seq<u8>) -> bool {
    let n = s.len();
    n >= 1 && {
        let b = s[0];
        ||| (0xc2 <= b <= 0xdf && n == 1)
        ||| (b == 0xe0 && (n == 1 || (n == 2 && 0xa0 <= s[1] <= 0xbf)))
        ||| (((0xe1 <= b <= 0xec) || (0xee <= b <= 0xef)) && (n == 1 || (n == 2
            && is_continuation_byte(s[1]))))
        ||| (b == 0xed && (n == 1 || (n == 2 && 0x80 <= s[1] <= 0x9f)))
        ||| (b == 0xf0 && (n == 1 || (n == 2 && 0x90 <= s[1] <= 0xbf) || (n == 3 && 0x90 <= s[1]
            <= 0xbf && is_continuation_byte(s[2]))))
        ||| (0xf1 <= b <= 0xf3 && (n == 1 || (n == 2 && is_continuation_byte(s[1])) || (n == 3
            && is_continuation_byte(s[1]) && is_continuation_byte(s[2]))))
        ||| (b == 0xf4 && (n == 1 || (n == 2 && 0x80 <= s[1] <= 0x8f) || (n == 3 && 0x80 <= s[1]
            <= 0x8f && is_continuation_byte(s[2]))))
    }
}

/// The length of the longest prefix of `s` made of complete valid
/// scalars: scanning stops at the first position that does not start a
/// complete valid scalar.
pub open spec fn scan_len(s: Seq<u8>) -> int
    decreases s.len(),
{
    if s.len() == 0 {
        0
    } else if valid_first_scalar(s) && 0 < length_of_first_scalar(s) <= s.len() {
        length_of_first_scalar(s) + scan_len(s.skip(length_of_first_scalar(s)))
    } else {
        0
    }
}

/// Whether `s` is a clean UTF-8 stream prefix: complete valid scalars,
/// optionally followed by one still-extendable incomplete scalar. This
/// is a property of the accumulated bytes alone — where chunk
/// boundaries fall cannot change it.
pub open spec fn stream_ok(s: Seq<u8>) -> bool
    decreases s.len(),
{
    if s.len() == 0 {
        true
    } else if valid_first_scalar(s) && 0 < length_of_first_scalar(s) <= s.len() {
        stream_ok(s.skip(length_of_first_scalar(s)))
    } else {
        can_start_scalar(s)
    }
}

/// A valid first scalar survives appending further bytes, with the same
/// length and codepoint: the encoding is self-delimiting.
proof fn lemma_valid_first_scalar_extend(s: Seq<u8>, t: Seq<u8>)
    requires
        valid_first_scalar(s),
    ensures
        valid_first_scalar(s + t),
        length_of_first_scalar(s + t) == length_of_first_scalar(s),
{
    let u = s + t;
    assert(u[0] == s[0]);
    if is_leading_byte_width_1(s[0]) {
    } else if is_leading_byte_width_2(s[0]) {
        assert(s.len() >= 2 && is_continuation_byte(s[1]));
        assert(u[1] == s[1]);
    } else if is_leading_byte_width_3(s[0]) {
        assert(s.len() >= 3 && is_continuation_byte(s[1]) && is_continuation_byte(s[2]));
        assert(u[1] == s[1] && u[2] == s[2]);
    } else {
        assert(s.len() >= 4 && is_continuation_byte(s[1]) && is_continuation_byte(s[2])
            && is_continuation_byte(s[3]));
        assert(u[1] == s[1] && u[2] == s[2] && u[3] == s[3]);
    }
    assert(decode_first_codepoint(u) == decode_first_codepoint(s));
    assert(length_of_first_codepoint(u) == length_of_first_codepoint(s));
}

/// Scanning decomposes around a fully scanned prefix: the scalars of
/// `clean` are consumed first, whatever follows.
proof fn lemma_scan_compose(clean: Seq<u8>, u: Seq<u8>)
    requires
        scan_len(clean) == clean.len(),
    ensures
        scan_len(clean + u) == clean.len() + scan_len(u),
        stream_ok(clean + u) == stream_ok(u),
    decreases clean.len(),
{
    if clean.len() == 0 {
        assert(clean + u =~= u);
    } else {
        assert(valid_first_scalar(clean));
        let w = length_of_first_scalar(clean);
        lemma_valid_first_scalar_extend(clean, u);
        assert((clean + u).skip(w) =~= clean.skip(w) + u);
        lemma_scan_compose(clean.skip(w), u);
    }
}

/// What the scan leaves behind: the scanned prefix is fully scanned, the
/// remainder starts with no complete valid scalar, and `stream_ok` holds
/// exactly when the remainder is empty or still extendable.
proof fn lemma_scan_stop(s: Seq<u8>)
    ensures
        0 <= scan_len(s) <= s.len(),
        scan_len(s.take(scan_len(s))) == scan_len(s),
        stream_ok(s) <==> (s.skip(scan_len(s)).len() == 0 || can_start_scalar(
            s.skip(scan_len(s)),
        )),
        s.skip(scan_len(s)).len() > 0 ==> !valid_first_scalar(s.skip(scan_len(s))),
    decreases s.len(),
{
    if s.len() == 0 {
    } else if valid_first_scalar(s) && 0 < length_of_first_scalar(s) <= s.len() {
        let w = length_of_first_scalar(s);
        lemma_scan_stop(s.skip(w));
        let sub = s.skip(w);
        assert(s.skip(scan_len(s)) =~= sub.skip(scan_len(sub)));
        // the scanned prefix of s is its first scalar followed by the
        // scanned prefix of the rest
        let p = s.take(scan_len(s));
        assert(p.len() == w + scan_len(sub));
        assert forall|j: int| 0 <= j < p.len() implies p[j] == s[j] by {}
        if is_leading_byte_width_1(s[0]) {
        } else if is_leading_byte_width_2(s[0]) {
            assert(s.len() >= 2 && is_continuation_byte(s[1]));
        } else if is_leading_byte_width_3(s[0]) {
            assert(s.len() >= 3 && is_continuation_byte(s[1]) && is_continuation_byte(s[2]));
        } else {
            assert(s.len() >= 4 && is_continuation_byte(s[1]) && is_continuation_byte(s[2])
                && is_continuation_byte(s[3]));
        }
        assert(valid_first_scalar(p) && length_of_first_scalar(p) == w);
        assert(p.skip(w) =~= sub.take(scan_len(sub)));
        assert(scan_len(p) == w + scan_len(sub.take(scan_len(sub))));
    } else {
        assert(scan_len(s) == 0);
        assert(s.skip(0) =~= s);
        assert(s.take(0) =~= Seq::<u8>::empty());
    }
}

/// A scan that stopped hard stays stopped: bytes that neither form nor
/// could grow into a valid scalar stay that way under any extension, so
/// where the scan of a byte stream fails does not depend on how much of
/// the stream has arrived yet.
proof fn lemma_bad_tail_persists(r: Seq<u8>, u: Seq<u8>)
    requires
        r.len() > 0,
        !valid_first_scalar(r),
        !can_start_scalar(r),
    ensures
        !valid_first_scalar(r + u),
        !can_start_scalar(r + u),
{
    let s = r + u;
    let b = r[0];
    assert(s[0] == b);
    assert forall|j: int| 0 <= j < r.len() implies s[j] == r[j] by {}
    if b <= 0x7f {
        // a one-byte scalar is always valid: contradiction with the
        // hypotheses
        assert(((b & 0x7f) as u32) < 0xd800) by (bit_vector);
        assert(valid_first_scalar(r));
    } else if b <= 0xbf {
        // a stray continuation byte leads no width class
        assert(!valid_leading_and_continuation_bytes_first_codepoint(s));
        assert(!valid_first_scalar(s));
        assert(!can_start_scalar(s));
    } else if b <= 0xc1 {
        // 0xC0/0xC1: every completion is overlong
        if s.len() >= 2 && is_continuation_byte(s[1]) {
            let c1 = s[1];
            assert(decode_first_codepoint(s) == codepoint_width_2(s[0], s[1]));
            assert((((b & 0x1f) as u32) << 6 | ((c1 & 0x3f) as u32)) < 0x80)
                by (bit_vector)
                requires
                    0xc0 <= b && b <= 0xc1,
            ;
            assert(!valid_first_scalar(s));
        } else {
            assert(!valid_leading_and_continuation_bytes_first_codepoint(s));
            assert(!valid_first_scalar(s));
        }
        assert(!can_start_scalar(s));
    } else if b <= 0xdf {
        // a lone width-2 lead would be extendable, so a second byte is
        // present, and a continuation there would make a valid scalar
        assert(r.len() >= 2);
        let c1 = r[1];
        if is_continuation_byte(c1) {
            assert(decode_first_codepoint(r) == codepoint_width_2(r[0], r[1]));
            assert((((b & 0x1f) as u32) << 6 | ((c1 & 0x3f) as u32)) >= 0x80)
                by (bit_vector)
                requires
                    0xc2 <= b && b <= 0xdf,
            ;
            assert((((b & 0x1f) as u32) << 6 | ((c1 & 0x3f) as u32)) <= 0x7ff) by (bit_vector);
            assert(valid_first_scalar(r));
        } else {
            assert(s[1] == c1);
            assert(!valid_leading_and_continuation_bytes_first_codepoint(s));
            assert(!valid_first_scalar(s));
            assert(!can_start_scalar(s));
        }
    } else if b <= 0xef {
        assert(r.len() >= 2);
        let c1 = r[1];
        assert(s[1] == c1);
        let c1ok = if b == 0xe0 {
            0xa0 <= c1 <= 0xbf
        } else if b == 0xed {
            0x80 <= c1 <= 0x9f
        } else {
            is_continuation_byte(c1)
        };
        if !is_continuation_byte(c1) {
            assert(!valid_leading_and_continuation_bytes_first_codepoint(s));
            assert(!valid_first_scalar(s));
            assert(!can_start_scalar(s));
        } else if !c1ok {
            // a continuation byte, but one that forces an overlong (after
            // 0xE0) or surrogate (after 0xED) codepoint
            assert(b == 0xe0 || b == 0xed);
            if s.len() >= 3 && is_continuation_byte(s[2]) {
                let c2 = s[2];
                assert(decode_first_codepoint(s) == codepoint_width_3(s[0], s[1], s[2]));
                if b == 0xe0 {
                    assert((((b & 0x0f) as u32) << 12 | ((c1 & 0x3f) as u32) << 6 | ((c2
                        & 0x3f) as u32)) < 0x800)
                        by (bit_vector)
                        requires
                            b == 0xe0,
                            0x80 <= c1 && c1 <= 0x9f,
                    ;
                } else {
                    assert(0xd800 <= (((b & 0x0f) as u32) << 12 | ((c1 & 0x3f) as u32) << 6 | ((c2
                        & 0x3f) as u32)) && (((b & 0x0f) as u32) << 12 | ((c1 & 0x3f) as u32) << 6
                        | ((c2 & 0x3f) as u32)) <= 0xdfff)
                        by (bit_vector)
                        requires
                            b == 0xed,
                            0xa0 <= c1 && c1 <= 0xbf,
                            0x80 <= c2 && c2 <= 0xbf,
                    ;
                }
                assert(!valid_first_scalar(s));
            } else {
                assert(!valid_leading_and_continuation_bytes_first_codepoint(s));
                assert(!valid_first_scalar(s));
            }
            assert(!can_start_scalar(s));
        } else {
            // an acceptable second byte: a two-byte tail would be
            // extendable, so a third byte is present, and a continuation
            // there would complete a valid scalar
            assert(r.len() >= 3);
            let c2 = r[2];
            assert(s[2] == c2);
            if is_continuation_byte(c2) {
                assert(decode_first_codepoint(r) == codepoint_width_3(r[0], r[1], r[2]));
                assert((((b & 0x0f) as u32) << 12 | ((c1 & 0x3f) as u32) << 6 | ((c2
                    & 0x3f) as u32)) >= 0x800)
                    by (bit_vector)
                    requires
                        (b == 0xe0 && 0xa0 <= c1 && c1 <= 0xbf) || (0xe1 <= b && b <= 0xef),
                ;
                assert(!(0xd800 <= (((b & 0x0f) as u32) << 12 | ((c1 & 0x3f) as u32) << 6 | ((c2
                    & 0x3f) as u32)) && (((b & 0x0f) as u32) << 12 | ((c1 & 0x3f) as u32) << 6 | ((
                c2 & 0x3f) as u32)) <= 0xdfff))
                    by (bit_vector)
                    requires
                        0xe0 <= b && b <= 0xef,
                        0x80 <= c1 && c1 <= 0xbf,
                        b != 0xed || c1 <= 0x9f,
                ;
                assert(valid_first_scalar(r));
            } else {
                assert(!valid_leading_and_continuation_bytes_first_codepoint(s));
                assert(!valid_first_scalar(s));
                assert(!can_start_scalar(s));
            }
        }
    } else if b <= 0xf4 {
        assert(r.len() >= 2);
        let c1 = r[1];
        assert(s[1] == c1);
        let c1ok = if b == 0xf0 {
            0x90 <= c1 <= 0xbf
        } else if b == 0xf4 {
            0x80 <= c1 <= 0x8f
        } else {
            is_continuation_byte(c1)
        };
        if !is_continuation_byte(c1) {
            assert(!valid_leading_and_continuation_bytes_first_codepoint(s));
            assert(!valid_first_scalar(s));
            assert(!can_start_scalar(s));
        } else if !c1ok {
            assert(b == 0xf0 || b == 0xf4);
            if s.len() >= 4 && is_continuation_byte(s[2]) && is_continuation_byte(s[3]) {
                let c2 = s[2];
                let c3 = s[3];
                assert(decode_first_codepoint(s) == codepoint_width_4(s[0], s[1], s[2], s[3]));
                if b == 0xf0 {
                    assert((((b & 0x07) as u32) << 18 | ((c1 & 0x3f) as u32) << 12 | ((c2
                        & 0x3f) as u32) << 6 | ((c3 & 0x3f) as u32)) < 0x10000)
                        by (bit_vector)
                        requires
                            b == 0xf0,
                            0x80 <= c1 && c1 <= 0x8f,
                    ;
                } else {
                    assert((((b & 0x07) as u32) << 18 | ((c1 & 0x3f) as u32) << 12 | ((c2
                        & 0x3f) as u32) << 6 | ((c3 & 0x3f) as u32)) > 0x10ffff)
                        by (bit_vector)
                        requires
                            b == 0xf4,
                            0x90 <= c1 && c1 <= 0xbf,
                    ;
                }
                assert(!valid_first_scalar(s));
            } else {
                assert(!valid_leading_and_continuation_bytes_first_codepoint(s));
                assert(!valid_first_scalar(s));
            }
            assert(!can_start_scalar(s));
        } else {
            assert(r.len() >= 3);
            let c2 = r[2];
            assert(s[2] == c2);
            if !is_continuation_byte(c2) {
                assert(!valid_leading_and_continuation_bytes_first_codepoint(s));
                assert(!valid_first_scalar(s));
                assert(!can_start_scalar(s));
            } else {
                assert(r.len() >= 4);
                let c3 = r[3];
                assert(s[3] == c3);
                if is_continuation_byte(c3) {
                    assert(decode_first_codepoint(r) == codepoint_width_4(r[0], r[1], r[2], r[3]));
                    assert(0x10000 <= (((b & 0x07) as u32) << 18 | ((c1 & 0x3f) as u32) << 12 | ((
                    c2 & 0x3f) as u32) << 6 | ((c3 & 0x3f) as u32)) && (((b & 0x07) as u32) << 18
                        | ((c1 & 0x3f) as u32) << 12 | ((c2 & 0x3f) as u32) << 6 | ((c3
                        & 0x3f) as u32)) <= 0x10ffff)
                        by (bit_vector)
                        requires
                            (b == 0xf0 && 0x90 <= c1) || (0xf1 <= b && b <= 0xf3) || (b == 0xf4
                                && c1 <= 0x8f),
                            b <= 0xf4,
                            0x80 <= c1 && c1 <= 0xbf,
                    ;
                    assert(valid_first_scalar(r));
                } else {
                    assert(!valid_leading_and_continuation_bytes_first_codepoint(s));
                    assert(!valid_first_scalar(s));
                    assert(!can_start_scalar(s));
                }
            }
        }
    } else if b <= 0xf7 {
        // 0xF5 through 0xF7 would encode codepoints beyond U+10FFFF
        if s.len() >= 4 && is_continuation_byte(s[1]) && is_continuation_byte(s[2])
            && is_continuation_byte(s[3]) {
            let c1 = s[1];
            let c2 = s[2];
            let c3 = s[3];
            assert(decode_first_codepoint(s) == codepoint_width_4(s[0], s[1], s[2], s[3]));
            assert((((b & 0x07) as u32) << 18 | ((c1 & 0x3f) as u32) << 12 | ((c2
                & 0x3f) as u32) << 6 | ((c3 & 0x3f) as u32)) > 0x10ffff)
                by (bit_vector)
                requires
                    0xf5 <= b && b <= 0xf7,
            ;
            assert(!valid_first_scalar(s));
        } else {
            assert(!valid_leading_and_continuation_bytes_first_codepoint(s));
            assert(!valid_first_scalar(s));
        }
        assert(!can_start_scalar(s));
    } else {
        // 0xF8 and above lead no width class at all
        assert(!valid_leading_and_continuation_bytes_first_codepoint(s));
        assert(!valid_first_scalar(s));
        assert(!can_start_scalar(s));
    }
}

/// Classifies the scalar encoding that starts at `bytes[i]`: its width
/// when it is well formed, and `None` when it is not — a stray
/// continuation byte, an overlong encoding, a surrogate, a codepoint
/// beyond the Unicode range, or a truncated sequence.
fn check_scalar(bytes: &[u8], i: usize) -> (r: Option<usize>)
    requires
        i < bytes@.len(),
    ensures
        match r {
            Some(w) => 1 <= w <= 4 && i + w <= bytes@.len() && valid_first_scalar(
                bytes@.skip(i as int),
            ) && length_of_first_scalar(bytes@.skip(i as int)) == w,
            None => !valid_first_scalar(bytes@.skip(i as int)),
        },
{
    let n = bytes.len();
    let b = bytes[i];
    let ghost t = bytes@.skip(i as int);
    proof {
        assert(t.len() == n - i);
        assert(t[0] == bytes@[i as int]);
    }
    if b < 0x80 {
        proof {
            assert(is_leading_byte_width_1(t[0]));
            assert(((b & 0x7f) as u32) < 0xd800) by (bit_vector);
            assert(valid_first_scalar(t));
        }
        Some(1)
    } else if b < 0xc2 {
        // A stray continuation byte, or the overlong leads 0xC0/0xC1.
        proof {
            if 0xc0 <= b && t.len() >= 2 && is_continuation_byte(t[1]) {
                let c1 = t[1];
                assert(decode_first_codepoint(t) == codepoint_width_2(t[0], t[1]));
                assert((((b & 0x1f) as u32) << 6 | ((c1 & 0x3f) as u32)) < 0x80)
                    by (bit_vector)
                    requires
                        0xc0 <= b && b <= 0xc1,
                ;
                assert(!not_overlong_encoding(decode_first_codepoint(t), length_of_first_codepoint(t)));
            }
            assert(!valid_first_scalar(t));
        }
        None
    } else if b <= 0xdf {
        if n - i < 2 {
            proof {
                assert(t.len() < 2);
                assert(!valid_first_scalar(t));
            }
            return None;
        }
        let c1 = bytes[i + 1];
        proof {
            assert(t[1] == bytes@[i as int + 1]);
        }
        if 0x80 <= c1 && c1 <= 0xbf {
            proof {
                assert(valid_leading_and_continuation_bytes_first_codepoint(t));
                assert(decode_first_codepoint(t) == codepoint_width_2(t[0], t[1]));
                assert((((b & 0x1f) as u32) << 6 | ((c1 & 0x3f) as u32)) >= 0x80)
                    by (bit_vector)
                    requires
                        0xc2 <= b && b <= 0xdf,
                ;
                assert((((b & 0x1f) as u32) << 6 | ((c1 & 0x3f) as u32)) <= 0x7ff)
                    by (bit_vector);
                assert(valid_first_scalar(t));
                assert(length_of_first_scalar(t) == 2);
            }
            Some(2)
        } else {
            proof {
                assert(!is_continuation_byte(t[1]));
                assert(!valid_first_scalar(t));
            }
            None
        }
    } else if b <= 0xef {
        if n - i < 3 {
            proof {
                assert(t.len() < 3);
                assert(!valid_first_scalar(t));
            }
            return None;
        }
        let c1 = bytes[i + 1];
        let c2 = bytes[i + 2];
        proof {
            assert(t[1] == bytes@[i as int + 1]);
            assert(t[2] == bytes@[i as int + 2]);
        }
        let c1_ok = if b == 0xe0 {
            0xa0 <= c1 && c1 <= 0xbf
        } else if b == 0xed {
            0x80 <= c1 && c1 <= 0x9f
        } else {
            0x80 <= c1 && c1 <= 0xbf
        };
        if c1_ok && 0x80 <= c2 && c2 <= 0xbf {
            proof {
                assert(valid_leading_and_continuation_bytes_first_codepoint(t));
                assert(decode_first_codepoint(t) == codepoint_width_3(t[0], t[1], t[2]));
                assert((((b & 0x0f) as u32) << 12 | ((c1 & 0x3f) as u32) << 6 | ((c2
                    & 0x3f) as u32)) >= 0x800)
                    by (bit_vector)
                    requires
                        (b == 0xe0 && 0xa0 <= c1 && c1 <= 0xbf) || (0xe1 <= b && b <= 0xef),
                ;
                assert(!(0xd800 <= (((b & 0x0f) as u32) << 12 | ((c1 & 0x3f) as u32) << 6 | ((c2
                    & 0x3f) as u32)) && (((b & 0x0f) as u32) << 12 | ((c1 & 0x3f) as u32) << 6 | ((
                c2 & 0x3f) as u32)) <= 0xdfff))
                    by (bit_vector)
                    requires
                        0xe0 <= b && b <= 0xef,
                        0x80 <= c1 && c1 <= 0xbf,
                        b != 0xed || c1 <= 0x9f,
                ;
                assert(valid_first_scalar(t));
                assert(length_of_first_scalar(t) == 3);
            }
            Some(3)
        } else {
            proof {
                if is_continuation_byte(t[1]) && is_continuation_byte(t[2]) {
                    assert(decode_first_codepoint(t) == codepoint_width_3(t[0], t[1], t[2]));
                    if b == 0xe0 {
                        assert((((b & 0x0f) as u32) << 12 | ((c1 & 0x3f) as u32) << 6 | ((c2
                            & 0x3f) as u32)) < 0x800)
                            by (bit_vector)
                            requires
                                b == 0xe0,
                                0x80 <= c1 && c1 <= 0x9f,
                        ;
                    } else {
                        assert(0xd800 <= (((b & 0x0f) as u32) << 12 | ((c1 & 0x3f) as u32) << 6 | (
                        (c2 & 0x3f) as u32)) && (((b & 0x0f) as u32) << 12 | ((c1
                            & 0x3f) as u32) << 6 | ((c2 & 0x3f) as u32)) <= 0xdfff)
                            by (bit_vector)
                            requires
                                b == 0xed,
                                0xa0 <= c1 && c1 <= 0xbf,
                                0x80 <= c2 && c2 <= 0xbf,
                        ;
                    }
                }
                assert(!valid_first_scalar(t));
            }
            None
        }
    } else if b <= 0xf4 {
        if n - i < 4 {
            proof {
                assert(t.len() < 4);
                assert(!valid_first_scalar(t));
            }
            return None;
        }
        let c1 = bytes[i + 1];
        let c2 = bytes[i + 2];
        let c3 = bytes[i + 3];
        proof {
            assert(t[1] == bytes@[i as int + 1]);
            assert(t[2] == bytes@[i as int + 2]);
            assert(t[3] == bytes@[i as int + 3]);
        }
        let c1_ok = if b == 0xf0 {
            0x90 <= c1 && c1 <= 0xbf
        } else if b == 0xf4 {
            0x80 <= c1 && c1 <= 0x8f
        } else {
            0x80 <= c1 && c1 <= 0xbf
        };
        if c1_ok && 0x80 <= c2 && c2 <= 0xbf && 0x80 <= c3 && c3 <= 0xbf {
            proof {
                assert(valid_leading_and_continuation_bytes_first_codepoint(t));
                assert(decode_first_codepoint(t) == codepoint_width_4(t[0], t[1], t[2], t[3]));
                assert(0x10000 <= (((b & 0x07) as u32) << 18 | ((c1 & 0x3f) as u32) << 12 | ((c2
                    & 0x3f) as u32) << 6 | ((c3 & 0x3f) as u32)) && (((b & 0x07) as u32) << 18 | ((
                c1 & 0x3f) as u32) << 12 | ((c2 & 0x3f) as u32) << 6 | ((c3 & 0x3f) as u32))
                    <= 0x10ffff)
                    by (bit_vector)
                    requires
                        (b == 0xf0 && 0x90 <= c1) || (0xf1 <= b && b <= 0xf3) || (b == 0xf4 && c1
                            <= 0x8f),
                        b <= 0xf4,
                        0x80 <= c1 && c1 <= 0xbf,
                ;
                assert(valid_first_scalar(t));
                assert(length_of_first_scalar(t) == 4);
            }
            Some(4)
        } else {
            proof {
                if is_continuation_byte(t[1]) && is_continuation_byte(t[2])
                    && is_continuation_byte(t[3]) {
                    assert(decode_first_codepoint(t) == codepoint_width_4(t[0], t[1], t[2], t[3]));
                    if b == 0xf0 {
                        assert((((b & 0x07) as u32) << 18 | ((c1 & 0x3f) as u32) << 12 | ((c2
                            & 0x3f) as u32) << 6 | ((c3 & 0x3f) as u32)) < 0x10000)
                            by (bit_vector)
                            requires
                                b == 0xf0,
                                0x80 <= c1 && c1 <= 0x8f,
                        ;
                    } else {
                        assert((((b & 0x07) as u32) << 18 | ((c1 & 0x3f) as u32) << 12 | ((c2
                            & 0x3f) as u32) << 6 | ((c3 & 0x3f) as u32)) > 0x10ffff)
                            by (bit_vector)
                            requires
                                b == 0xf4,
                                0x90 <= c1 && c1 <= 0xbf,
                        ;
                    }
                }
                assert(!valid_first_scalar(t));
            }
            None
        }
    } else {
        // 0xF5 through 0xF7 would encode codepoints beyond U+10FFFF;
        // 0xF8 and above lead no width at all.
        proof {
            if b <= 0xf7 && t.len() >= 4 && is_continuation_byte(t[1]) && is_continuation_byte(
                t[2],
            ) && is_continuation_byte(t[3]) {
                let c1 = t[1];
                let c2 = t[2];
                let c3 = t[3];
                assert(decode_first_codepoint(t) == codepoint_width_4(t[0], t[1], t[2], t[3]));
                assert((((b & 0x07) as u32) << 18 | ((c1 & 0x3f) as u32) << 12 | ((c2
                    & 0x3f) as u32) << 6 | ((c3 & 0x3f) as u32)) > 0x10ffff)
                    by (bit_vector)
                    requires
                        0xf5 <= b && b <= 0xf7,
                ;
                assert(!not_overlong_encoding(decode_first_codepoint(t), length_of_first_codepoint(t)));
            }
            assert(!valid_first_scalar(t));
        }
        None
    }
}

/// Whether `bytes[i..]` is a still-extendable incomplete scalar prefix.
fn can_start_exec(bytes: &[u8], i: usize) -> (r: bool)
    requires
        i <= bytes@.len(),
    ensures
        r == can_start_scalar(bytes@.skip(i as int)),
{
    let total = bytes.len();
    let n = total - i;
    let ghost t = bytes@.skip(i as int);
    proof {
        assert(t.len() == n);
    }
    if n == 0 || n > 3 {
        return false;
    }
    let b = bytes[i];
    proof {
        assert(t[0] == bytes@[i as int]);
        if n >= 2 {
            assert(t[1] == bytes@[i as int + 1]);
        }
        if n >= 3 {
            assert(t[2] == bytes@[i as int + 2]);
        }
    }
    if n == 1 {
        0xc2 <= b && b <= 0xf4
    } else {
        let c1 = bytes[i + 1];
        let c1_ok = if b == 0xe0 {
            0xa0 <= c1 && c1 <= 0xbf
        } else if b == 0xed {
            0x80 <= c1 && c1 <= 0x9f
        } else if 0xe1 <= b && b <= 0xef {
            0x80 <= c1 && c1 <= 0xbf
        } else if b == 0xf0 {
            0x90 <= c1 && c1 <= 0xbf
        } else if b == 0xf4 {
            0x80 <= c1 && c1 <= 0x8f
        } else if 0xf1 <= b && b <= 0xf3 {
            0x80 <= c1 && c1 <= 0xbf
        } else {
            false
        };
        if n == 2 {
            (0xe0 <= b && b <= 0xf4) && c1_ok
        } else {
            let c2 = bytes[i + 2];
            (0xf0 <= b && b <= 0xf4) && c1_ok && 0x80 <= c2 && c2 <= 0xbf
        }
    }
}

/// Scans `v` from the front, one scalar at a time: how many bytes form
/// complete valid scalars, and whether the remainder is empty or still
/// extendable.
fn scan_bytes(v: &Vec<u8>) -> (r: (usize, bool))
    ensures
        r.0 as int == scan_len(v@),
        r.1 == stream_ok(v@),
        r.0 <= v@.len(),
{
    let n = v.len();
    let mut i: usize = 0;
    proof {
        assert(v@.skip(0) =~= v@);
    }
    while i < n
        invariant
            i <= n,
            n == v@.len(),
            scan_len(v@) == i + scan_len(v@.skip(i as int)),
            stream_ok(v@) == stream_ok(v@.skip(i as int)),
        decreases n - i,
    {
        match check_scalar(v.as_slice(), i) {
            Some(w) => {
                proof {
                    let t = v@.skip(i as int);
                    assert(t.skip(w as int) =~= v@.skip((i + w) as int));
                }
                i += w;
            },
            None => {
                let ok = can_start_exec(v.as_slice(), i);
                proof {
                    let t = v@.skip(i as int);
                    assert(t.len() > 0);
                    assert(scan_len(t) == 0);
                    assert(stream_ok(t) == can_start_scalar(t));
                }
                return (i, ok);
            },
        }
    }
    proof {
        assert(v@.skip(n as int) =~= Seq::<u8>::empty());
    }
    (i, true)
}

/// The item a decoded payload becomes: the payload itself when it is
/// well-formed JSON, and a decode error carrying it otherwise.
pub open spec fn payload_item(p: Seq<u8>) -> ItemModel {
    match json_syntax_error(p) {
        None => ItemModel::Payload(p),
        Some(m) => ItemModel::Decode(p, m),
    }
}

/// The items that the complete blocks of a byte sequence yield.
pub open spec fn sse_items(s: Seq<u8>) -> Seq<ItemModel> {
    events_of(s).map_values(|p: Seq<u8>| payload_item(p))
}

// ---------------------------------------------------------------------------
// Sentinel and decode-error laws
// ---------------------------------------------------------------------------

/// A block never yields a sentinel payload: data lines whose trimmed
/// payload is `[DONE]` are filtered out, not emitted.
pub proof fn lemma_no_sentinel_payload(block: Seq<u8>)
    ensures
        block_payload(block) matches Some(p) ==> !is_sentinel(p),
    decreases block.len(),
{
    match find_nl(block) {
        Some(i) => {
            if 0 <= i < block.len() {
                lemma_no_sentinel_payload(block.subrange(i + 1, block.len() as int));
            }
        },
        None => {},
    }
}

/// No event of any byte sequence is the sentinel: `[DONE]` payloads
/// (whatever whitespace surrounds them) never become items.
pub proof fn lemma_sentinel_yields_no_item(s: Seq<u8>)
    ensures
        forall|i: int| 0 <= i < events_of(s).len() ==> !is_sentinel(#[trigger] events_of(s)[i]),
    decreases s.len(),
{
    match first_block_end(s) {
        Some(i) => {
            if 0 <= i && i + 2 <= s.len() {
                let rest = s.subrange(i + 2, s.len() as int);
                lemma_no_sentinel_payload(s.subrange(0, i));
                lemma_sentinel_yields_no_item(rest);
                match block_payload(s.subrange(0, i)) {
                    Some(p) => {
                        assert forall|j: int| 0 <= j < events_of(s).len() implies !is_sentinel(
                            #[trigger] events_of(s)[j],
                        ) by {
                            if j == 0 {
                                assert(events_of(s)[0] == p);
                            } else {
                                assert(events_of(s)[j] == events_of(rest)[j - 1]);
                            }
                        }
                    },
                    None => {
                        assert(events_of(s) == events_of(rest));
                    },
                }
            }
        },
        None => {},
    }
}

/// A complete block that carries no payload — a comment-only block, a
/// keep-alive ping — yields no item, and the bytes after its delimiter
/// decode exactly as they would on their own: the driver moves on to the
/// next block instead of stalling or closing.
pub proof fn lemma_block_without_data_yields_no_item(block: Seq<u8>, rest: Seq<u8>)
    requires
        block_payload(block) is None,
        first_block_end(block) is None,
        block.len() > 0 ==> block[block.len() - 1] != nl(),
    ensures
        events_of(block + seq![nl(), nl()] + rest) == events_of(rest),
{
    let s = block + seq![nl(), nl()] + rest;
    let n = block.len() as int;
    assert(s[n] == nl() && s[n + 1] == nl());
    assert(is_block_end(s, n));
    lemma_first_block_end(block);
    lemma_first_block_end(s);
    assert forall|j: int| 0 <= j < n implies !is_block_end(s, j) by {
        if is_block_end(s, j) {
            if j + 1 < n {
                assert(s[j] == block[j] && s[j + 1] == block[j + 1]);
                assert(is_block_end(block, j));
            } else {
                assert(j == n - 1);
                assert(s[j] == block[j]);
            }
        }
    }
    match first_block_end(s) {
        Some(i) => {
            if i < n {
                assert(!is_block_end(s, i));
            }
            if i > n {
                assert(!is_block_end(s, n));
            }
            assert(i == n);
            assert(s.subrange(0, n) =~= block);
            assert(s.subrange(n + 2, s.len() as int) =~= rest);
        },
        None => {
            assert(!is_block_end(s, n));
        },
    }
}

/// A payload that is not well-formed JSON becomes exactly one decode
/// error item, at its own position; the events after it are decoded all
/// the same, so one malformed payload never ends the stream.
pub proof fn lemma_decode_failure_is_one_item(s: Seq<u8>, i: int)
    requires
        0 <= i < events_of(s).len(),
        json_syntax_error(events_of(s)[i]) is Some,
    ensures
        sse_items(s).len() == events_of(s).len(),
        sse_items(s)[i] == ItemModel::Decode(
            events_of(s)[i],
            json_syntax_error(events_of(s)[i]).unwrap(),
        ),
{
}

// ---------------------------------------------------------------------------
// Executable scanning helpers
// ---------------------------------------------------------------------------

/// Whether `b` is ASCII whitespace.
fn is_ws_exec(b: u8) -> (r: bool)
    ensures
        r == is_ws(b),
{
    b == 32 || b == 9 || b == 10 || b == 12 || b == 13
}

/// Finds the first block delimiter of the buffer.
fn find_block_end(buf: &Vec<u8>) -> (r: Option<usize>)
    ensures
        match r {
            Some(i) => first_block_end(buf@) == Some(i as int),
            None => first_block_end(buf@) is None,
        },
{
    let n = buf.len();
    proof {
        lemma_first_block_end(buf@);
    }
    if n < 2 {
        return None;
    }
    let mut i: usize = 0;
    while i < n - 1
        invariant
            i <= n - 1,
            n == buf@.len(),
            2 <= n,
            forall|j: int| 0 <= j < i ==> !is_block_end(buf@, j),
        decreases n - i,
    {
        if buf[i] == 10 && buf[i + 1] == 10 {
            proof {
                lemma_first_block_end(buf@);
                assert(is_block_end(buf@, i as int));
            }
            return Some(i);
        }
        proof {
            assert(!is_block_end(buf@, i as int));
        }
        i += 1;
    }
    proof {
        lemma_first_block_end(buf@);
        assert forall|j: int| !is_block_end(buf@, j) by {
            if is_block_end(buf@, j) {
                assert(j + 1 < n);
            }
        }
    }
    None
}

/// Copies `v[lo..hi]` into a fresh vector.
fn copy_range(v: &Vec<u8>, lo: usize, hi: usize) -> (r: Vec<u8>)
    requires
        lo <= hi <= v@.len(),
    ensures
        r@ == v@.subrange(lo as int, hi as int),
{
    let mut r: Vec<u8> = Vec::new();
    let mut k: usize = lo;
    while k < hi
        invariant
            lo <= k <= hi <= v@.len(),
            r@ == v@.subrange(lo as int, k as int),
        decreases hi - k,
    {
        r.push(v[k]);
        proof {
            assert(r@ =~= v@.subrange(lo as int, k as int + 1));
        }
        k += 1;
    }
    r
}

/// Whether `v[lo..hi]`, trimmed of surrounding ASCII whitespace, is the
/// `[DONE]` sentinel.
fn is_sentinel_range(v: &Vec<u8>, lo: usize, hi: usize) -> (r: bool)
    requires
        lo <= hi <= v@.len(),
    ensures
        r == is_sentinel(v@.subrange(lo as int, hi as int)),
{
    let ghost p = v@.subrange(lo as int, hi as int);
    let mut a: usize = lo;
    while a < hi && is_ws_exec(v[a])
        invariant
            lo <= a <= hi <= v@.len(),
            p == v@.subrange(lo as int, hi as int),
            trim_start(p) == trim_start(v@.subrange(a as int, hi as int)),
        decreases hi - a,
    {
        proof {
            let cur = v@.subrange(a as int, hi as int);
            assert(cur[0] == v@[a as int]);
            assert(cur.drop_first() =~= v@.subrange(a as int + 1, hi as int));
        }
        a += 1;
    }
    proof {
        let cur = v@.subrange(a as int, hi as int);
        if a < hi {
            assert(cur[0] == v@[a as int]);
        }
        assert(trim_start(cur) == cur);
    }
    let mut b: usize = hi;
    while b > a && is_ws_exec(v[b - 1])
        invariant
            lo <= a <= b <= hi <= v@.len(),
            trim(p) == trim_end(v@.subrange(a as int, b as int)),
        decreases b,
    {
        proof {
            let cur = v@.subrange(a as int, b as int);
            assert(cur.last() == v@[b as int - 1]);
            assert(cur.drop_last() =~= v@.subrange(a as int, b as int - 1));
        }
        b -= 1;
    }
    proof {
        let cur = v@.subrange(a as int, b as int);
        if b > a {
            assert(cur.last() == v@[b as int - 1]);
        }
        assert(trim_end(cur) == cur);
        assert(trim(p) == v@.subrange(a as int, b as int));
    }
    if b - a == 6 && v[a] == 91 && v[a + 1] == 68 && v[a + 2] == 79 && v[a + 3] == 78 && v[a + 4]
        == 69 && v[a + 5] == 93 {
        proof {
            assert(v@.subrange(a as int, b as int) =~= done_sentinel());
        }
        true
    } else {
        proof {
            let cur = v@.subrange(a as int, b as int);
            if cur == done_sentinel() {
                assert(cur.len() == 6);
                assert(cur[0] == 91u8 && cur[1] == 68u8 && cur[2] == 79u8 && cur[3] == 78u8
                    && cur[4] == 69u8 && cur[5] == 93u8);
                assert(v@[a as int] == cur[0]);
                assert(v@[a as int + 1] == cur[1]);
                assert(v@[a as int + 2] == cur[2]);
                assert(v@[a as int + 3] == cur[3]);
                assert(v@[a as int + 4] == cur[4]);
                assert(v@[a as int + 5] == cur[5]);
            }
        }
        false
    }
}

/// Extracts the payload of the first non-sentinel data line of `block`,
/// mirroring `block_payload` on the block's bytes.
fn block_payload_exec(block: &Vec<u8>) -> (r: Option<Vec<u8>>)
    ensures
        match r {
            Some(p) => block_payload(block@) == Some(p@),
            None => block_payload(block@) is None,
        },
{
    let n = block.len();
    let mut start: usize = 0;
    proof {
        assert(block@.subrange(0, n as int) =~= block@);
    }
    loop
        invariant
            start <= n,
            n == block@.len(),
            block_payload(block@) == block_payload(block@.subrange(start as int, n as int)),
        decreases n - start,
    {
        let ghost rem = block@.subrange(start as int, n as int);
        // Find the end of the current line.
        let mut j: usize = start;
        while j < n && block[j] != 10
            invariant
                start <= j <= n,
                n == block@.len(),
                forall|k: int| start <= k < j ==> block@[k] != 10u8,
            decreases n - j,
        {
            j += 1;
        }
        proof {
            lemma_find_nl(rem);
            assert forall|k: int| 0 <= k < j - start implies rem[k] != nl() by {
                assert(rem[k] == block@[start + k]);
            }
            if j < n {
                assert(rem[j - start] == block@[j as int]);
                match find_nl(rem) {
                    Some(fi) => {
                        if fi < j - start {
                            assert(rem[fi] != nl());
                        }
                        if fi > j - start {
                            assert(rem[j - start] != nl());
                        }
                        assert(fi == j - start);
                    },
                    None => {
                        assert(rem[j - start] != nl());
                    },
                }
            } else {
                match find_nl(rem) {
                    Some(fi) => {
                        assert(rem[fi] != nl());
                    },
                    None => {},
                }
            }
        }
        // Strip a trailing carriage return from the line.
        let line_end: usize = if j > start && block[j - 1] == 13 {
            j - 1
        } else {
            j
        };
        let ghost line_raw = block@.subrange(start as int, j as int);
        let ghost line = block@.subrange(start as int, line_end as int);
        proof {
            if j < n {
                assert(rem.subrange(0, j - start) =~= line_raw);
            } else {
                assert(rem =~= line_raw);
            }
            if j > start && block@[j as int - 1] == 13u8 {
                assert(line_raw.last() == cr());
                assert(line_raw.drop_last() =~= line);
            } else {
                if line_raw.len() > 0 {
                    assert(line_raw.last() == block@[j as int - 1]);
                }
                assert(line =~= line_raw);
            }
            assert(strip_cr(line_raw) == line);
        }
        // Does the line carry the "data: " prefix?
        let is_data = line_end - start >= 6 && block[start] == 100 && block[start + 1] == 97
            && block[start + 2] == 116 && block[start + 3] == 97 && block[start + 4] == 58
            && block[start + 5] == 32;
        proof {
            if is_data {
                assert(line.len() >= 6);
                assert forall|k: int| 0 <= k < 6 implies line.subrange(0, 6)[k] == data_prefix()[k]
                by {
                    assert(line.subrange(0, 6)[k] == block@[start + k]);
                }
                assert(line.subrange(0, 6) =~= data_prefix());
                assert(is_data_line(line));
            } else {
                if is_data_line(line) {
                    assert(line.subrange(0, 6) == data_prefix());
                    assert forall|k: int| 0 <= k < 6 implies block@[start + k] == data_prefix()[k]
                    by {
                        assert(line.subrange(0, 6)[k] == block@[start + k]);
                    }
                    assert(block@[start as int] == 100u8);
                    assert(block@[start as int + 1] == 97u8);
                    assert(block@[start as int + 2] == 116u8);
                    assert(block@[start as int + 3] == 97u8);
                    assert(block@[start as int + 4] == 58u8);
                    assert(block@[start as int + 5] == 32u8);
                    assert(line.len() >= 6);
                    assert(false);
                }
            }
        }
        if is_data {
            let ghost payload = line_payload(line);
            proof {
                assert(payload =~= block@.subrange(start as int + 6, line_end as int));
            }
            if !is_sentinel_range(block, start + 6, line_end) {
                let p = copy_range(block, start + 6, line_end);
                proof {
                    assert(block_payload(rem) == Some(payload));
                    assert(p@ == payload);
                }
                return Some(p);
            }
        }
        // The line yields nothing: move past it, or finish the block.
        if j < n {
            proof {
                assert(rem.subrange(j - start + 1, rem.len() as int) =~= block@.subrange(
                    j as int + 1,
                    n as int,
                ));
                assert(block_payload(rem) == block_payload(
                    block@.subrange(j as int + 1, n as int),
                ));
            }
            start = j + 1;
        } else {
            proof {
                assert(block_payload(rem) is None);
            }
            return None;
        }
    }
}

// ---------------------------------------------------------------------------
// The stream driver state
// ---------------------------------------------------------------------------

/// The abstract state of a decoder: the validated text not yet resolved
/// into a complete block, the held-back bytes of a scalar still waiting
/// for its continuation, whether an encoding error is waiting to be
/// surfaced, whether the transport has ended, and whether the stream is
/// closed for good.
pub struct DecoderModel {
    pub buffer: Seq<u8>,
    pub pending: Seq<u8>,
    pub failed: bool,
    pub input_done: bool,
    pub closed: bool,
}

/// Incremental SSE decoder. Each instance owns its buffer, so any number
/// of independent streams can run in one process. The caller pulls items
/// with [`SseDecoder::poll`] and hands transport chunks to
/// [`SseDecoder::feed`] when asked for more input. A multi-byte
/// character split across transport chunks is held back until its
/// continuation arrives, so chunk boundaries never influence the
/// decoded items.
pub struct SseDecoder {
    buffer: Vec<u8>,
    pending: Vec<u8>,
    failed: bool,
    input_done: bool,
    closed: bool,
}

impl View for SseDecoder {
    type V = DecoderModel;

    closed spec fn view(&self) -> DecoderModel {
        DecoderModel {
            buffer: self.buffer@,
            pending: self.pending@,
            failed: self.failed,
            input_done: self.input_done,
            closed: self.closed,
        }
    }
}

/// What one turn of the driver produced: an item to yield, a request for
/// more transport data, or the end of the stream.
pub enum PollResult {
    Item(StreamItem),
    NeedInput,
    Closed,
}

impl SseDecoder {
    /// A fresh decoder: empty buffer, transport still open.
    pub fn new() -> (d: Self)
        ensures
            d@.buffer == Seq::<u8>::empty(),
            d@.pending == Seq::<u8>::empty(),
            !d@.failed,
            !d@.input_done,
            !d@.closed,
    {
        SseDecoder {
            buffer: Vec::new(),
            pending: Vec::new(),
            failed: false,
            input_done: false,
            closed: false,
        }
    }

    /// Whether the stream has reached its terminal state.
    pub fn is_closed(&self) -> (r: bool)
        ensures
            r == self@.closed,
    {
        self.closed
    }

    /// Folds a transport chunk into the buffer. The held-back bytes and
    /// the chunk are scanned together: complete valid scalars move to
    /// the buffer, a still-extendable incomplete scalar is held back for
    /// the next chunk, and bytes that can never become valid UTF-8 mark
    /// the stream failed — later polls drain the buffered events and
    /// then surface one encoding-error item. The result says whether the
    /// accumulated bytes are still a clean UTF-8 stream prefix.
    pub fn feed(&mut self, chunk: &[u8]) -> (ok: bool)
        requires
            !old(self)@.closed,
            !old(self)@.input_done,
            !old(self)@.failed,
        ensures
            ({
                let combined = old(self)@.pending + chunk@;
                let k = scan_len(combined);
                &&& ok == stream_ok(combined)
                &&& final(self)@.buffer == old(self)@.buffer + combined.take(k)
                &&& !final(self)@.closed
                &&& !final(self)@.input_done
                &&& (ok ==> !final(self)@.failed && final(self)@.pending == combined.skip(k))
                &&& (!ok ==> final(self)@.failed)
            }),
    {
        let ghost combined = old(self)@.pending + chunk@;
        // Gather the held-back bytes and the new chunk.
        let mut comb: Vec<u8> = Vec::new();
        let pn = self.pending.len();
        let mut a: usize = 0;
        while a < pn
            invariant
                a <= pn,
                pn == self.pending@.len(),
                self.pending@ == old(self)@.pending,
                self.buffer@ == old(self)@.buffer,
                self.failed == old(self).failed,
                self.input_done == old(self).input_done,
                self.closed == old(self).closed,
                comb@ == old(self)@.pending.take(a as int),
            decreases pn - a,
        {
            comb.push(self.pending[a]);
            proof {
                assert(comb@ =~= old(self)@.pending.take(a + 1));
            }
            a += 1;
        }
        let cn = chunk.len();
        let mut b: usize = 0;
        proof {
            assert(old(self)@.pending.take(pn as int) =~= old(self)@.pending);
            assert(comb@ =~= old(self)@.pending + chunk@.take(0));
        }
        while b < cn
            invariant
                b <= cn,
                cn == chunk@.len(),
                self.pending@ == old(self)@.pending,
                self.buffer@ == old(self)@.buffer,
                self.failed == old(self).failed,
                self.input_done == old(self).input_done,
                self.closed == old(self).closed,
                comb@ == old(self)@.pending + chunk@.take(b as int),
            decreases cn - b,
        {
            comb.push(chunk[b]);
            proof {
                assert(comb@ =~= old(self)@.pending + chunk@.take(b + 1));
            }
            b += 1;
        }
        proof {
            assert(chunk@.take(cn as int) =~= chunk@);
            assert(comb@ == combined);
        }
        // Scan: complete scalars go to the buffer.
        let (k, ok) = scan_bytes(&comb);
        let mut j: usize = 0;
        while j < k
            invariant
                j <= k,
                k <= comb@.len(),
                comb@ == combined,
                self.pending@ == old(self)@.pending,
                self.failed == old(self).failed,
                self.input_done == old(self).input_done,
                self.closed == old(self).closed,
                self.buffer@ == old(self)@.buffer + combined.take(j as int),
            decreases k - j,
        {
            self.buffer.push(comb[j]);
            proof {
                assert(self.buffer@ =~= old(self)@.buffer + combined.take(j + 1));
            }
            j += 1;
        }
        if ok {
            self.pending = copy_range(&comb, k, comb.len());
            proof {
                assert(self.pending@ =~= combined.skip(scan_len(combined)));
            }
        } else {
            self.pending = Vec::new();
            self.failed = true;
        }
        ok
    }

    /// Records a transport-level failure: the stream closes and the one
    /// transport-error item to yield is handed back.
    pub fn transport_failed(&mut self, message: String) -> (r: StreamItem)
        requires
            !old(self)@.closed,
        ensures
            final(self)@.closed,
            view_item(r) == ItemModel::Transport(message@),
    {
        self.closed = true;
        Err(StreamError::Transport(message))
    }

    /// Records the end of the transport: buffered complete blocks are
    /// still drained by later polls, then the stream closes.
    pub fn end_input(&mut self)
        requires
            !old(self)@.closed,
            !old(self)@.input_done,
        ensures
            final(self)@.buffer == old(self)@.buffer,
            final(self)@.pending == old(self)@.pending,
            final(self)@.failed == old(self)@.failed,
            final(self)@.input_done,
            !final(self)@.closed,
    {
        self.input_done = true;
    }

    /// Drives the decoder one step: drains buffered complete blocks until
    /// one yields an item; when none is left it asks for more input,
    /// surfaces the one pending encoding-error item (closing the
    /// stream), or closes once the transport has ended. Bytes after the
    /// last delimiter are dropped at the end, never emitted.
    pub fn poll(&mut self) -> (r: PollResult)
        ensures
            old(self)@.closed ==> r is Closed && final(self)@.buffer == old(self)@.buffer
                && final(self)@.input_done == old(self)@.input_done && final(self)@.closed,
            !old(self)@.closed ==> final(self)@.input_done == old(self)@.input_done && match r {
                PollResult::Item(it) => {
                    ||| ({
                        &&& !final(self)@.closed
                        &&& final(self)@.failed == old(self)@.failed
                        &&& final(self)@.pending == old(self)@.pending
                        &&& final(self)@.buffer.len() < old(self)@.buffer.len()
                        &&& events_of(old(self)@.buffer).len() > 0
                        &&& view_item(it) == payload_item(events_of(old(self)@.buffer)[0])
                        &&& forall|t: Seq<u8>|
                            #[trigger] events_of(old(self)@.buffer + t) == seq![
                                events_of(old(self)@.buffer)[0],
                            ] + events_of(final(self)@.buffer + t)
                    })
                    ||| ({
                        &&& old(self)@.failed
                        &&& final(self)@.closed
                        &&& final(self)@.buffer.len() <= old(self)@.buffer.len()
                        &&& first_block_end(final(self)@.buffer) is None
                        &&& events_of(old(self)@.buffer) == Seq::<Seq<u8>>::empty()
                        &&& view_item(it) == ItemModel::Encoding
                    })
                },
                PollResult::NeedInput => {
                    &&& !old(self)@.input_done
                    &&& !old(self)@.failed
                    &&& !final(self)@.closed
                    &&& final(self)@.failed == old(self)@.failed
                    &&& final(self)@.pending == old(self)@.pending
                    &&& first_block_end(final(self)@.buffer) is None
                    &&& events_of(old(self)@.buffer) == Seq::<Seq<u8>>::empty()
                    &&& forall|t: Seq<u8>|
                        #[trigger] events_of(old(self)@.buffer + t) == events_of(
                            final(self)@.buffer + t,
                        )
                },
                PollResult::Closed => {
                    &&& old(self)@.input_done
                    &&& !old(self)@.failed
                    &&& final(self)@.closed
                    &&& first_block_end(final(self)@.buffer) is None
                    &&& events_of(old(self)@.buffer) == Seq::<Seq<u8>>::empty()
                    &&& forall|t: Seq<u8>|
                        #[trigger] events_of(old(self)@.buffer + t) == events_of(
                            final(self)@.buffer + t,
                        )
                },
            },
    {
        if self.closed {
            return PollResult::Closed;
        }
        loop
            invariant
                !self.closed,
                !old(self)@.closed,
                self.input_done == old(self).input_done,
                self.failed == old(self).failed,
                self.pending@ == old(self)@.pending,
                self@.buffer.len() <= old(self)@.buffer.len(),
                forall|t: Seq<u8>|
                    #[trigger] events_of(old(self)@.buffer + t) == events_of(self@.buffer + t),
            decreases self.buffer.len(),
        {
            match find_block_end(&self.buffer) {
                Some(i) => {
                    let ghost buf0 = self.buffer@;
                    proof {
                        lemma_first_block_end(buf0);
                    }
                    let block = copy_range(&self.buffer, 0, i);
                    let rest = self.buffer.split_off(i + 2);
                    self.buffer = rest;
                    proof {
                        assert(block@ =~= buf0.subrange(0, i as int));
                        assert(self.buffer@ =~= buf0.subrange(i + 2, buf0.len() as int));
                    }
                    match block_payload_exec(&block) {
                        Some(payload) => {
                            proof {
                                let p = payload@;
                                assert forall|t: Seq<u8>|
                                    #[trigger] events_of(old(self)@.buffer + t) == seq![p]
                                        + events_of(self@.buffer + t) by {
                                    lemma_events_step(buf0, i as int, t);
                                }
                                assert(buf0 + Seq::<u8>::empty() =~= buf0);
                                assert(old(self)@.buffer + Seq::<u8>::empty()
                                    =~= old(self)@.buffer);
                                assert(events_of(old(self)@.buffer) == seq![p] + events_of(
                                    self@.buffer + Seq::<u8>::empty(),
                                ));
                                assert(events_of(old(self)@.buffer)[0] == p);
                            }
                            match json_check(&payload) {
                                Ok(_) => {
                                    return PollResult::Item(Ok(payload));
                                },
                                Err(message) => {
                                    return PollResult::Item(
                                        Err(StreamError::Decode { payload, message }),
                                    );
                                },
                            }
                        },
                        None => {
                            proof {
                                assert forall|t: Seq<u8>|
                                    #[trigger] events_of(old(self)@.buffer + t) == events_of(
                                        self@.buffer + t,
                                    ) by {
                                    lemma_events_step(buf0, i as int, t);
                                }
                            }
                        },
                    }
                },
                None => {
                    proof {
                        assert(old(self)@.buffer + Seq::<u8>::empty() =~= old(self)@.buffer);
                        assert(self@.buffer + Seq::<u8>::empty() =~= self@.buffer);
                        assert(events_of(old(self)@.buffer) == events_of(self@.buffer));
                    }
                    if self.failed {
                        self.closed = true;
                        return PollResult::Item(
                            Err(
                                StreamError::Encoding(
                                    "response body is not valid UTF-8".to_owned(),
                                ),
                            ),
                        );
                    } else if self.input_done {
                        self.closed = true;
                        return PollResult::Closed;
                    } else {
                        return PollResult::NeedInput;
                    }
                },
            }
        }
    }
}

// ---------------------------------------------------------------------------
// A whole chunked transcript, decoded in one call
// ---------------------------------------------------------------------------

/// The items a sequence of events becomes.
pub open spec fn items_of_events(evs: Seq<Seq<u8>>) -> Seq<ItemModel> {
    evs.map_values(|p: Seq<u8>| payload_item(p))
}

/// The byte sequences of a vector of chunks.
pub open spec fn chunk_views(chunks: Seq<Vec<u8>>) -> Seq<Seq<u8>> {
    chunks.map_values(|c: Vec<u8>| c@)
}

/// The full item sequence of one decoded byte stream, as a function of
/// the accumulated transport bytes alone: the items of the complete
/// blocks within the cleanly scanned prefix, followed by one terminal
/// encoding-error item when the bytes stop being a clean UTF-8 stream.
/// Because this is a function of the concatenated bytes, how a
/// transport splits them into chunks cannot change the items.
pub open spec fn stream_items(body: Seq<u8>) -> Seq<ItemModel> {
    let clean = body.take(scan_len(body));
    if stream_ok(body) {
        sse_items(clean)
    } else {
        sse_items(clean) + seq![ItemModel::Encoding]
    }
}

/// Chunk boundaries do not influence the decoded stream: two transcripts
/// carrying the same bytes decode into the same items, whether the body
/// arrives one byte at a time or whole — also across multi-byte
/// characters and around an encoding error.
pub proof fn lemma_chunking_independent(a: Seq<Seq<u8>>, b: Seq<Seq<u8>>)
    requires
        a.flatten() == b.flatten(),
    ensures
        stream_items(a.flatten()) == stream_items(b.flatten()),
{
}

/// Items distribute over event concatenation.
proof fn lemma_items_of_events_add(a: Seq<Seq<u8>>, b: Seq<Seq<u8>>)
    ensures
        items_of_events(a + b) == items_of_events(a) + items_of_events(b),
{
    assert(items_of_events(a + b) =~= items_of_events(a) + items_of_events(b));
}

/// Appending one item appends its model.
proof fn lemma_view_items_push(items: Seq<StreamItem>, it: StreamItem)
    ensures
        view_items(items.push(it)) == view_items(items) + seq![view_item(it)],
{
    assert(view_items(items.push(it)) =~= view_items(items) + seq![view_item(it)]);
}

/// Taking one more chunk appends its bytes to the flattened prefix.
proof fn lemma_take_succ_flatten(chunks: Seq<Seq<u8>>, i: int)
    requires
        0 <= i < chunks.len(),
    ensures
        chunks.take(i + 1).flatten() == chunks.take(i).flatten() + chunks[i],
{
    assert(chunks.take(i + 1) =~= chunks.take(i).push(chunks[i]));
    chunks.take(i).lemma_flatten_push(chunks[i]);
}

/// One drained item keeps the running relation between emitted items and
/// the bytes still to come.
proof fn lemma_step_item(
    base: Seq<u8>,
    b0: Seq<u8>,
    out0: Seq<StreamItem>,
    b1: Seq<u8>,
    it: StreamItem,
)
    requires
        events_of(b0).len() > 0,
        view_item(it) == payload_item(events_of(b0)[0]),
        forall|t: Seq<u8>|
            #[trigger] events_of(b0 + t) == seq![events_of(b0)[0]] + events_of(b1 + t),
        forall|t: Seq<u8>|
            #[trigger] sse_items(base + t) == view_items(out0) + sse_items(b0 + t),
    ensures
        forall|t: Seq<u8>|
            #[trigger] sse_items(base + t) == view_items(out0.push(it)) + sse_items(b1 + t),
{
    let e0 = events_of(b0)[0];
    lemma_view_items_push(out0, it);
    assert forall|t: Seq<u8>|
        #[trigger] sse_items(base + t) == view_items(out0.push(it)) + sse_items(b1 + t) by {
        assert(sse_items(base + t) == view_items(out0) + sse_items(b0 + t));
        assert(events_of(b0 + t) == seq![e0] + events_of(b1 + t));
        lemma_items_of_events_add(seq![e0], events_of(b1 + t));
        assert(items_of_events(seq![e0]) =~= seq![payload_item(e0)]);
        assert(view_items(out0) + (seq![view_item(it)] + sse_items(b1 + t)) =~= (view_items(out0)
            + seq![view_item(it)]) + sse_items(b1 + t));
    }
}

/// The same step, once no further input is to come.
proof fn lemma_step_item_final(b0: Seq<u8>, out0: Seq<StreamItem>, b1: Seq<u8>, it: StreamItem)
    requires
        events_of(b0).len() > 0,
        view_item(it) == payload_item(events_of(b0)[0]),
        forall|t: Seq<u8>|
            #[trigger] events_of(b0 + t) == seq![events_of(b0)[0]] + events_of(b1 + t),
    ensures
        view_items(out0.push(it)) + sse_items(b1) == view_items(out0) + sse_items(b0),
{
    let e0 = events_of(b0)[0];
    assert(b0 + Seq::<u8>::empty() =~= b0);
    assert(b1 + Seq::<u8>::empty() =~= b1);
    assert(events_of(b0 + Seq::<u8>::empty()) == seq![e0] + events_of(b1 + Seq::<u8>::empty()));
    assert(events_of(b0) == seq![e0] + events_of(b1));
    lemma_items_of_events_add(seq![e0], events_of(b1));
    assert(items_of_events(seq![e0]) =~= seq![payload_item(e0)]);
    lemma_view_items_push(out0, it);
    assert(view_items(out0) + (seq![view_item(it)] + sse_items(b1)) =~= (view_items(out0) + seq![
        view_item(it),
    ]) + sse_items(b1));
}

/// Decodes a whole transcript of transport chunks at once, driving the
/// decoder exactly as a live driver would: buffered complete blocks are
/// drained before each chunk is folded in, bytes that stop being a
/// clean UTF-8 stream end it with one encoding-error item after the
/// already-complete events, and once the transcript is exhausted the
/// remaining complete blocks are drained and the dangling tail is
/// dropped. The result is a function of the concatenated bytes alone.
pub fn decode_all(chunks: &Vec<Vec<u8>>) -> (out: Vec<StreamItem>)
    ensures
        view_items(out@) == stream_items(chunk_views(chunks@).flatten()),
{
    let ghost cm: Seq<Seq<u8>> = chunk_views(chunks@);
    let ghost body: Seq<u8> = cm.flatten();
    let mut d = SseDecoder::new();
    let mut out: Vec<StreamItem> = Vec::new();
    let mut idx: usize = 0;
    proof {
        assert(cm.take(0).flatten() =~= Seq::<u8>::empty());
        let fed0 = Seq::<u8>::empty();
        assert(scan_len(fed0) == 0);
        assert(fed0.take(0) =~= fed0);
        assert(fed0.skip(0) =~= fed0);
        assert forall|t: Seq<u8>|
            #[trigger] sse_items(fed0.take(scan_len(fed0)) + t) == view_items(out@) + sse_items(
                d@.buffer + t,
            ) by {
            assert(fed0.take(scan_len(fed0)) + t =~= t);
            assert(d@.buffer + t =~= t);
            assert(view_items(out@) =~= Seq::<ItemModel>::empty());
            assert(Seq::<ItemModel>::empty() + sse_items(t) =~= sse_items(t));
        }
    }
    while idx < chunks.len()
        invariant
            idx <= chunks.len(),
            cm == chunk_views(chunks@),
            cm.len() == chunks@.len(),
            body == cm.flatten(),
            !d@.closed,
            !d@.input_done,
            !d@.failed,
            ({
                let fed = cm.take(idx as int).flatten();
                &&& stream_ok(fed)
                &&& d@.pending == fed.skip(scan_len(fed))
                &&& forall|t: Seq<u8>|
                    #[trigger] sse_items(fed.take(scan_len(fed)) + t) == view_items(out@)
                        + sse_items(d@.buffer + t)
            }),
        decreases chunks.len() - idx,
    {
        // Drain the complete blocks already buffered.
        loop
            invariant
                idx < chunks.len(),
                cm == chunk_views(chunks@),
                cm.len() == chunks@.len(),
                !d@.closed,
                !d@.input_done,
                !d@.failed,
                d@.pending == cm.take(idx as int).flatten().skip(
                    scan_len(cm.take(idx as int).flatten()),
                ),
                forall|t: Seq<u8>|
                    #[trigger] sse_items(
                        cm.take(idx as int).flatten().take(
                            scan_len(cm.take(idx as int).flatten()),
                        ) + t,
                    ) == view_items(out@) + sse_items(d@.buffer + t),
            ensures
                !d@.closed,
                !d@.input_done,
                !d@.failed,
                first_block_end(d@.buffer) is None,
                d@.pending == cm.take(idx as int).flatten().skip(
                    scan_len(cm.take(idx as int).flatten()),
                ),
                forall|t: Seq<u8>|
                    #[trigger] sse_items(
                        cm.take(idx as int).flatten().take(
                            scan_len(cm.take(idx as int).flatten()),
                        ) + t,
                    ) == view_items(out@) + sse_items(d@.buffer + t),
            decreases d@.buffer.len(),
        {
            let ghost b0 = d@.buffer;
            let ghost out0 = out@;
            match d.poll() {
                PollResult::Item(it) => {
                    proof {
                        let fed = cm.take(idx as int).flatten();
                        lemma_step_item(fed.take(scan_len(fed)), b0, out0, d@.buffer, it);
                    }
                    out.push(it);
                },
                PollResult::NeedInput => {
                    break ;
                },
                PollResult::Closed => {
                    proof {
                        assert(false);
                    }
                    break ;
                },
            }
        }
        // Fold the next transport chunk in.
        let ghost fed = cm.take(idx as int).flatten();
        let ghost clean = fed.take(scan_len(fed));
        let ghost pend = d@.pending;
        let ghost out1 = out@;
        let ghost buf1 = d@.buffer;
        let ok = d.feed(chunks[idx].as_slice());
        let ghost c = chunks@[idx as int]@;
        let ghost combined = pend + c;
        let ghost k = scan_len(combined);
        let ghost fed2 = cm.take(idx as int + 1).flatten();
        let ghost clean2 = clean + combined.take(k);
        proof {
            assert(cm[idx as int] == c);
            lemma_take_succ_flatten(cm, idx as int);
            lemma_scan_stop(fed);
            lemma_scan_stop(combined);
            assert(clean + pend =~= fed);
            lemma_scan_compose(clean, combined);
            assert(fed2 == fed + c);
            assert(fed + c =~= clean + combined);
            assert(scan_len(fed2) == clean.len() + k);
            assert(stream_ok(fed2) == stream_ok(combined));
            assert(fed2.take(scan_len(fed2)) =~= clean2);
        }
        if ok {
            proof {
                assert(stream_ok(fed2));
                assert(fed2.skip(scan_len(fed2)) =~= combined.skip(k));
                assert forall|t: Seq<u8>|
                    #[trigger] sse_items(fed2.take(scan_len(fed2)) + t) == view_items(out@)
                        + sse_items(d@.buffer + t) by {
                    assert(sse_items(clean + (combined.take(k) + t)) == view_items(out1)
                        + sse_items(buf1 + (combined.take(k) + t)));
                    assert(fed2.take(scan_len(fed2)) + t =~= clean + (combined.take(k) + t));
                    assert(d@.buffer + t =~= buf1 + (combined.take(k) + t));
                }
            }
        } else {
            // The stream is corrupt from here on: the items are what was
            // already complete, then one encoding-error item.
            proof {
                let rbad = combined.skip(k);
                lemma_scan_stop(combined);
                assert(rbad.len() > 0);
                assert(!valid_first_scalar(rbad));
                assert(!can_start_scalar(rbad));
                assert(cm =~= cm.take(idx as int + 1) + cm.skip(idx as int + 1));
                vstd::seq_lib::lemma_flatten_concat(
                    cm.take(idx as int + 1),
                    cm.skip(idx as int + 1),
                );
                let rest = cm.skip(idx as int + 1).flatten();
                assert(body == fed2 + rest);
                lemma_scan_stop(fed2);
                assert(scan_len(clean2) == clean2.len());
                assert(body =~= clean2 + (rbad + rest));
                lemma_scan_compose(clean2, rbad + rest);
                lemma_bad_tail_persists(rbad, rest);
                assert((rbad + rest).len() > 0);
                assert(scan_len(rbad + rest) == 0);
                assert(!stream_ok(rbad + rest));
                assert(scan_len(body) == clean2.len());
                assert(!stream_ok(body));
                assert(body.take(scan_len(body)) =~= clean2);
                assert(stream_items(body) == sse_items(clean2) + seq![ItemModel::Encoding]);
                // the running relation, with no further bytes to come
                assert(clean + (combined.take(k) + Seq::<u8>::empty()) =~= clean2);
                assert(buf1 + (combined.take(k) + Seq::<u8>::empty()) =~= d@.buffer);
                assert(sse_items(clean + (combined.take(k) + Seq::<u8>::empty())) == view_items(
                    out1,
                ) + sse_items(buf1 + (combined.take(k) + Seq::<u8>::empty())));
                assert(view_items(out@) + sse_items(d@.buffer) == sse_items(clean2));
            }
            loop
                invariant
                    stream_items(body) == sse_items(clean2) + seq![ItemModel::Encoding],
                    !d@.input_done,
                    !d@.closed ==> d@.failed && view_items(out@) + sse_items(d@.buffer)
                        == sse_items(clean2),
                    d@.closed ==> view_items(out@) == stream_items(body),
                ensures
                    view_items(out@) == stream_items(body),
                decreases d@.buffer.len() + (if d@.closed {
                    0int
                } else {
                    1int
                }),
            {
                let ghost b0 = d@.buffer;
                let ghost out0 = out@;
                let ghost was_closed = d@.closed;
                match d.poll() {
                    PollResult::Item(it) => {
                        proof {
                            assert(!was_closed);
                        }
                        out.push(it);
                        proof {
                            if d@.closed {
                                // the one encoding-error item
                                assert(view_item(it) == ItemModel::Encoding);
                                assert(events_of(b0) == Seq::<Seq<u8>>::empty());
                                assert(sse_items(b0) =~= Seq::<ItemModel>::empty());
                                assert(view_items(out0) + Seq::<ItemModel>::empty() =~= view_items(
                                    out0,
                                ));
                                lemma_view_items_push(out0, it);
                                assert(view_items(out@) =~= sse_items(clean2) + seq![
                                    ItemModel::Encoding,
                                ]);
                            } else {
                                // a buffered payload item
                                lemma_step_item_final(b0, out0, d@.buffer, it);
                            }
                        }
                    },
                    PollResult::NeedInput => {
                        proof {
                            assert(false);
                        }
                        break ;
                    },
                    PollResult::Closed => {
                        break ;
                    },
                }
            }
            return out;
        }
        idx += 1;
    }
    // The transport is exhausted and the stream stayed clean: drain what
    // is buffered, drop the held-back tail.
    let ghost cleanx = body.take(scan_len(body));
    proof {
        assert(cm.take(cm.len() as int) =~= cm);
        assert(stream_ok(body));
        assert(stream_items(body) == sse_items(cleanx));
    }
    d.end_input();
    proof {
        assert forall|t: Seq<u8>|
            #[trigger] sse_items(cleanx + t) == view_items(out@) + sse_items(d@.buffer + t) by {
            let fed = cm.take(idx as int).flatten();
            assert(fed == body);
            assert(sse_items(fed.take(scan_len(fed)) + t) == view_items(out@) + sse_items(
                d@.buffer + t,
            ));
            assert(fed.take(scan_len(fed)) == cleanx);
        }
    }
    loop
        invariant
            d@.input_done,
            !d@.closed ==> !d@.failed,
            !d@.closed ==> forall|t: Seq<u8>|
                #[trigger] sse_items(cleanx + t) == view_items(out@) + sse_items(d@.buffer + t),
            d@.closed ==> view_items(out@) == sse_items(cleanx),
        ensures
            view_items(out@) == sse_items(cleanx),
        decreases d@.buffer.len() + (if d@.closed {
            0int
        } else {
            1int
        }),
    {
        let ghost b0 = d@.buffer;
        let ghost out0 = out@;
        let ghost was_closed = d@.closed;
        match d.poll() {
            PollResult::Item(it) => {
                proof {
                    assert(!was_closed);
                    lemma_step_item(cleanx, b0, out0, d@.buffer, it);
                }
                out.push(it);
            },
            PollResult::NeedInput => {
                proof {
                    assert(false);
                }
                break ;
            },
            PollResult::Closed => {
                proof {
                    if !was_closed {
                        assert(cleanx + Seq::<u8>::empty() =~= cleanx);
                        assert(b0 + Seq::<u8>::empty() =~= b0);
                        assert(sse_items(cleanx + Seq::<u8>::empty()) == view_items(out0)
                            + sse_items(b0 + Seq::<u8>::empty()));
                        assert(events_of(b0) == Seq::<Seq<u8>>::empty());
                        assert(sse_items(b0) =~= Seq::<ItemModel>::empty());
                        assert(view_items(out0) + Seq::<ItemModel>::empty() =~= view_items(out0));
                    }
                }
                break ;
            },
        }
    }
    out
}

} // verus!
