//! Decoding of captured records into schedule requests.
//!
//! A record asks for a deletion only when all of this holds: each of its three
//! strings is well-formed UTF-8, the attribute is `user.expire_at`, the path is
//! absolute, and the value is a timestamp. Anything else is refused with the
//! reason; a refused record never reaches the schedule.

use crate::timestamp::{
    decimal_text, lemma_timestamp_text, parse_decimal, parse_timestamp, timestamp_of,
};
use crate::wire::{
    event_image, field, lemma_field_round_trip, lemma_image_slots, lemma_text_len, nul_free, slot,
    text_before_nul, truncated, EVENT_SIZE, FIELD_WIDTH, NAME_SLOT, PATH_SLOT, VALUE_SLOT,
};
use vstd::prelude::*;
use vstd::string::*;
use vstd::utf8::*;

verus! {

/// Name of the attribute that schedules a deletion.
pub const EXPIRE_ATTRIBUTE: &'static str = "user.expire_at";

/// A request to delete a file once a point in time has passed.
#[derive(Debug, PartialEq, Eq)]
pub struct ScheduleRequest {
    /// Absolute path of the file.
    pub path: String,
    /// Name of the attribute that was set; always `EXPIRE_ATTRIBUTE`.
    pub attribute_name: String,
    /// Unix time at or after which the file is due.
    pub expire_at: i32,
}

/// What a `ScheduleRequest` holds, as plain values.
pub struct RequestView {
    pub path: Seq<char>,
    pub attribute_name: Seq<char>,
    pub expire_at: int,
}

impl View for ScheduleRequest {
    type V = RequestView;

    open spec fn view(&self) -> RequestView {
        RequestView {
            path: self.path@,
            attribute_name: self.attribute_name@,
            expire_at: self.expire_at as int,
        }
    }
}

impl Clone for ScheduleRequest {
    fn clone(&self) -> (copy: Self)
        ensures
            copy@ == self@,
    {
        ScheduleRequest {
            path: self.path.clone(),
            attribute_name: self.attribute_name.clone(),
            expire_at: self.expire_at,
        }
    }
}

/// Why a record was refused.
#[derive(Debug, Clone, Copy, PartialEq, Eq, Structural)]
pub enum DecodeError {
    /// The buffer is shorter than a record.
    Truncated,
    /// One of the three strings is not well-formed UTF-8.
    InvalidUtf8,
    /// The attribute is not `EXPIRE_ATTRIBUTE`.
    UnexpectedAttribute,
    /// The path does not begin with `/`.
    RelativePath,
    /// The value is not a timestamp.
    InvalidTimestamp,
}

/// True when a path begins with `/`.
pub open spec fn is_absolute(path: Seq<char>) -> bool {
    path.len() > 0 && path[0] == '/'
}

/// What decoding makes of a buffer. Only the first `EVENT_SIZE` bytes count.
/// The reasons for refusal are tried in the order of `DecodeError`.
pub open spec fn decoded(buf: Seq<u8>) -> Result<RequestView, DecodeError> {
    let path = field(buf, PATH_SLOT as int);
    let name = field(buf, NAME_SLOT as int);
    let value = field(buf, VALUE_SLOT as int);
    if buf.len() < EVENT_SIZE {
        Err(DecodeError::Truncated)
    } else if !(valid_utf8(path) && valid_utf8(name) && valid_utf8(value)) {
        Err(DecodeError::InvalidUtf8)
    } else if decode_utf8(name) != EXPIRE_ATTRIBUTE@ {
        Err(DecodeError::UnexpectedAttribute)
    } else if !is_absolute(decode_utf8(path)) {
        Err(DecodeError::RelativePath)
    } else {
        match timestamp_of(value) {
            Some(t) => Ok(
                RequestView {
                    path: decode_utf8(path),
                    attribute_name: decode_utf8(name),
                    expire_at: t as int,
                },
            ),
            None => Err(DecodeError::InvalidTimestamp),
        }
    }
}

/// `core::str::from_utf8`: the bytes seen as a string when they are
/// well-formed UTF-8, and nothing when they are not.
#[verifier::external_body]
fn utf8_text(bytes: &[u8]) -> (text: Option<&str>)
    ensures
        text is Some <==> valid_utf8(bytes@),
        text matches Some(s) ==> s@ == decode_utf8(bytes@),
{
    core::str::from_utf8(bytes).ok()
}

/// Decodes a captured record.
pub fn decode_event(buf: &[u8]) -> (r: Result<ScheduleRequest, DecodeError>)
    ensures
        match r {
            Ok(request) => decoded(buf@) == Ok::<RequestView, DecodeError>(request@),
            Err(e) => decoded(buf@) == Err::<RequestView, DecodeError>(e),
        },
{
    if buf.len() < EVENT_SIZE {
        return Err(DecodeError::Truncated);
    }
    let path_bytes = text_before_nul(
        vstd::slice::slice_subrange(buf, PATH_SLOT * FIELD_WIDTH, (PATH_SLOT + 1) * FIELD_WIDTH),
    );
    let name_bytes = text_before_nul(
        vstd::slice::slice_subrange(buf, NAME_SLOT * FIELD_WIDTH, (NAME_SLOT + 1) * FIELD_WIDTH),
    );
    let value_bytes = text_before_nul(
        vstd::slice::slice_subrange(buf, VALUE_SLOT * FIELD_WIDTH, (VALUE_SLOT + 1) * FIELD_WIDTH),
    );
    let path = utf8_text(path_bytes);
    let name = utf8_text(name_bytes);
    let value = utf8_text(value_bytes);
    match (path, name, value) {
        (Some(path), Some(name), Some(_)) => {
            let name = name.to_owned();
            if name != EXPIRE_ATTRIBUTE.to_owned() {
                return Err(DecodeError::UnexpectedAttribute);
            }
            if path.is_empty() || path.get_char(0) != '/' {
                return Err(DecodeError::RelativePath);
            }
            match parse_timestamp(value_bytes) {
                Some(expire_at) => Ok(
                    ScheduleRequest { path: path.to_owned(), attribute_name: name, expire_at },
                ),
                None => Err(DecodeError::InvalidTimestamp),
            }
        },
        _ => Err(DecodeError::InvalidUtf8),
    }
}

/// Bytes below 128 are well-formed UTF-8.
pub proof fn lemma_ascii_valid_utf8(bytes: Seq<u8>)
    requires
        forall|i: int| 0 <= i < bytes.len() ==> #[trigger] bytes[i] < 128,
    ensures
        valid_utf8(bytes),
{
    let chars = Seq::new(bytes.len(), |i: int| bytes[i] as char);
    assert(is_ascii_chars(chars));
    is_ascii_chars_encode_utf8(chars);
    assert(encode_utf8(chars) =~= bytes);
    encode_utf8_valid_utf8(chars);
}

proof fn lemma_scalar_bytes_nonzero(c: u32)
    requires
        is_scalar(c),
        c != 0,
    ensures
        nul_free(encode_scalar(c)),
{
    assert(c <= 0x7F ==> (c & 0x7F) as u8 != 0) by (bit_vector)
        requires
            c != 0,
    ;
    assert(0xC0u8 | ((c >> 6) & 0x1F) as u8 != 0) by (bit_vector);
    assert(0xE0u8 | ((c >> 12) & 0x0F) as u8 != 0) by (bit_vector);
    assert(0xF0u8 | ((c >> 18) & 0x7) as u8 != 0) by (bit_vector);
    assert(0x80u8 | (c & 0x3F) as u8 != 0) by (bit_vector);
    assert(0x80u8 | ((c >> 6) & 0x3F) as u8 != 0) by (bit_vector);
    assert(0x80u8 | ((c >> 12) & 0x3F) as u8 != 0) by (bit_vector);
}

/// The UTF-8 form of a string without the character NUL holds no NUL byte.
pub proof fn lemma_nul_free_encoding(chars: Seq<char>)
    requires
        forall|i: int| 0 <= i < chars.len() ==> chars[i] != '\0',
    ensures
        nul_free(encode_utf8(chars)),
    decreases chars.len(),
{
    if chars.len() > 0 {
        char_is_scalar(chars[0]);
        let c = chars[0] as u32;
        let head = encode_scalar(c);
        let tail = encode_utf8(chars.drop_first());
        assert(c != 0) by {
            char_u32_cast(chars[0], c);
            assert('\0' as u32 == 0);
        }
        lemma_scalar_bytes_nonzero(c);
        lemma_nul_free_encoding(chars.drop_first());
        assert forall|i: int| 0 <= i < encode_utf8(chars).len() implies encode_utf8(chars)[i]
            != 0 by {
            if i < head.len() {
                assert(encode_utf8(chars)[i] == head[i]);
            } else {
                assert(encode_utf8(chars)[i] == tail[i - head.len()]);
            }
        }
    }
}

/// The UTF-8 form of an absolute path begins with the byte `/`, and only that
/// of an absolute path does.
pub proof fn lemma_absolute_bytes(path: Seq<char>)
    ensures
        is_absolute(path) <==> encode_utf8(path).len() > 0 && encode_utf8(path)[0] == 0x2f,
{
    if path.len() > 0 {
        char_is_scalar(path[0]);
        let c = path[0] as u32;
        let head = encode_scalar(c);
        assert(encode_utf8(path)[0] == head[0]);
        assert(c <= 0x7F ==> ((c & 0x7F) as u8 == 0x2f <==> c == 0x2f)) by (bit_vector);
        assert(0xC0u8 | ((c >> 6) & 0x1F) as u8 != 0x2f) by (bit_vector);
        assert(0xE0u8 | ((c >> 12) & 0x0F) as u8 != 0x2f) by (bit_vector);
        assert(0xF0u8 | ((c >> 18) & 0x7) as u8 != 0x2f) by (bit_vector);
        assert(c == 0x2f <==> path[0] == '/') by {
            char_u32_cast(path[0], c);
            assert('/' as u32 == 0x2f);
        }
    }
}

/// The name of the attribute in UTF-8: fourteen bytes, none of them NUL.
pub proof fn lemma_attribute_bytes()
    ensures
        encode_utf8(EXPIRE_ATTRIBUTE@).len() == 14,
        nul_free(encode_utf8(EXPIRE_ATTRIBUTE@)),
{
    reveal_strlit("user.expire_at");
    let chars = EXPIRE_ATTRIBUTE@;
    assert(chars.len() == 14);
    assert(is_ascii_chars(chars));
    is_ascii_chars_encode_utf8(chars);
    lemma_nul_free_encoding(chars);
}

/// Round trip: the record that the capture side emits for an absolute path
/// that fits its slot, the expiry attribute and a timestamp in decimal decodes
/// to that path, that attribute and that timestamp.
pub proof fn lemma_decode_round_trip(path: Seq<char>, expire_at: i32)
    requires
        is_absolute(path),
        encode_utf8(path).len() < FIELD_WIDTH,
        forall|i: int| 0 <= i < path.len() ==> path[i] != '\0',
    ensures
        decoded(
            event_image(
                encode_utf8(path),
                encode_utf8(EXPIRE_ATTRIBUTE@),
                decimal_text(expire_at as int),
            ),
        ) == Ok::<RequestView, DecodeError>(
            RequestView { path, attribute_name: EXPIRE_ATTRIBUTE@, expire_at: expire_at as int },
        ),
{
    let path_bytes = encode_utf8(path);
    let name_bytes = encode_utf8(EXPIRE_ATTRIBUTE@);
    let value_bytes = decimal_text(expire_at as int);
    let image = event_image(path_bytes, name_bytes, value_bytes);
    lemma_nul_free_encoding(path);
    lemma_attribute_bytes();
    lemma_timestamp_text(expire_at);
    lemma_image_slots(path_bytes, name_bytes, value_bytes);
    lemma_field_round_trip(path_bytes, name_bytes, value_bytes);
    assert(field(image, PATH_SLOT as int) == path_bytes);
    assert(field(image, NAME_SLOT as int) == name_bytes);
    assert(field(image, VALUE_SLOT as int) == value_bytes);
    encode_utf8_valid_utf8(path);
    encode_utf8_valid_utf8(EXPIRE_ATTRIBUTE@);
    lemma_ascii_valid_utf8(value_bytes);
    encode_utf8_decode_utf8(path);
    encode_utf8_decode_utf8(EXPIRE_ATTRIBUTE@);
}

/// Policy: a record is refused when its attribute is not the expiry
/// attribute, when its path does not begin with `/`, and when its value is not
/// a timestamp.
pub proof fn lemma_policy_rejection(buf: Seq<u8>)
    ensures
        field(buf, NAME_SLOT as int) != encode_utf8(EXPIRE_ATTRIBUTE@) ==> decoded(buf) is Err,
        !(field(buf, PATH_SLOT as int).len() > 0 && field(buf, PATH_SLOT as int)[0] == 0x2f)
            ==> decoded(buf) is Err,
        timestamp_of(field(buf, VALUE_SLOT as int)) is None ==> decoded(buf) is Err,
{
    if decoded(buf) is Ok {
        let path = field(buf, PATH_SLOT as int);
        let name = field(buf, NAME_SLOT as int);
        decode_utf8_encode_utf8(name);
        decode_utf8_encode_utf8(path);
        lemma_absolute_bytes(decode_utf8(path));
    }
}

/// What every accepted record yields: an absolute path that fits a slot and
/// holds no NUL, the expiry attribute, and a timestamp within `i32`.
pub proof fn lemma_accepted_request(buf: Seq<u8>)
    ensures
        decoded(buf) matches Ok(request) ==> ({
            &&& is_absolute(request.path)
            &&& encode_utf8(request.path) == field(buf, PATH_SLOT as int)
            &&& encode_utf8(request.path).len() <= FIELD_WIDTH
            &&& nul_free(encode_utf8(request.path))
            &&& request.attribute_name == EXPIRE_ATTRIBUTE@
            &&& Some(request.expire_at) == parse_decimal(field(buf, VALUE_SLOT as int))
            &&& i32::MIN <= request.expire_at <= i32::MAX
        }),
{
    if decoded(buf) is Ok {
        decode_utf8_encode_utf8(field(buf, PATH_SLOT as int));
        lemma_text_len(slot(buf, PATH_SLOT as int));
    }
}

/// Truncation: of a path without a NUL the emitted record carries what fits
/// the slot together with a terminator, all of it when it is shorter than the
/// slot. If the record decodes, the request holds exactly that.
pub proof fn lemma_path_cut_to_fit(path: Seq<u8>, name: Seq<u8>, value: Seq<u8>)
    requires
        nul_free(path),
    ensures
        event_image(path, name, value).len() == EVENT_SIZE,
        field(event_image(path, name, value), PATH_SLOT as int) == truncated(path),
        path.len() < FIELD_WIDTH ==> truncated(path) == path,
        path.len() >= FIELD_WIDTH ==> truncated(path) == path.take(FIELD_WIDTH - 1),
        decoded(event_image(path, name, value)) matches Ok(request) ==> request.path
            == decode_utf8(truncated(path)),
{
    lemma_image_slots(path, name, value);
    lemma_field_round_trip(path, name, value);
}

} // verus!
