//! Layout of the fixed-width record that the capture program emits.
//!
//! A record is three slots of `FIELD_WIDTH` bytes each: the path of the file,
//! the name of the attribute that was set, and the value it was set to. A slot
//! carries a NUL-terminated string; a slot without a NUL carries a string of
//! the full width. Nothing outside a slot is ever read for it.

use vstd::prelude::*;

verus! {

/// Width in bytes of each slot of a record.
pub const FIELD_WIDTH: usize = 50;

/// Size in bytes of a whole record.
pub const EVENT_SIZE: usize = 150;

/// Slot that carries the path of the file.
pub const PATH_SLOT: usize = 0;

/// Slot that carries the name of the attribute.
pub const NAME_SLOT: usize = 1;

/// Slot that carries the value of the attribute.
pub const VALUE_SLOT: usize = 2;

/// The bytes of slot `index` of a record.
pub open spec fn slot(buf: Seq<u8>, index: int) -> Seq<u8> {
    buf.subrange(index * FIELD_WIDTH as int, (index + 1) * FIELD_WIDTH as int)
}

/// Position of the first NUL of `s` at or after `from`, or the length of `s`
/// when there is none.
pub open spec fn terminator_from(s: Seq<u8>, from: int) -> int
    decreases s.len() - from,
{
    if from >= s.len() {
        s.len() as int
    } else if s[from] == 0 {
        from
    } else {
        terminator_from(s, from + 1)
    }
}

/// Length of the string that a slot carries.
pub open spec fn text_len(s: Seq<u8>) -> int {
    terminator_from(s, 0)
}

/// The string that a slot carries: its bytes before the first NUL, all of
/// them when it holds no NUL.
pub open spec fn text_of(s: Seq<u8>) -> Seq<u8> {
    s.take(text_len(s))
}

/// The string carried by slot `index` of a record.
pub open spec fn field(buf: Seq<u8>, index: int) -> Seq<u8> {
    text_of(slot(buf, index))
}

/// True when `s` holds no NUL byte.
pub open spec fn nul_free(s: Seq<u8>) -> bool {
    forall|i: int| 0 <= i < s.len() ==> s[i] != 0
}

/// What is left of a string once it has been cut to fit a slot together with
/// its terminator.
pub open spec fn truncated(text: Seq<u8>) -> Seq<u8> {
    if text.len() < FIELD_WIDTH {
        text
    } else {
        text.take(FIELD_WIDTH - 1)
    }
}

/// The slot that the capture side fills for a string: the string, cut to fit,
/// then NUL bytes up to the width of the slot.
pub open spec fn padded(text: Seq<u8>) -> Seq<u8> {
    truncated(text) + Seq::new((FIELD_WIDTH - truncated(text).len()) as nat, |i: int| 0u8)
}

/// The record that the capture side emits for the three strings.
pub open spec fn event_image(path: Seq<u8>, name: Seq<u8>, value: Seq<u8>) -> Seq<u8> {
    padded(path) + padded(name) + padded(value)
}

proof fn lemma_terminator_from(s: Seq<u8>, from: int)
    requires
        0 <= from <= s.len(),
    ensures
        from <= terminator_from(s, from) <= s.len(),
        forall|i: int| from <= i < terminator_from(s, from) ==> s[i] != 0,
        terminator_from(s, from) < s.len() ==> s[terminator_from(s, from)] == 0,
    decreases s.len() - from,
{
    if from < s.len() && s[from] != 0 {
        lemma_terminator_from(s, from + 1);
    }
}

/// The string of a slot is its longest prefix without a NUL.
pub proof fn lemma_text_len(s: Seq<u8>)
    ensures
        0 <= text_len(s) <= s.len(),
        nul_free(text_of(s)),
        text_len(s) < s.len() ==> s[text_len(s)] == 0,
        text_of(s).len() == text_len(s),
{
    lemma_terminator_from(s, 0);
}

/// A prefix without a NUL that ends the slot or is followed by a NUL is the
/// string of the slot.
pub proof fn lemma_text_len_unique(s: Seq<u8>, n: int)
    requires
        0 <= n <= s.len(),
        forall|i: int| 0 <= i < n ==> s[i] != 0,
        n < s.len() ==> s[n] == 0,
    ensures
        text_len(s) == n,
        text_of(s) == s.take(n),
{
    lemma_terminator_from(s, 0);
    let t = text_len(s);
    if t < n {
        assert(s[t] == 0);
    } else if n < t {
        assert(s[n] != 0);
    }
}

/// The layout is consistent: the three slots fill a record, one after the
/// other, and nothing else does.
pub proof fn lemma_layout()
    ensures
        EVENT_SIZE == 3 * FIELD_WIDTH,
        PATH_SLOT * FIELD_WIDTH == 0,
        (PATH_SLOT + 1) * FIELD_WIDTH == NAME_SLOT * FIELD_WIDTH,
        (NAME_SLOT + 1) * FIELD_WIDTH == VALUE_SLOT * FIELD_WIDTH,
        (VALUE_SLOT + 1) * FIELD_WIDTH == EVENT_SIZE,
{
}

/// Returns the string that a slot carries.
pub fn text_before_nul(bytes: &[u8]) -> (text: &[u8])
    ensures
        text@ == text_of(bytes@),
{
    let mut end: usize = 0;
    while end < bytes.len() && bytes[end] != 0
        invariant
            0 <= end <= bytes@.len(),
            terminator_from(bytes@, end as int) == text_len(bytes@),
        decreases bytes@.len() - end,
    {
        end = end + 1;
    }
    vstd::slice::slice_subrange(bytes, 0, end)
}

/// Appends to `buf` the slot that carries `text`.
fn push_slot(buf: &mut Vec<u8>, text: &[u8])
    ensures
        final(buf)@ == old(buf)@ + padded(text@),
{
    let kept: usize = if text.len() < FIELD_WIDTH {
        text.len()
    } else {
        FIELD_WIDTH - 1
    };
    assert(truncated(text@) == text@.take(kept as int));
    let mut i: usize = 0;
    while i < FIELD_WIDTH
        invariant
            0 <= i <= FIELD_WIDTH,
            kept < FIELD_WIDTH,
            kept <= text@.len(),
            truncated(text@) == text@.take(kept as int),
            buf@.len() == old(buf)@.len() + i,
            buf@ == old(buf)@ + padded(text@).take(i as int),
        decreases FIELD_WIDTH - i,
    {
        let byte: u8 = if i < kept {
            text[i]
        } else {
            0
        };
        buf.push(byte);
        assert(padded(text@)[i as int] == byte);
        assert(padded(text@).take(i + 1) == padded(text@).take(i as int).push(byte));
        i = i + 1;
    }
    assert(padded(text@).take(FIELD_WIDTH as int) == padded(text@));
}

/// Builds the record that the capture side emits for the three strings. A
/// string that does not fit its slot is cut; nothing is written past a slot.
pub fn encode_event(path: &[u8], name: &[u8], value: &[u8]) -> (buf: Vec<u8>)
    ensures
        buf@ == event_image(path@, name@, value@),
        buf@.len() == EVENT_SIZE,
{
    let mut buf: Vec<u8> = Vec::new();
    push_slot(&mut buf, path);
    push_slot(&mut buf, name);
    push_slot(&mut buf, value);
    assert(buf@ == event_image(path@, name@, value@));
    buf
}

/// Each slot of an emitted record is the padded form of its string.
pub proof fn lemma_image_slots(path: Seq<u8>, name: Seq<u8>, value: Seq<u8>)
    ensures
        event_image(path, name, value).len() == EVENT_SIZE,
        slot(event_image(path, name, value), PATH_SLOT as int) == padded(path),
        slot(event_image(path, name, value), NAME_SLOT as int) == padded(name),
        slot(event_image(path, name, value), VALUE_SLOT as int) == padded(value),
{
    let image = event_image(path, name, value);
    assert(padded(path).len() == FIELD_WIDTH);
    assert(padded(name).len() == FIELD_WIDTH);
    assert(padded(value).len() == FIELD_WIDTH);
    assert(slot(image, 0) =~= padded(path));
    assert(slot(image, 1) =~= padded(name));
    assert(slot(image, 2) =~= padded(value));
}

/// Reading a padded slot back gives the string that was cut to fit, up to its
/// first NUL; a string without a NUL comes back as it was cut.
pub proof fn lemma_padded_text(text: Seq<u8>)
    ensures
        text_of(padded(text)) == text_of(truncated(text)),
        nul_free(text) ==> text_of(padded(text)) == truncated(text),
{
    let cut = truncated(text);
    let slot = padded(text);
    lemma_text_len(cut);
    let n = text_len(cut);
    assert(cut.len() < FIELD_WIDTH);
    assert(slot.len() == FIELD_WIDTH);
    assert forall|i: int| 0 <= i < n implies slot[i] != 0 by {
        assert(slot[i] == cut[i]);
        assert(text_of(cut)[i] == cut[i]);
    }
    assert(slot[n] == 0) by {
        if n < cut.len() {
            assert(slot[n] == cut[n]);
        }
    }
    lemma_text_len_unique(slot, n);
    assert(slot.take(n) =~= cut.take(n));
    if nul_free(text) {
        assert(nul_free(cut));
        if n < cut.len() {
            assert(cut[n] == 0);
        }
        assert(cut.take(n) =~= cut);
    }
}

/// A string without a NUL that fits a slot with its terminator is read back
/// from the emitted record unchanged; a longer one is read back cut to the
/// width of the slot less one.
pub proof fn lemma_field_round_trip(path: Seq<u8>, name: Seq<u8>, value: Seq<u8>)
    ensures
        nul_free(path) ==> field(event_image(path, name, value), PATH_SLOT as int) == truncated(
            path,
        ),
        nul_free(name) ==> field(event_image(path, name, value), NAME_SLOT as int) == truncated(
            name,
        ),
        nul_free(value) ==> field(event_image(path, name, value), VALUE_SLOT as int) == truncated(
            value,
        ),
{
    lemma_image_slots(path, name, value);
    lemma_padded_text(path);
    lemma_padded_text(name);
    lemma_padded_text(value);
}

} // verus!
