//! Bounded diagnostic text.
//!
//! Every error message the pump retains or persists is capped in bytes, so a
//! pathological message can never bloat the shared diagnostics or the status
//! document. A capped message keeps whole code points and ends in a marker.

use vstd::prelude::*;
use vstd::string::*;
use vstd::utf8::*;

verus! {

/// The total cap, in bytes, on a retained or persisted error message. A truncated
/// message, payload plus marker, never exceeds it.
pub const MAX_STATUS_ERROR_LEN: usize = 2000;

/// The marker appended to a truncated error. It is counted against the total cap,
/// so a truncated payload is shortened to leave room for it.
pub const STATUS_TRUNCATION_MARKER: &'static str = "…[truncated]";

/// The number of bytes `text` takes in UTF-8.
pub open spec fn byte_len(text: Seq<char>) -> nat {
    encode_utf8(text).len()
}

/// The length of the longest prefix of `text` that takes at most `cap` bytes.
pub open spec fn chars_within(text: Seq<char>, cap: int) -> nat
    decreases text.len(),
{
    if text.len() == 0 || byte_len(text) <= cap {
        text.len()
    } else {
        chars_within(text.drop_last(), cap)
    }
}

/// The bytes left for the payload of a truncated message.
pub open spec fn payload_cap() -> int {
    MAX_STATUS_ERROR_LEN - byte_len(STATUS_TRUNCATION_MARKER@)
}

/// What a message becomes when it is retained: itself when it fits the cap, else the
/// longest prefix that leaves room for the marker, followed by the marker.
pub open spec fn bounded(text: Seq<char>) -> Seq<char> {
    if byte_len(text) <= MAX_STATUS_ERROR_LEN {
        text
    } else {
        text.take(chars_within(text, payload_cap()) as int) + STATUS_TRUNCATION_MARKER@
    }
}

/// `bounded` on a message that may be absent.
pub open spec fn bounded_opt(text: Option<Seq<char>>) -> Option<Seq<char>> {
    match text {
        Some(t) => Some(bounded(t)),
        None => None,
    }
}

/// The characters of a message that may be absent.
pub open spec fn text_of(text: Option<String>) -> Option<Seq<char>> {
    match text {
        Some(t) => Some(t@),
        None => None,
    }
}

/// The characters of a borrowed message that may be absent.
pub open spec fn str_of(text: Option<&str>) -> Option<Seq<char>> {
    match text {
        Some(t) => Some(t@),
        None => None,
    }
}

/// The characters of a write result's error.
pub open spec fn result_of(result: Result<(), String>) -> Result<(), Seq<char>> {
    match result {
        Ok(()) => Ok(()),
        Err(error) => Err(error@),
    }
}

/// A write result with its error bounded.
pub open spec fn bounded_result(result: Result<(), Seq<char>>) -> Result<(), Seq<char>> {
    match result {
        Ok(()) => Ok(()),
        Err(error) => Err(bounded(error)),
    }
}

/// A message that may be absent takes no more than the total cap.
pub open spec fn fits(text: Option<Seq<char>>) -> bool {
    text matches Some(t) ==> byte_len(t) <= MAX_STATUS_ERROR_LEN
}

pub proof fn lemma_encode_concat(a: Seq<char>, b: Seq<char>)
    ensures
        encode_utf8(a + b) == encode_utf8(a) + encode_utf8(b),
        byte_len(a + b) == byte_len(a) + byte_len(b),
    decreases a.len(),
{
    if a.len() == 0 {
        assert(a + b =~= b);
        assert(encode_utf8(a) + encode_utf8(b) =~= encode_utf8(b));
    } else {
        lemma_encode_concat(a.drop_first(), b);
        assert((a + b).drop_first() =~= a.drop_first() + b);
        assert(encode_utf8(a + b) =~= encode_utf8(a) + encode_utf8(b));
    }
}

/// One more character takes at least one more byte.
proof fn lemma_take_grows(text: Seq<char>, n: int)
    requires
        0 <= n < text.len(),
    ensures
        byte_len(text.take(n)) < byte_len(text.take(n + 1)),
{
    let c = seq![text[n]];
    assert(text.take(n + 1) =~= text.take(n) + c);
    lemma_encode_concat(text.take(n), c);
    reveal_with_fuel(encode_utf8, 2);
    assert(encode_scalar(c[0] as u32).len() >= 1);
}

proof fn lemma_take_monotone(text: Seq<char>, m: int, n: int)
    requires
        0 <= m <= n <= text.len(),
    ensures
        byte_len(text.take(m)) <= byte_len(text.take(n)),
    decreases n - m,
{
    if m < n {
        lemma_take_monotone(text, m, n - 1);
        lemma_take_grows(text, n - 1);
    }
}

/// Every prefix of whole characters ends at a character boundary.
proof fn lemma_prefix_is_boundary(text: Seq<char>, n: int)
    requires
        0 <= n <= text.len(),
    ensures
        is_char_boundary(encode_utf8(text), byte_len(text.take(n)) as int),
    decreases n,
{
    let bytes = encode_utf8(text);
    encode_utf8_valid_utf8(text);
    if n > 0 {
        let rest = text.drop_first();
        encode_utf8_first_scalar(text);
        assert(pop_first_scalar(bytes) =~= encode_utf8(rest));
        lemma_prefix_is_boundary(rest, n - 1);
        let head = seq![text[0]];
        assert(text.take(n) =~= head + rest.take(n - 1));
        lemma_encode_concat(head, rest.take(n - 1));
        reveal_with_fuel(encode_utf8, 2);
        assert(head.drop_first().len() == 0);
        assert(byte_len(head) == encode_scalar(text[0] as u32).len());
        assert(text =~= text.take(n) + text.skip(n));
        lemma_encode_concat(text.take(n), text.skip(n));
    }
}

/// The prefix that `chars_within` measures is pinned by its size and by the size of
/// the prefix one character longer.
proof fn lemma_chars_within(text: Seq<char>, cap: int, n: int)
    requires
        0 <= n <= text.len(),
        byte_len(text.take(n)) <= cap,
        n < text.len() ==> byte_len(text.take(n + 1)) > cap,
    ensures
        chars_within(text, cap) == n,
    decreases text.len(),
{
    assert(text.take(text.len() as int) =~= text);
    if n < text.len() {
        lemma_take_monotone(text, n + 1, text.len() as int);
        let shorter = text.drop_last();
        assert(shorter.take(n) =~= text.take(n));
        if n < shorter.len() {
            assert(shorter.take(n + 1) =~= text.take(n + 1));
        }
        lemma_chars_within(shorter, cap, n);
    }
}

pub proof fn lemma_chars_within_fits(text: Seq<char>, cap: int)
    requires
        0 <= cap,
    ensures
        chars_within(text, cap) <= text.len(),
        byte_len(text.take(chars_within(text, cap) as int)) <= cap,
    decreases text.len(),
{
    assert(text.take(text.len() as int) =~= text);
    if text.len() > 0 && byte_len(text) > cap {
        let shorter = text.drop_last();
        lemma_chars_within_fits(shorter, cap);
        let n = chars_within(shorter, cap) as int;
        assert(shorter.take(n) =~= text.take(n));
    }
}

pub proof fn lemma_marker_len()
    ensures
        STATUS_TRUNCATION_MARKER@.len() == 12,
        byte_len(STATUS_TRUNCATION_MARKER@) == 14,
{
    reveal_strlit("…[truncated]");
    let m = STATUS_TRUNCATION_MARKER@;
    let head = seq!['…'];
    let tail = m.skip(1);
    assert(m =~= head + tail);
    lemma_encode_concat(head, tail);
    assert(is_ascii_chars(tail));
    is_ascii_chars_encode_utf8(tail);
    reveal_with_fuel(encode_utf8, 2);
    assert(head.drop_first().len() == 0);
}

/// A retained message never takes more than the total cap, and bounding a message
/// that is already within the cap, as every retained one is, changes nothing.
pub proof fn law_bounded_within_cap(text: Seq<char>)
    ensures
        byte_len(bounded(text)) <= MAX_STATUS_ERROR_LEN,
        bounded(bounded(text)) == bounded(text),
{
    lemma_marker_len();
    if byte_len(text) > MAX_STATUS_ERROR_LEN {
        lemma_chars_within_fits(text, payload_cap());
        let payload = text.take(chars_within(text, payload_cap()) as int);
        lemma_encode_concat(payload, STATUS_TRUNCATION_MARKER@);
    }
}

/// Cap a message: itself when it fits, else its longest prefix of whole characters
/// that leaves room for the truncation marker, followed by the marker.
pub fn bound_error(message: &str) -> (capped: String)
    ensures
        capped@ == bounded(message@),
        byte_len(capped@) <= MAX_STATUS_ERROR_LEN,
{
    proof {
        law_bounded_within_cap(message@);
        lemma_marker_len();
    }
    if message.as_bytes().len() <= MAX_STATUS_ERROR_LEN {
        return message.to_string();
    }
    let mut end: usize = MAX_STATUS_ERROR_LEN.saturating_sub(STATUS_TRUNCATION_MARKER.len());
    let ghost cap: int = end as int;
    proof {
        encode_utf8_valid_utf8(message@);
        is_char_boundary_start_end_of_seq(message.spec_bytes());
    }
    while end > 0 && !message.is_char_boundary(end)
        invariant
            0 <= end <= cap,
            cap == payload_cap(),
            forall|i: int|
                end < i <= cap ==> !#[trigger] is_char_boundary(message.spec_bytes(), i),
        decreases end,
    {
        end = end - 1;
    }
    let (head, rest) = message.split_at(end);
    proof {
        let bytes = message.spec_bytes();
        let n = head@.len() as int;
        decode_utf8_split(bytes, end as int);
        encode_utf8_decode_utf8(message@);
        encode_utf8_decode_utf8(head@);
        encode_utf8_decode_utf8(rest@);
        assert(message@ =~= head@ + rest@);
        assert(message@.take(n) =~= head@);
        if n < message@.len() {
            lemma_take_grows(message@, n);
            lemma_prefix_is_boundary(message@, n + 1);
        }
        lemma_chars_within(message@, cap, n);
    }
    let mut capped = head.to_string();
    capped.append(STATUS_TRUNCATION_MARKER);
    capped
}

/// `bound_error` on a message that may be absent.
pub fn bound_optional(message: Option<&str>) -> (capped: Option<String>)
    ensures
        text_of(capped) == bounded_opt(str_of(message)),
        fits(text_of(capped)),
{
    match message {
        Some(text) => Some(bound_error(text)),
        None => None,
    }
}

/// Borrow a message that may be absent.
pub fn as_text(message: &Option<String>) -> (text: Option<&str>)
    ensures
        str_of(text) == text_of(*message),
{
    match message {
        Some(text) => Some(text.as_str()),
        None => None,
    }
}

/// Copy a write result.
pub fn copy_result(result: &Result<(), String>) -> (copy: Result<(), String>)
    ensures
        result_of(copy) == result_of(*result),
{
    match result {
        Ok(()) => Ok(()),
        Err(error) => Err(error.clone()),
    }
}

/// Join two pieces of text.
pub fn join_text(head: &str, tail: &str) -> (joined: String)
    ensures
        joined@ == head@ + tail@,
{
    let mut joined = head.to_string();
    joined.append(tail);
    joined
}

/// What is retained of a message, by size alone: all of it up to 2000 bytes; of a longer one
/// the longest beginning of whole characters within 1986 bytes, and the marker behind it.
pub proof fn law_bounded_keeps_the_longest_beginning(text: Seq<char>)
    ensures
        byte_len(text) <= 2000 ==> bounded(text) == text,
        byte_len(text) > 2000 ==> exists|n: int|
            {
                &&& 0 <= n < text.len()
                &&& byte_len(#[trigger] text.take(n)) <= 1986
                &&& byte_len(text.take(n + 1)) > 1986
                &&& bounded(text) == text.take(n) + "…[truncated]"@
            },
{
    lemma_marker_len();
    if byte_len(text) > 2000 {
        let n = chars_within(text, payload_cap()) as int;
        lemma_chars_within_fits(text, payload_cap());
        assert(text.take(text.len() as int) =~= text);
        lemma_chars_within_is_longest(text, payload_cap());
        assert(bounded(text) == text.take(n) + "…[truncated]"@);
    }
}

/// No longer beginning takes at most `cap` bytes.
proof fn lemma_chars_within_is_longest(text: Seq<char>, cap: int)
    requires
        0 <= cap < byte_len(text),
    ensures
        chars_within(text, cap) < text.len(),
        byte_len(text.take(chars_within(text, cap) as int + 1)) > cap,
    decreases text.len(),
{
    assert(text.take(text.len() as int) =~= text);
    if text.len() > 0 {
        let shorter = text.drop_last();
        let n = chars_within(shorter, cap) as int;
        lemma_chars_within_fits(shorter, cap);
        assert(shorter.take(shorter.len() as int) =~= shorter);
        if byte_len(shorter) > cap {
            lemma_chars_within_is_longest(shorter, cap);
            assert(shorter.take(n + 1) =~= text.take(n + 1));
        } else {
            assert(chars_within(shorter, cap) == shorter.len());
        }
    }
}
/// Texts and results are read as they stand, and only a failure's text is ever bounded.
pub proof fn law_texts_are_read_as_they_stand(
    text: Option<String>,
    borrowed: Option<&str>,
    result: Result<(), String>,
    error: Seq<char>,
)
    ensures
        text is None <==> text_of(text) is None,
        text matches Some(t) ==> text_of(text) == Some(t@),
        borrowed is None <==> str_of(borrowed) is None,
        borrowed matches Some(t) ==> str_of(borrowed) == Some(t@),
        result is Ok <==> result_of(result) is Ok,
        result matches Err(e) ==> result_of(result) == Err::<(), Seq<char>>(e@),
        bounded_result(Ok(())) is Ok,
        bounded_result(Err(error)) == Err::<(), Seq<char>>(bounded(error)),
        bounded_opt(None) is None,
        bounded_opt(Some(error)) == Some(bounded(error)),
        fits(Some(error)) <==> byte_len(error) <= 2000,
{
}
} // verus!
