//! Text layout on byte strings: line wrapping, word extraction and the
//! splitting of timestamps.

use vstd::prelude::*;
use vstd::string::*;
use vstd::utf8::*;

use crate::text::{raw_truncate, Text, TEXT_CAPACITY};

verus! {

/// The byte of a space.
pub const SPACE: u8 = 0x20;

/// The byte of a line break.
pub const LINE_BREAK: u8 = 0x0a;

/// Position of the first `b` in `s` at or after `from`; the length of `s`
/// when there is none.
pub open spec fn index_of(s: Seq<u8>, from: int, b: u8) -> int
    decreases s.len() - from,
{
    if from < 0 || from >= s.len() {
        s.len() as int
    } else if s[from] == b {
        from
    } else {
        index_of(s, from + 1, b)
    }
}

/// `index_of` is the least position at or after `from` that holds `b`.
pub proof fn lemma_index_of(s: Seq<u8>, from: int, b: u8)
    requires
        0 <= from <= s.len(),
    ensures
        from <= index_of(s, from, b) <= s.len(),
        index_of(s, from, b) < s.len() ==> s[index_of(s, from, b)] == b,
        forall|k: int| from <= k < index_of(s, from, b) ==> s[k] != b,
    decreases s.len() - from,
{
    if from < s.len() && s[from] != b {
        lemma_index_of(s, from + 1, b);
    }
}

/// Where the first two words of `s` end: at the second space, or at the end
/// of `s` when it has fewer than two spaces.
pub open spec fn two_words_end(s: Seq<u8>) -> int {
    let first = index_of(s, 0, SPACE);
    if first >= s.len() {
        s.len() as int
    } else {
        index_of(s, first + 1, SPACE)
    }
}

/// The first two words of `s`.
pub open spec fn two_words(s: Seq<u8>) -> Seq<u8> {
    s.subrange(0, two_words_end(s))
}

/// The date of a timestamp: what stands before the first `T`.
pub open spec fn date_part(s: Seq<u8>) -> Seq<u8> {
    s.subrange(0, index_of(s, 0, 0x54))
}

/// The time of day of a timestamp: what stands between the first `T` and the
/// first `.`, a missing delimiter standing for the end of `s`. It is empty
/// when nothing lies between the two.
pub open spec fn time_part(s: Seq<u8>) -> Seq<u8> {
    let date_end = index_of(s, 0, 0x54);
    let time_end = index_of(s, 0, 0x2e);
    if date_end + 1 <= time_end {
        s.subrange(date_end + 1, time_end)
    } else {
        Seq::<u8>::empty()
    }
}

/// `needle` stands in `hay` at position `k`.
pub open spec fn occurs_at(hay: Seq<u8>, needle: Seq<u8>, k: int) -> bool {
    &&& 0 <= k
    &&& k + needle.len() <= hay.len()
    &&& hay.subrange(k, k + needle.len()) == needle
}

/// `needle` stands somewhere in `hay`.
pub open spec fn contains_bytes(hay: Seq<u8>, needle: Seq<u8>) -> bool {
    exists|k: int| occurs_at(hay, needle, k)
}

/// Position of the last space of `s` in `lo..hi`; `lo - 1` when there is
/// none.
pub open spec fn last_space(s: Seq<u8>, lo: int, hi: int) -> int
    decreases hi - lo,
{
    if hi <= lo {
        lo - 1
    } else if s[hi - 1] == SPACE {
        hi - 1
    } else {
        last_space(s, lo, hi - 1)
    }
}

/// `last_space` is the greatest position in `lo..hi` that holds a space.
pub proof fn lemma_last_space(s: Seq<u8>, lo: int, hi: int)
    requires
        lo <= hi,
    ensures
        lo - 1 <= last_space(s, lo, hi) < hi,
        last_space(s, lo, hi) >= lo ==> s[last_space(s, lo, hi)] == SPACE,
        forall|k: int| last_space(s, lo, hi) < k < hi ==> k >= lo ==> s[k] != SPACE,
    decreases hi - lo,
{
    if hi > lo && s[hi - 1] != SPACE {
        lemma_last_space(s, lo, hi - 1);
    }
}

/// `s` with its lines wrapped to `width` bytes, the lines before position `i`
/// taken as done, in a buffer of `cap` bytes.
///
/// The line that starts at `i` ends at the next line break or at the end of
/// `s`. If it is longer than `width`, the last space among its first `width`
/// bytes becomes a line break; if there is no such space, a line break is
/// inserted after those `width` bytes, provided that the buffer has room for
/// one more byte and that no character is cut in two. Where it cannot be
/// inserted, the rest of `s` stays as it is.
pub open spec fn wrapped_from(s: Seq<u8>, i: int, width: int, cap: int) -> Seq<u8>
    decreases cap - s.len(), s.len() - i,
{
    if i < 0 || i >= s.len() || width < 0 {
        s
    } else {
        let end = index_of(s, i, LINE_BREAK);
        if end - i <= width {
            if i <= end < s.len() {
                wrapped_from(s, end + 1, width, cap)
            } else {
                s
            }
        } else {
            let j = last_space(s, i, i + width);
            if i <= j < s.len() {
                wrapped_from(s.update(j, LINE_BREAK), j + 1, width, cap)
            } else if s.len() < cap && i + width < s.len() && !is_continuation_byte(
                s[i + width],
            ) {
                wrapped_from(s.insert(i + width, LINE_BREAK), i + width + 1, width, cap)
            } else {
                s
            }
        }
    }
}

/// `s` with every line wrapped to `width` bytes, in a buffer of `cap` bytes.
pub open spec fn wrapped(s: Seq<u8>, width: int, cap: int) -> Seq<u8> {
    wrapped_from(s, 0, width, cap)
}

/// `index_of` is `e` when `b` stands at `e` and nowhere between `from` and
/// `e`.
pub proof fn lemma_index_of_is(s: Seq<u8>, from: int, b: u8, e: int)
    requires
        0 <= from <= e < s.len(),
        s[e] == b,
        forall|k: int| from <= k < e ==> s[k] != b,
    ensures
        index_of(s, from, b) == e,
    decreases e - from,
{
    if from < e {
        lemma_index_of_is(s, from + 1, b, e);
    }
}

/// Wrapping from position `i` on leaves what stands before `i` as it is,
/// never shortens the text, and never lets it outgrow the buffer.
pub proof fn lemma_wrapped_from_keeps_prefix(s: Seq<u8>, i: int, width: int, cap: int)
    requires
        0 <= i <= s.len(),
    ensures
        wrapped_from(s, i, width, cap).len() >= s.len(),
        s.len() <= cap ==> wrapped_from(s, i, width, cap).len() <= cap,
        forall|m: int| 0 <= m < i ==> #[trigger] wrapped_from(s, i, width, cap)[m] == s[m],
    decreases cap - s.len(), s.len() - i,
{
    let r = wrapped_from(s, i, width, cap);
    if i < s.len() && width >= 0 {
        let end = index_of(s, i, LINE_BREAK);
        lemma_index_of(s, i, LINE_BREAK);
        if end - i <= width {
            if end < s.len() {
                lemma_wrapped_from_keeps_prefix(s, end + 1, width, cap);
                assert(r == wrapped_from(s, end + 1, width, cap));
                assert forall|m: int| 0 <= m < i implies #[trigger] r[m] == s[m] by {
                    assert(wrapped_from(s, end + 1, width, cap)[m] == s[m]);
                }
            }
        } else {
            let j = last_space(s, i, i + width);
            lemma_last_space(s, i, i + width);
            if i <= j < s.len() {
                let t = s.update(j, LINE_BREAK);
                lemma_wrapped_from_keeps_prefix(t, j + 1, width, cap);
                assert(r == wrapped_from(t, j + 1, width, cap));
                assert forall|m: int| 0 <= m < i implies #[trigger] r[m] == s[m] by {
                    assert(wrapped_from(t, j + 1, width, cap)[m] == t[m]);
                }
            } else if s.len() < cap && i + width < s.len() && !is_continuation_byte(
                s[i + width],
            ) {
                let t = s.insert(i + width, LINE_BREAK);
                lemma_wrapped_from_keeps_prefix(t, i + width + 1, width, cap);
                assert(r == wrapped_from(t, i + width + 1, width, cap));
                assert forall|m: int| 0 <= m < i implies #[trigger] r[m] == s[m] by {
                    assert(wrapped_from(t, i + width + 1, width, cap)[m] == t[m]);
                }
            }
        }
    }
}

/// Wrapping what was wrapped from position `i` on changes nothing.
pub proof fn lemma_wrapped_from_idempotent(s: Seq<u8>, i: int, width: int, cap: int)
    ensures
        wrapped_from(wrapped_from(s, i, width, cap), i, width, cap) == wrapped_from(
            s,
            i,
            width,
            cap,
        ),
    decreases cap - s.len(), s.len() - i,
{
    let r = wrapped_from(s, i, width, cap);
    if 0 <= i < s.len() && width >= 0 {
        let end = index_of(s, i, LINE_BREAK);
        lemma_index_of(s, i, LINE_BREAK);
        if end - i <= width {
            if end < s.len() {
                let next = end + 1;
                lemma_wrapped_from_keeps_prefix(s, next, width, cap);
                assert(r == wrapped_from(s, next, width, cap));
                assert forall|k: int| i <= k <= end implies #[trigger] r[k] == s[k] by {
                    assert(wrapped_from(s, next, width, cap)[k] == s[k]);
                }
                lemma_index_of_is(r, i, LINE_BREAK, end);
                lemma_wrapped_from_idempotent(s, next, width, cap);
                assert(wrapped_from(r, i, width, cap) == wrapped_from(r, next, width, cap));
            }
        } else {
            let j = last_space(s, i, i + width);
            lemma_last_space(s, i, i + width);
            if i <= j < s.len() {
                let t = s.update(j, LINE_BREAK);
                let next = j + 1;
                lemma_wrapped_from_keeps_prefix(t, next, width, cap);
                assert(r == wrapped_from(t, next, width, cap));
                assert forall|k: int| i <= k <= j implies #[trigger] r[k] == t[k] by {
                    assert(wrapped_from(t, next, width, cap)[k] == t[k]);
                }
                lemma_index_of_is(r, i, LINE_BREAK, j);
                lemma_wrapped_from_idempotent(t, next, width, cap);
                assert(wrapped_from(r, i, width, cap) == wrapped_from(r, next, width, cap));
            } else if s.len() < cap && i + width < s.len() && !is_continuation_byte(
                s[i + width],
            ) {
                let at = i + width;
                let t = s.insert(at, LINE_BREAK);
                let next = at + 1;
                lemma_wrapped_from_keeps_prefix(t, next, width, cap);
                assert(r == wrapped_from(t, next, width, cap));
                assert forall|k: int| i <= k <= at implies #[trigger] r[k] == t[k] by {
                    assert(wrapped_from(t, next, width, cap)[k] == t[k]);
                }
                lemma_index_of_is(r, i, LINE_BREAK, at);
                lemma_wrapped_from_idempotent(t, next, width, cap);
                assert(wrapped_from(r, i, width, cap) == wrapped_from(r, next, width, cap));
            }
        }
    }
}

/// Wrapping is idempotent: a second pass over a wrapped text, with the same
/// width and in the same buffer, changes nothing.
pub proof fn lemma_wrapped_idempotent(s: Seq<u8>, width: int, cap: int)
    ensures
        wrapped(wrapped(s, width, cap), width, cap) == wrapped(s, width, cap),
{
    lemma_wrapped_from_idempotent(s, 0, width, cap);
}

/// A wrapped text fits into the buffer that the text before fitted into, and
/// is no shorter than that text.
pub proof fn lemma_wrapped_fits(s: Seq<u8>, width: int, cap: int)
    requires
        s.len() <= cap,
    ensures
        s.len() <= wrapped(s, width, cap).len() <= cap,
{
    lemma_wrapped_from_keeps_prefix(s, 0, width, cap);
}

/// In valid UTF-8 a character starts at every byte below 0x80 and right
/// after it, and at the end of the text.
pub proof fn lemma_ascii_boundaries(s: Seq<u8>, j: int)
    requires
        valid_utf8(s),
        0 <= j <= s.len(),
        j < s.len() ==> s[j] < 0x80,
    ensures
        is_char_boundary(s, j),
        j < s.len() ==> is_char_boundary(s, j + 1),
{
    is_char_boundary_start_end_of_seq(s);
    if j < s.len() {
        is_char_boundary_iff_not_is_continuation_byte(s, j);
        if j + 1 < s.len() {
            valid_utf8_split(s, j);
            let tail = s.subrange(j, s.len() as int);
            assert(tail[0] == s[j]);
            assert(valid_first_scalar(tail));
            assert(length_of_first_scalar(tail) == 1);
            let rest = pop_first_scalar(tail);
            assert(rest =~= s.subrange(j + 1, s.len() as int));
            assert(valid_utf8(rest));
            assert(rest[0] == s[j + 1]);
            assert(valid_first_scalar(rest));
            assert(!is_continuation_byte(rest[0]));
            is_char_boundary_iff_not_is_continuation_byte(s, j + 1);
        }
    }
}

/// Position of the first `b` in `bytes` at or after `from`.
fn find_byte(bytes: &[u8], from: usize, b: u8) -> (r: usize)
    requires
        from <= bytes@.len(),
    ensures
        r == index_of(bytes@, from as int, b),
        from <= r <= bytes@.len(),
{
    let mut i: usize = from;
    while i < bytes.len() && bytes[i] != b
        invariant
            from <= i <= bytes@.len(),
            index_of(bytes@, from as int, b) == index_of(bytes@, i as int, b),
        decreases bytes@.len() - i,
    {
        i += 1;
    }
    i
}

/// Whether `needle` stands in `hay` at position `k`.
fn matches_at(hay: &[u8], needle: &[u8], k: usize) -> (r: bool)
    requires
        k + needle@.len() <= hay@.len(),
    ensures
        r == occurs_at(hay@, needle@, k as int),
{
    let size: usize = hay.len();
    let mut m: usize = 0;
    while m < needle.len()
        invariant
            m <= needle@.len(),
            k + needle@.len() <= hay@.len(),
            size == hay@.len(),
            forall|t: int| 0 <= t < m ==> hay@[k + t] == needle@[t],
        decreases needle@.len() - m,
    {
        if hay[k + m] != needle[m] {
            assert(hay@.subrange(k as int, k + needle@.len())[m as int] != needle@[m as int]);
            return false;
        }
        m += 1;
    }
    assert(hay@.subrange(k as int, k + needle@.len()) =~= needle@);
    true
}

/// Whether `needle` is a part of `hay`.
pub fn contains(hay: &str, needle: &str) -> (r: bool)
    ensures
        r == contains_bytes(hay.spec_bytes(), needle.spec_bytes()),
{
    let h = hay.as_bytes();
    let n = needle.as_bytes();
    if n.len() > h.len() {
        return false;
    }
    let last: usize = h.len() - n.len();
    let mut k: usize = 0;
    loop
        invariant
            k <= last,
            last == h@.len() - n@.len(),
            h@ == hay.spec_bytes(),
            n@ == needle.spec_bytes(),
            forall|j: int| 0 <= j < k ==> !occurs_at(h@, n@, j),
        decreases last - k,
    {
        if matches_at(h, n, k) {
            return true;
        }
        if k == last {
            return false;
        }
        k += 1;
    }
}

/// The part of `s` before its second space, or all of `s` when it has fewer
/// than two spaces.
pub fn first_two_words(s: &str) -> (r: &str)
    ensures
        r.spec_bytes() == two_words(s.spec_bytes()),
{
    let bytes = s.as_bytes();
    let first = find_byte(bytes, 0, SPACE);
    if first >= bytes.len() {
        assert(s.spec_bytes().subrange(0, s.spec_bytes().len() as int) =~= s.spec_bytes());
        return s;
    }
    let end = find_byte(bytes, first + 1, SPACE);
    proof {
        encode_utf8_valid_utf8(s@);
        lemma_index_of(s.spec_bytes(), first + 1, SPACE);
        lemma_ascii_boundaries(s.spec_bytes(), end as int);
    }
    let (head, _) = s.split_at(end);
    head
}

/// Splits a timestamp of the form `YYYY-MM-DDTHH:MM:SS.fff` into its date and
/// its time of day.
pub fn split_iso8601_timestamp(s: &str) -> (r: (&str, &str))
    ensures
        r.0.spec_bytes() == date_part(s.spec_bytes()),
        r.1.spec_bytes() == time_part(s.spec_bytes()),
{
    let bytes = s.as_bytes();
    let date_end = find_byte(bytes, 0, 0x54);
    let time_end = find_byte(bytes, 0, 0x2e);
    proof {
        encode_utf8_valid_utf8(s@);
        lemma_index_of(s.spec_bytes(), 0, 0x54);
        lemma_index_of(s.spec_bytes(), 0, 0x2e);
        lemma_ascii_boundaries(s.spec_bytes(), date_end as int);
        lemma_ascii_boundaries(s.spec_bytes(), time_end as int);
    }
    let (date, _) = s.split_at(date_end);
    if date_end < time_end {
        let (upto, _) = s.split_at(time_end);
        proof {
            encode_utf8_valid_utf8(upto@);
            assert(upto.spec_bytes()[date_end as int] == s.spec_bytes()[date_end as int]);
            lemma_ascii_boundaries(upto.spec_bytes(), date_end as int);
        }
        let (_, time) = upto.split_at(date_end + 1);
        assert(time.spec_bytes() =~= time_part(s.spec_bytes()));
        (date, time)
    } else {
        proof {
            is_char_boundary_start_end_of_seq(s.spec_bytes());
        }
        let (_, time) = s.split_at(bytes.len());
        assert(time.spec_bytes() =~= time_part(s.spec_bytes()));
        (date, time)
    }
}

/// Position of the last space of `bytes` in `lo..hi`, if there is one.
fn find_last_space(bytes: &[u8], lo: usize, hi: usize) -> (r: Option<usize>)
    requires
        lo <= hi <= bytes@.len(),
    ensures
        match r {
            Some(j) => j == last_space(bytes@, lo as int, hi as int) && lo <= j < hi,
            None => last_space(bytes@, lo as int, hi as int) == lo - 1,
        },
{
    let mut k: usize = hi;
    while k > lo
        invariant
            lo <= k <= hi <= bytes@.len(),
            last_space(bytes@, lo as int, hi as int) == last_space(bytes@, lo as int, k as int),
        decreases k,
    {
        if bytes[k - 1] == SPACE {
            return Some(k - 1);
        }
        k -= 1;
    }
    None
}

/// Puts a line break in the place of the `skip` bytes of `s` that start at
/// `at`.
fn splice_break(s: &mut Text, at: usize, skip: usize)
    requires
        at + skip <= old(s)@.len(),
        old(s)@.len() - skip + 1 <= TEXT_CAPACITY,
        is_char_boundary(old(s)@, at as int),
        is_char_boundary(old(s)@, at + skip),
    ensures
        final(s)@ == old(s)@.subrange(0, at as int) + seq![LINE_BREAK] + old(s)@.subrange(
            at + skip,
            old(s)@.len() as int,
        ),
{
    let mut tail = Text::new();
    let text = s.as_str();
    let (_, rest) = text.split_at(at + skip);
    let kept = tail.push_str(rest);
    assert(kept);
    assert(tail@ =~= old(s)@.subrange(at + skip, old(s)@.len() as int));
    raw_truncate(s, at);
    proof {
        reveal_strlit("\n");
        is_ascii_spec_bytes("\n");
        assert("\n".spec_bytes() =~= seq![LINE_BREAK]);
    }
    let first = s.push_str("\n");
    let second = s.push_str(tail.as_str());
    assert(first && second);
}

/// Wraps the lines of `s` to at most `max_line_len` bytes, in place.
///
/// A line that is too long is broken at the last space among its first
/// `max_line_len` bytes, which becomes a line break. A line without such a
/// space gets a line break inserted after `max_line_len` bytes; when the
/// buffer is full, or that place lies inside a character, wrapping stops and
/// the rest of the text stays as it is.
pub fn insert_linebreaks_inplace(s: &mut Text, max_line_len: usize)
    ensures
        final(s)@ == wrapped(old(s)@, max_line_len as int, TEXT_CAPACITY as int),
{
    let mut i: usize = 0;
    loop
        invariant
            wrapped_from(s@, i as int, max_line_len as int, TEXT_CAPACITY as int) == wrapped(
                old(s)@,
                max_line_len as int,
                TEXT_CAPACITY as int,
            ),
        ensures
            s@ == wrapped(old(s)@, max_line_len as int, TEXT_CAPACITY as int),
        decreases TEXT_CAPACITY - s@.len(), s@.len() - i,
    {
        let len = s.len();
        if i >= len {
            break ;
        }
        let text = s.as_str();
        let bytes = text.as_bytes();
        let line_end = find_byte(bytes, i, LINE_BREAK);
        if line_end - i <= max_line_len {
            if line_end < len {
                i = line_end + 1;
            } else {
                break ;
            }
        } else {
            let limit = i + max_line_len;
            proof {
                lemma_last_space(s@, i as int, limit as int);
            }
            match find_last_space(bytes, i, limit) {
                Some(j) => {
                    proof {
                        lemma_ascii_boundaries(s@, j as int);
                        assert(s@.update(j as int, LINE_BREAK) =~= s@.subrange(0, j as int)
                            + seq![LINE_BREAK] + s@.subrange(j + 1, s@.len() as int));
                    }
                    splice_break(s, j, 1);
                    i = j + 1;
                },
                None => {
                    let b = bytes[limit];
                    if len < TEXT_CAPACITY && !(0x80 <= b && b <= 0xbf) {
                        proof {
                            is_char_boundary_iff_not_is_continuation_byte(s@, limit as int);
                            assert(s@.insert(limit as int, LINE_BREAK) =~= s@.subrange(
                                0,
                                limit as int,
                            ) + seq![LINE_BREAK] + s@.subrange(limit as int, s@.len() as int));
                        }
                        splice_break(s, limit, 0);
                        i = limit + 1;
                    } else {
                        break ;
                    }
                },
            }
        }
    }
}

} // verus!
