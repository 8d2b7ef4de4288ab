//! A text buffer of fixed capacity, stored on the stack.

use vstd::prelude::*;
use vstd::string::*;
use vstd::utf8::*;

verus! {

/// Number of bytes that a [`Text`] can hold.
pub const TEXT_CAPACITY: usize = 128;

/// A UTF-8 text of at most [`TEXT_CAPACITY`] bytes.
///
/// The bytes live in a `heapless::String`, which the verifier does not look
/// into: what it holds is [`text_bytes`].
#[verifier::external_body]
pub struct Text {
    inner: heapless::String<128>,
}

/// The bytes that a text holds, in order.
pub uninterp spec fn text_bytes(t: Text) -> Seq<u8>;

impl View for Text {
    type V = Seq<u8>;

    open spec fn view(&self) -> Seq<u8> {
        text_bytes(*self)
    }
}

/// `heapless::String::new`: the new string holds nothing.
#[verifier::external_body]
fn raw_new() -> (t: Text)
    ensures
        text_bytes(t) == Seq::<u8>::empty(),
{
    Text { inner: heapless::String::new() }
}

/// `heapless::String::as_str`: the slice has the bytes of the string, which
/// are never more than its capacity.
#[verifier::external_body]
fn raw_as_str(t: &Text) -> (r: &str)
    ensures
        r.spec_bytes() == text_bytes(*t),
        r.spec_bytes().len() <= TEXT_CAPACITY,
{
    t.inner.as_str()
}

/// `heapless::String::push_str`: the bytes of `s` are appended when they fit
/// into the remaining capacity; otherwise the string is left as it was and
/// the call reports a capacity error, which comes back as `false`.
#[verifier::external_body]
fn raw_push_str(t: &mut Text, s: &str) -> (ok: bool)
    ensures
        ok == (text_bytes(*old(t)).len() + s.spec_bytes().len() <= TEXT_CAPACITY),
        ok ==> text_bytes(*final(t)) == text_bytes(*old(t)) + s.spec_bytes(),
        !ok ==> text_bytes(*final(t)) == text_bytes(*old(t)),
{
    t.inner.push_str(s).is_ok()
}

/// `heapless::String::truncate`: keeps the first `new_len` bytes, or all of
/// them when the string is no longer than that. The call panics when
/// `new_len` falls inside a character, which `requires` leaves out.
#[verifier::external_body]
pub(crate) fn raw_truncate(t: &mut Text, new_len: usize)
    requires
        new_len <= text_bytes(*old(t)).len() ==> is_char_boundary(text_bytes(*old(t)), new_len as int),
    ensures
        text_bytes(*final(t)) == if new_len <= text_bytes(*old(t)).len() {
            text_bytes(*old(t)).subrange(0, new_len as int)
        } else {
            text_bytes(*old(t))
        },
{
    t.inner.truncate(new_len)
}

impl Text {
    /// An empty text.
    pub fn new() -> (t: Text)
        ensures
            t@ == Seq::<u8>::empty(),
    {
        raw_new()
    }

    /// The text as a string slice.
    pub fn as_str(&self) -> (r: &str)
        ensures
            r.spec_bytes() == self@,
            self@.len() <= TEXT_CAPACITY,
            valid_utf8(self@),
    {
        let r = raw_as_str(self);
        proof {
            encode_utf8_valid_utf8(r@);
        }
        r
    }

    /// Number of bytes in the text.
    pub fn len(&self) -> (n: usize)
        ensures
            n == self@.len(),
            n <= TEXT_CAPACITY,
    {
        raw_as_str(self).len()
    }

    /// Appends `s` if the result still fits, and says whether it did.
    pub fn push_str(&mut self, s: &str) -> (ok: bool)
        ensures
            ok == (old(self)@.len() + s.spec_bytes().len() <= TEXT_CAPACITY),
            ok ==> final(self)@ == old(self)@ + s.spec_bytes(),
            !ok ==> final(self)@ == old(self)@,
    {
        raw_push_str(self, s)
    }

    /// The text that holds the bytes of `s`, or `None` if `s` is too long.
    pub fn from_str(s: &str) -> (r: Option<Text>)
        ensures
            r.is_some() == (s.spec_bytes().len() <= TEXT_CAPACITY),
            r.is_some() ==> r.unwrap()@ == s.spec_bytes(),
    {
        let mut t = raw_new();
        if raw_push_str(&mut t, s) {
            assert(t@ =~= s.spec_bytes());
            Some(t)
        } else {
            None
        }
    }
}

} // verus!
