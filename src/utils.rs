//! Small helpers: a deferred action and a text search.

use vstd::prelude::*;
use vstd::string::StringSliceAdditionalSpecFns;

verus! {

/// An action held until it is run, once: a scope's cleanup, which its owner
/// runs on every path out of the scope.
pub struct Finally<F: FnOnce()>(Option<F>);

impl<F: FnOnce()> Finally<F> {
    #[verifier::type_invariant]
    spec fn inv(self) -> bool {
        self.0 matches Some(f) ==> f.requires(())
    }

    /// Holds `f` until `run`.
    pub fn new(f: F) -> (r: Self)
        requires
            f.requires(()),
        ensures
            r.pending() == Some(f),
    {
        Self(Some(f))
    }

    /// Runs the held closure now, once: its postcondition holds afterwards.
    pub fn run(self)
        ensures
            self.pending() matches Some(f) ==> f.ensures((), ()),
    {
        proof {
            use_type_invariant(&self);
        }
        match self.0 {
            Some(f) => f(),
            None => {},
        }
    }

    /// The closure still to run.
    pub closed spec fn pending(&self) -> Option<F> {
        self.0
    }
}

/// `needle` occurs in `hay` as a run of consecutive bytes.
pub open spec fn contains_bytes(hay: Seq<u8>, needle: Seq<u8>) -> bool {
    exists|i: int| 0 <= i <= hay.len() - needle.len() && #[trigger] hay.subrange(i, i + needle.len()) == needle
}

/// Whether `needle` occurs in `hay` at position `at`.
fn matches_at(hay: &[u8], needle: &[u8], at: usize) -> (r: bool)
    requires
        at + needle@.len() <= hay@.len(),
    ensures
        r == (hay@.subrange(at as int, at + needle@.len()) == needle@),
{
    let n = hay.len();
    let mut j: usize = 0;
    while j < needle.len()
        invariant
            n == hay@.len(),
            at + needle@.len() <= hay@.len(),
            j <= needle@.len(),
            forall|m: int| 0 <= m < j ==> hay@[at + m] == needle@[m],
        decreases needle@.len() - j,
    {
        if hay[at + j] != needle[j] {
            assert(hay@.subrange(at as int, at + needle@.len())[j as int] != needle@[j as int]);
            return false;
        }
        j = j + 1;
    }
    assert(hay@.subrange(at as int, at + needle@.len()) =~= needle@);
    true
}

/// Whether `pattern` occurs in `text`.
pub fn str_contains(text: &str, pattern: &str) -> (r: bool)
    ensures
        r == contains_bytes(text.spec_bytes(), pattern.spec_bytes()),
{
    let hay = text.as_bytes();
    let needle = pattern.as_bytes();
    if needle.len() == 0 {
        assert(hay@.subrange(0int, 0int + needle@.len()) =~= needle@);
        return true;
    }
    if needle.len() > hay.len() {
        return false;
    }
    let last = hay.len() - needle.len();
    let mut i: usize = 0;
    while i <= last
        invariant
            hay@ == text.spec_bytes(),
            needle@ == pattern.spec_bytes(),
            needle@.len() > 0,
            hay@.len() == hay.len(),
            last == hay@.len() - needle@.len(),
            i <= last + 1,
            forall|k: int| 0 <= k < i ==> #[trigger] hay@.subrange(k, k + needle@.len()) != needle@,
        decreases last + 1 - i,
    {
        if matches_at(hay, needle, i) {
            return true;
        }
        i = i + 1;
    }
    false
}


/// The UTF-16 code units of one character: itself below `0x10000`, else a
/// surrogate pair.
pub open spec fn utf16_units(c: char) -> Seq<u16> {
    let v = c as u32;
    if v < 0x10000 {
        seq![v as u16]
    } else {
        let w = (v - 0x10000) as u32;
        seq![(0xD800 + w / 0x400) as u16, (0xDC00 + w % 0x400) as u16]
    }
}

/// The UTF-16 code units of a text.
pub open spec fn utf16_of(s: Seq<char>) -> Seq<u16>
    decreases s.len(),
{
    if s.len() == 0 {
        Seq::empty()
    } else {
        utf16_of(s.drop_last()) + utf16_units(s.last())
    }
}

/// Relies on `str::encode_utf16`: the text encoded as UTF-16.
#[verifier::external_body]
fn encode_utf16(s: &str) -> (r: Vec<u16>)
    ensures
        r@ == utf16_of(s@),
{
    s.encode_utf16().collect()
}

/// Text as the wide strings of the Windows API want it.
pub trait StrExt {
    /// The text.
    spec fn text(&self) -> Seq<char>;

    /// The UTF-16 code units of the text, then a terminating zero.
    fn to_utf16_null(&self) -> (r: Vec<u16>)
        ensures
            r@ == utf16_of(self.text()).push(0u16),
    ;
}

impl StrExt for &str {
    open spec fn text(&self) -> Seq<char> {
        (*self)@
    }

    fn to_utf16_null(&self) -> (r: Vec<u16>) {
        let mut v = encode_utf16(self);
        v.push(0u16);
        v
    }
}

} // verus!
