//! The SSH agent wire format: big-endian integers, length-prefixed strings
//! and multi-precision integers.

use vstd::prelude::*;
use vstd::slice::{slice_subrange, slice_to_vec};
use vstd::utf8::{decode_utf8, valid_utf8};

verus! {

/// The value of the four big-endian bytes at the head of `b`.
pub open spec fn be_u32(b: Seq<u8>) -> int {
    (b[0] as int) * 0x1000000 + (b[1] as int) * 0x10000 + (b[2] as int) * 0x100 + (b[3] as int)
}

/// The four big-endian bytes of `n`.
pub open spec fn u32_bytes(n: u32) -> Seq<u8> {
    seq![
        (n / 0x1000000) as u8,
        ((n / 0x10000) % 0x100) as u8,
        ((n / 0x100) % 0x100) as u8,
        (n % 0x100) as u8,
    ]
}

/// An SSH string: the length of `data` as four big-endian bytes, then `data`.
pub open spec fn ssh_string(data: Seq<u8>) -> Seq<u8> {
    u32_bytes(data.len() as u32) + data
}

/// `b` without its leading zero bytes.
pub open spec fn strip_zeros(b: Seq<u8>) -> Seq<u8>
    decreases b.len(),
{
    if b.len() > 0 && b[0] == 0 {
        strip_zeros(b.skip(1))
    } else {
        b
    }
}

/// A magnitude in its shortest big-endian form: no leading zero byte.
pub open spec fn is_minimal(mag: Seq<u8>) -> bool {
    mag.len() == 0 || mag[0] != 0
}

/// The number that the big-endian bytes `b` stand for.
pub open spec fn be_value(b: Seq<u8>) -> nat
    decreases b.len(),
{
    if b.len() == 0 {
        0
    } else {
        be_value(b.drop_last()) * 256 + b.last() as nat
    }
}

/// The body of an mpint for the magnitude `mag`: a `0x00` sign marker comes
/// first when the leading byte has its high bit set.
pub open spec fn mpint_body(mag: Seq<u8>) -> Seq<u8> {
    if mag.len() > 0 && mag[0] >= 0x80 {
        seq![0u8] + mag
    } else {
        mag
    }
}

/// An mpint on the wire: its body as an SSH string.
pub open spec fn mpint(mag: Seq<u8>) -> Seq<u8> {
    ssh_string(mpint_body(mag))
}

/// Reads a big-endian `u32` from the head of `s`; gives it and what follows.
pub open spec fn parse_u32(s: Seq<u8>) -> Option<(u32, Seq<u8>)> {
    if s.len() >= 4 {
        Some((be_u32(s) as u32, s.skip(4)))
    } else {
        None
    }
}

/// Reads an SSH string from the head of `s`; gives its payload and what follows.
pub open spec fn parse_string(s: Seq<u8>) -> Option<(Seq<u8>, Seq<u8>)> {
    match parse_u32(s) {
        Some((n, rest)) => if n <= rest.len() {
            Some((rest.take(n as int), rest.skip(n as int)))
        } else {
            None
        },
        None => None,
    }
}

/// Reads an mpint from the head of `s` as an unsigned magnitude in shortest form.
pub open spec fn parse_mpint(s: Seq<u8>) -> Option<(Seq<u8>, Seq<u8>)> {
    match parse_string(s) {
        Some((body, rest)) => Some((strip_zeros(body), rest)),
        None => None,
    }
}

/// Dropping the leading zeros gives a magnitude in shortest form, no longer
/// than the input; dropping them again changes nothing.
pub proof fn lemma_strip_zeros(b: Seq<u8>)
    ensures
        is_minimal(strip_zeros(b)),
        strip_zeros(b).len() <= b.len(),
        strip_zeros(strip_zeros(b)) == strip_zeros(b),
    decreases b.len(),
{
    if b.len() > 0 && b[0] == 0 {
        lemma_strip_zeros(b.skip(1));
    }
}

/// The four bytes of a `u32` read back give the same `u32`.
pub proof fn lemma_u32_round_trip(n: u32, rest: Seq<u8>)
    ensures
        parse_u32(u32_bytes(n) + rest) == Some((n, rest)),
{
    let s = u32_bytes(n) + rest;
    assert(s.skip(4) =~= rest);
    assert(be_u32(s) == n as int);
}

/// An SSH string read back gives its payload and leaves what follows.
pub proof fn lemma_string_round_trip(data: Seq<u8>, rest: Seq<u8>)
    requires
        data.len() <= u32::MAX,
    ensures
        parse_string(ssh_string(data) + rest) == Some((data, rest)),
{
    let s = ssh_string(data) + rest;
    assert(s =~= u32_bytes(data.len() as u32) + (data + rest));
    lemma_u32_round_trip(data.len() as u32, data + rest);
    assert((data + rest).take(data.len() as int) =~= data);
    assert((data + rest).skip(data.len() as int) =~= rest);
}

/// What went wrong while reading the wire format.
#[derive(Clone, Copy, Debug, PartialEq, Eq, Structural)]
pub enum WireError {
    /// The input ended before the value did.
    Truncated,
    /// A text field is not valid UTF-8.
    NotUtf8,
}

/// Relies on `String::from_utf8`: it accepts exactly the valid UTF-8 byte
/// strings and gives the characters they encode.
#[verifier::external_body]
fn utf8_text(bytes: Vec<u8>) -> (r: Option<String>)
    ensures
        r is Some <==> valid_utf8(bytes@),
        r matches Some(s) ==> s@ == decode_utf8(bytes@),
{
    String::from_utf8(bytes).ok()
}

/// A read position in a byte buffer.
pub struct Reader<'a> {
    buf: &'a [u8],
    pos: usize,
}

impl<'a> Reader<'a> {
    #[verifier::type_invariant]
    spec fn inv(&self) -> bool {
        self.pos <= self.buf@.len()
    }

    /// The bytes not read yet.
    pub closed spec fn unread(&self) -> Seq<u8> {
        self.buf@.skip(self.pos as int)
    }

    pub fn new(buf: &'a [u8]) -> (r: Self)
        ensures
            r.unread() == buf@,
    {
        let r = Reader { buf, pos: 0 };
        assert(r.unread() =~= buf@);
        r
    }

    /// How many bytes are left.
    pub fn remaining(&self) -> (r: usize)
        ensures
            r == self.unread().len(),
    {
        proof {
            use_type_invariant(self);
        }
        self.buf.len() - self.pos
    }

    pub fn read_u8(&mut self) -> (r: Result<u8, WireError>)
        ensures
            old(self).unread().len() == 0 ==> r == Err::<u8, WireError>(WireError::Truncated),
            old(self).unread().len() > 0 ==> r == Ok::<u8, WireError>(old(self).unread()[0])
                && final(self).unread() == old(self).unread().skip(1),
    {
        proof {
            use_type_invariant(&*self);
        }
        if self.pos < self.buf.len() {
            let b = self.buf[self.pos];
            self.pos = self.pos + 1;
            assert(self.unread() =~= old(self).unread().skip(1));
            Ok(b)
        } else {
            Err(WireError::Truncated)
        }
    }

    /// Reads a big-endian `u32`.
    pub fn read_u32(&mut self) -> (r: Result<u32, WireError>)
        ensures
            match parse_u32(old(self).unread()) {
                Some((n, rest)) => r == Ok::<u32, WireError>(n) && final(self).unread() == rest,
                None => r == Err::<u32, WireError>(WireError::Truncated),
            },
    {
        proof {
            use_type_invariant(&*self);
        }
        if self.buf.len() - self.pos < 4 {
            return Err(WireError::Truncated);
        }
        let p = self.pos;
        let n: u32 = (self.buf[p] as u32) * 0x1000000 + (self.buf[p + 1] as u32) * 0x10000
            + (self.buf[p + 2] as u32) * 0x100 + self.buf[p + 3] as u32;
        self.pos = p + 4;
        assert(self.unread() =~= old(self).unread().skip(4));
        Ok(n)
    }

    /// Reads the next `n` bytes.
    pub fn read_bytes(&mut self, n: usize) -> (r: Result<Vec<u8>, WireError>)
        ensures
            n <= old(self).unread().len() ==> (r matches Ok(v) && v@ == old(self).unread().take(
                n as int,
            ) && final(self).unread() == old(self).unread().skip(n as int)),
            n > old(self).unread().len() ==> r == Err::<Vec<u8>, WireError>(WireError::Truncated),
    {
        proof {
            use_type_invariant(&*self);
        }
        if self.buf.len() - self.pos < n {
            return Err(WireError::Truncated);
        }
        let v = slice_to_vec(slice_subrange(self.buf, self.pos, self.pos + n));
        self.pos = self.pos + n;
        assert(v@ =~= old(self).unread().take(n as int));
        assert(self.unread() =~= old(self).unread().skip(n as int));
        Ok(v)
    }

    /// Reads an SSH string: a big-endian `u32` length, then that many bytes.
    pub fn read_string(&mut self) -> (r: Result<Vec<u8>, WireError>)
        ensures
            match parse_string(old(self).unread()) {
                Some((data, rest)) => r matches Ok(v) && v@ == data && final(self).unread() == rest,
                None => r == Err::<Vec<u8>, WireError>(WireError::Truncated),
            },
    {
        let len = self.read_u32()?;
        self.read_bytes(len as usize)
    }

    /// Reads an SSH string that must hold UTF-8 text.
    pub fn read_string_utf8(&mut self) -> (r: Result<String, WireError>)
        ensures
            match parse_string(old(self).unread()) {
                Some((data, rest)) => if valid_utf8(data) {
                    r matches Ok(s) && s@ == decode_utf8(data) && final(self).unread() == rest
                } else {
                    r == Err::<String, WireError>(WireError::NotUtf8)
                },
                None => r == Err::<String, WireError>(WireError::Truncated),
            },
    {
        let data = self.read_string()?;
        match utf8_text(data) {
            Some(s) => Ok(s),
            None => Err(WireError::NotUtf8),
        }
    }

    /// Reads an mpint as an unsigned magnitude in shortest big-endian form.
    pub fn read_mpint(&mut self) -> (r: Result<Vec<u8>, WireError>)
        ensures
            match parse_mpint(old(self).unread()) {
                Some((mag, rest)) => r matches Ok(v) && v@ == mag && final(self).unread() == rest,
                None => r == Err::<Vec<u8>, WireError>(WireError::Truncated),
            },
            r matches Ok(v) ==> is_minimal(v@),
    {
        let body = self.read_string()?;
        Ok(strip_leading_zeros(&body))
    }
}

/// `b` without its leading zero bytes.
pub fn strip_leading_zeros(b: &[u8]) -> (r: Vec<u8>)
    ensures
        r@ == strip_zeros(b@),
        is_minimal(r@),
{
    let mut i: usize = 0;
    assert(b@.skip(0) =~= b@);
    while i < b.len() && b[i] == 0
        invariant
            i <= b@.len(),
            strip_zeros(b@) == strip_zeros(b@.skip(i as int)),
        decreases b@.len() - i,
    {
        assert(b@.skip(i as int).skip(1) =~= b@.skip(i + 1));
        i = i + 1;
    }
    let r = slice_to_vec(slice_subrange(b, i, b.len()));
    assert(r@ =~= b@.skip(i as int));
    r
}

/// Appends the four big-endian bytes of `n`.
pub fn write_u32(out: &mut Vec<u8>, n: u32)
    ensures
        final(out)@ == old(out)@ + u32_bytes(n),
{
    out.push((n / 0x1000000) as u8);
    out.push(((n / 0x10000) % 0x100) as u8);
    out.push(((n / 0x100) % 0x100) as u8);
    out.push((n % 0x100) as u8);
    assert(final(out)@ =~= old(out)@ + u32_bytes(n));
}

/// Appends `data` as an SSH string.
pub fn write_string(out: &mut Vec<u8>, data: &[u8])
    requires
        data@.len() <= u32::MAX,
    ensures
        final(out)@ == old(out)@ + ssh_string(data@),
{
    write_u32(out, data.len() as u32);
    let ghost mid = out@;
    out.extend_from_slice(data);
    assert(out@ =~= mid + data@);
    assert(final(out)@ =~= old(out)@ + ssh_string(data@));
}

/// Appends the magnitude `mag` as an mpint.
pub fn write_mpint(out: &mut Vec<u8>, mag: &[u8])
    requires
        mag@.len() < u32::MAX,
    ensures
        final(out)@ == old(out)@ + mpint(mag@),
{
    if mag.len() > 0 && mag[0] >= 0x80 {
        let mut body: Vec<u8> = Vec::new();
        body.push(0u8);
        body.extend_from_slice(mag);
        assert(body@ =~= mpint_body(mag@));
        write_string(out, &body);
    } else {
        write_string(out, mag);
    }
}

} // verus!
