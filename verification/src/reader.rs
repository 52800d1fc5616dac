//! A cursor over the bytes of a drawing, and the little-endian and string
//! encodings that the format is made of.

use vstd::prelude::*;
use crate::binary64::Binary64;
use crate::error::{Fault, JwwError};
use crate::text::{trim_nuls, trim_trailing_nuls};

verus! {

/// Outcome of reading one item at a position: the item or the failure, and
/// the position at which the cursor is left.
pub struct Step<T> {
    pub value: Result<T, Fault>,
    pub pos: int,
}

/// Reading went well: the item and the position behind it.
pub open spec fn done<A>(a: A, pos: int) -> Step<A> {
    Step { value: Ok(a), pos }
}

/// Reading failed at `pos`.
pub open spec fn fail<A>(f: Fault, pos: int) -> Step<A> {
    Step { value: Err(f), pos }
}

/// One read after another: where `s` went well, `f` goes on from there
/// with the item read; where it failed, the failure stands.
pub open spec fn bind<A, B>(s: Step<A>, f: spec_fn(A, int) -> Step<B>) -> Step<B> {
    match s.value {
        Ok(a) => f(a, s.pos),
        Err(e) => Step { value: Err(e), pos: s.pos },
    }
}

/// The failure of a read that would pass the end of the data.
pub open spec fn eof_bytes() -> Fault {
    Fault::UnexpectedEof("bytes"@)
}

/// The failure of a read whose end does not fit the machine's index type.
pub open spec fn eof_offset() -> Fault {
    Fault::UnexpectedEof("offset"@)
}

/// The failure of a text too long for the machine to decode.
pub open spec fn eof_text() -> Fault {
    Fault::UnexpectedEof("string"@)
}

/// The longest encoded text that is decoded: a sixteenth of the address
/// space, so that the decoder's buffers always fit.
pub open spec fn max_text_len() -> int {
    usize::MAX as int / 16
}

/// Value of two bytes, least significant first.
pub open spec fn le16(b: Seq<u8>) -> u16 {
    (b[0] as int + 0x100 * (b[1] as int)) as u16
}

/// Value of four bytes, least significant first.
pub open spec fn le32(b: Seq<u8>) -> u32 {
    (b[0] as int + 0x100 * (b[1] as int) + 0x1_0000 * (b[2] as int) + 0x100_0000 * (
    b[3] as int)) as u32
}

/// Value of eight bytes, least significant first.
pub open spec fn le64(b: Seq<u8>) -> u64 {
    (le32(b.subrange(0, 4)) as int + 0x1_0000_0000 * (le32(b.subrange(4, 8)) as int)) as u64
}

/// The `n` bytes at `pos`.
pub open spec fn take_at(data: Seq<u8>, pos: int, n: int) -> Step<Seq<u8>> {
    if pos + n > usize::MAX {
        Step { value: Err(eof_offset()), pos }
    } else if pos + n > data.len() {
        Step { value: Err(eof_bytes()), pos }
    } else {
        Step { value: Ok(data.subrange(pos, pos + n)), pos: pos + n }
    }
}

/// Moving forward over `n` bytes.
pub open spec fn skip_at(data: Seq<u8>, pos: int, n: int) -> Step<()> {
    bind(take_at(data, pos, n), |b: Seq<u8>, p: int| done((), p))
}

/// The byte at `pos`.
pub open spec fn u8_at(data: Seq<u8>, pos: int) -> Step<u8> {
    bind(take_at(data, pos, 1), |b: Seq<u8>, p: int| done(b[0], p))
}

/// The 16-bit number at `pos`.
pub open spec fn u16_at(data: Seq<u8>, pos: int) -> Step<u16> {
    bind(take_at(data, pos, 2), |b: Seq<u8>, p: int| done(le16(b), p))
}

/// The 32-bit number at `pos`.
pub open spec fn u32_at(data: Seq<u8>, pos: int) -> Step<u32> {
    bind(take_at(data, pos, 4), |b: Seq<u8>, p: int| done(le32(b), p))
}

/// The binary64 number at `pos`.
pub open spec fn f64_at(data: Seq<u8>, pos: int) -> Step<Binary64> {
    bind(take_at(data, pos, 8), |b: Seq<u8>, p: int| done(Binary64 { bits: le64(b) }, p))
}

/// The length prefix of a text at `pos`: one byte below 255, else a
/// 16-bit number below 65535, else a 32-bit number.
pub open spec fn text_len_at(data: Seq<u8>, pos: int) -> Step<int> {
    bind(u8_at(data, pos), |short: u8, p1: int|
        if short < 0xFF {
            done(short as int, p1)
        } else {
            bind(u16_at(data, p1), |word: u16, p2: int|
                if word < 0xFFFF {
                    done(word as int, p2)
                } else {
                    bind(u32_at(data, p2), |long: u32, p3: int| done(long as int, p3))
                })
        })
}

/// The text that the Shift-JIS decoder of `encoding_rs` makes of a byte
/// string, malformed sequences replaced and a leading byte order mark
/// honoured as the decoder does.
pub uninterp spec fn shift_jis_text(bytes: Seq<u8>) -> Seq<char>;

/// The length-prefixed text at `pos`: the decoded payload without the NUL
/// characters at its end. An empty payload is not decoded. A payload
/// longer than [`max_text_len`] is not decoded either and fails.
pub open spec fn text_at(data: Seq<u8>, pos: int) -> Step<Seq<char>> {
    bind(text_len_at(data, pos), |len: int, p1: int|
        if len == 0 {
            done(Seq::<char>::empty(), p1)
        } else {
            bind(take_at(data, p1, len), |payload: Seq<u8>, p2: int|
                if len > max_text_len() {
                    fail(eof_text(), p2)
                } else {
                    done(trim_trailing_nuls(shift_jis_text(payload)), p2)
                })
        })
}

/// Whether a result and the position reached are what `s` says.
pub open spec fn agrees<T>(r: Result<T, JwwError>, end: int, s: Step<T>) -> bool {
    &&& end == s.pos
    &&& match r {
        Ok(v) => s.value == Ok::<T, Fault>(v),
        Err(e) => s.value == Err::<T, Fault>(e@),
    }
}

/// [`agrees`] for an item that contracts take by its view.
pub open spec fn agrees_view<T: View>(r: Result<T, JwwError>, end: int, s: Step<T::V>) -> bool {
    &&& end == s.pos
    &&& match r {
        Ok(v) => s.value == Ok::<T::V, Fault>(v@),
        Err(e) => s.value == Err::<T::V, Fault>(e@),
    }
}

/// [`agrees`] for a byte string.
pub open spec fn agrees_bytes(r: Result<Vec<u8>, JwwError>, end: int, s: Step<Seq<u8>>) -> bool {
    &&& end == s.pos
    &&& match r {
        Ok(v) => s.value == Ok::<Seq<u8>, Fault>(v@),
        Err(e) => s.value == Err::<Seq<u8>, Fault>(e@),
    }
}

/// [`agrees`] for a text.
pub open spec fn agrees_text(r: Result<String, JwwError>, end: int, s: Step<Seq<char>>) -> bool {
    &&& end == s.pos
    &&& match r {
        Ok(v) => s.value == Ok::<Seq<char>, Fault>(v@),
        Err(e) => s.value == Err::<Seq<char>, Fault>(e@),
    }
}

/// Decodes Shift-JIS bytes with `encoding_rs::SHIFT_JIS.decode`.
///
/// Trusted: the text returned is the one the decoder produces for these
/// bytes, which depends on nothing else. Inputs so long that the decoder's
/// buffer size would not fit the address space are left out.
#[verifier::external_body]
fn decode_shift_jis(bytes: &[u8]) -> (r: String)
    requires
        bytes@.len() <= max_text_len(),
    ensures
        r@ == shift_jis_text(bytes@),
{
    let (decoded, _, _) = encoding_rs::SHIFT_JIS.decode(bytes);
    decoded.into_owned()
}

/// A position in a byte string that only moves forward.
pub struct Reader<'a> {
    data: &'a [u8],
    pos: usize,
}

impl<'a> Reader<'a> {
    #[verifier::type_invariant]
    spec fn within(self) -> bool {
        self.pos <= self.data@.len()
    }

    /// The bytes being read.
    pub closed spec fn bytes(&self) -> Seq<u8> {
        self.data@
    }

    /// How many bytes have been passed.
    pub closed spec fn position(&self) -> int {
        self.pos as int
    }

    pub fn new(data: &'a [u8]) -> (r: Reader<'a>)
        ensures
            r.bytes() == data@,
            r.position() == 0,
    {
        Reader { data, pos: 0 }
    }

    pub fn bytes_read(&self) -> (n: usize)
        ensures
            n == self.position(),
            n <= self.bytes().len(),
    {
        proof {
            use_type_invariant(self);
        }
        self.pos
    }

    /// Checks that `len` more bytes are there and returns the position
    /// after them.
    fn end_of(&self, len: usize) -> (r: Result<usize, JwwError>)
        ensures
            match r {
                Ok(end) => take_at(self.bytes(), self.position(), len as int).value is Ok
                    && end == self.position() + len && end <= self.bytes().len(),
                Err(e) => take_at(self.bytes(), self.position(), len as int).value == Err::<
                    Seq<u8>,
                    Fault,
                >(e@),
            },
    {
        proof {
            use_type_invariant(self);
        }
        if len > usize::MAX - self.pos {
            return Err(JwwError::UnexpectedEof("offset"));
        }
        let end = self.pos + len;
        if end > self.data.len() {
            return Err(JwwError::UnexpectedEof("bytes"));
        }
        Ok(end)
    }

    pub fn skip(&mut self, len: usize) -> (r: Result<(), JwwError>)
        ensures
            final(self).bytes() == old(self).bytes(),
            agrees(r, final(self).position(), skip_at(old(self).bytes(), old(self).position(), len as int)),
    {
        let end = self.end_of(len)?;
        self.pos = end;
        Ok(())
    }

    pub fn read_u8(&mut self) -> (r: Result<u8, JwwError>)
        ensures
            final(self).bytes() == old(self).bytes(),
            agrees(r, final(self).position(), u8_at(old(self).bytes(), old(self).position())),
    {
        let end = self.end_of(1)?;
        let v = self.data[self.pos];
        self.pos = end;
        Ok(v)
    }

    pub fn read_u16(&mut self) -> (r: Result<u16, JwwError>)
        ensures
            final(self).bytes() == old(self).bytes(),
            agrees(r, final(self).position(), u16_at(old(self).bytes(), old(self).position())),
    {
        let end = self.end_of(2)?;
        let p = self.pos;
        let v: u16 = (self.data[p] as u16) + 0x100 * (self.data[p + 1] as u16);
        self.pos = end;
        Ok(v)
    }

    pub fn read_u32(&mut self) -> (r: Result<u32, JwwError>)
        ensures
            final(self).bytes() == old(self).bytes(),
            agrees(r, final(self).position(), u32_at(old(self).bytes(), old(self).position())),
    {
        let end = self.end_of(4)?;
        let v = self.word_at(self.pos);
        self.pos = end;
        Ok(v)
    }

    /// The four bytes at `p` as a number.
    fn word_at(&self, p: usize) -> (v: u32)
        requires
            p + 4 <= self.bytes().len(),
        ensures
            v == le32(self.bytes().subrange(p as int, p + 4)),
    {
        (self.data[p] as u32) + 0x100 * (self.data[p + 1] as u32) + 0x1_0000 * (self.data[p
            + 2] as u32) + 0x100_0000 * (self.data[p + 3] as u32)
    }

    /// Reads a binary64 number: eight bytes, least significant first.
    pub fn read_f64(&mut self) -> (r: Result<Binary64, JwwError>)
        ensures
            final(self).bytes() == old(self).bytes(),
            agrees(r, final(self).position(), f64_at(old(self).bytes(), old(self).position())),
    {
        let end = self.end_of(8)?;
        let p = self.pos;
        let low = self.word_at(p);
        let high = self.word_at(p + 4);
        proof {
            let b = self.bytes().subrange(p as int, p + 8);
            assert(b.subrange(0, 4) =~= self.bytes().subrange(p as int, p + 4));
            assert(b.subrange(4, 8) =~= self.bytes().subrange(p + 4, p + 8));
        }
        let bits: u64 = (low as u64) + 0x1_0000_0000 * (high as u64);
        self.pos = end;
        Ok(Binary64 { bits })
    }

    pub fn read_bytes(&mut self, len: usize) -> (r: Result<Vec<u8>, JwwError>)
        ensures
            final(self).bytes() == old(self).bytes(),
            agrees_bytes(
                r,
                final(self).position(),
                take_at(old(self).bytes(), old(self).position(), len as int),
            ),
    {
        let end = self.end_of(len)?;
        let start = self.pos;
        let mut buf: Vec<u8> = Vec::new();
        let mut i: usize = start;
        while i < end
            invariant
                start <= i <= end <= self.data@.len(),
                buf@ =~= self.data@.subrange(start as int, i as int),
            decreases end - i,
        {
            buf.push(self.data[i]);
            i += 1;
        }
        self.pos = end;
        Ok(buf)
    }

    /// Reads a length-prefixed Shift-JIS text.
    pub fn read_cstring(&mut self) -> (r: Result<String, JwwError>)
        ensures
            final(self).bytes() == old(self).bytes(),
            agrees_text(r, final(self).position(), text_at(old(self).bytes(), old(self).position())),
    {
        let len_byte = self.read_u8()?;
        let len: usize = if len_byte < 0xFF {
            len_byte as usize
        } else {
            let word_len = self.read_u16()?;
            if word_len < 0xFFFF {
                word_len as usize
            } else {
                self.read_u32()? as usize
            }
        };
        if len == 0 {
            return Ok(String::new());
        }
        let bytes = self.read_bytes(len)?;
        if len > usize::MAX / 16 {
            return Err(JwwError::UnexpectedEof("string"));
        }
        let decoded = decode_shift_jis(bytes.as_slice());
        Ok(trim_nuls(decoded.as_str()))
    }
}

} // verus!
