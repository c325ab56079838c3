use crate::encoding::{
    find_terminator, lemma_terminator_pos, terminated_len, terminated_text, terminator_pos,
    EncodingTypes, MAX_TEXT_LEN,
};
use crate::error::DecodeError;
use crate::synchsafe::{
    be_value, convert_signed, convert_unsigned, lemma_be_value_bound, lemma_be_value_u32,
    lemma_synchsafe_value_28_bits, synchsafe_value,
};
use vstd::arithmetic::power2::lemma2_to64;
use vstd::prelude::*;

verus! {

/// A read position over an owned byte buffer. Every read is bounds-checked:
/// one that would pass the end fails with `UnexpectedEof` and leaves the
/// cursor where it was.
pub struct Bytes {
    buf: Vec<u8>,
    index: usize,
}

impl Bytes {
    #[verifier::type_invariant]
    spec fn inv(self) -> bool {
        self.index <= self.buf@.len()
    }

    /// The whole buffer.
    pub closed spec fn data(self) -> Seq<u8> {
        self.buf@
    }

    /// The read position.
    pub closed spec fn pos(self) -> nat {
        self.index as nat
    }

    /// The bytes not read yet.
    pub open spec fn rest(self) -> Seq<u8> {
        self.data().subrange(self.pos() as int, self.data().len() as int)
    }

    /// `self` is `before` moved forward by `n` bytes.
    pub open spec fn moved(self, before: Bytes, n: nat) -> bool {
        &&& self.data() == before.data()
        &&& self.pos() == before.pos() + n
        &&& n <= before.rest().len()
        &&& self.rest() == before.rest().skip(n as int)
    }

    /// Two moves in a row are one move by their sum.
    pub broadcast proof fn lemma_moved_twice(a: Bytes, b: Bytes, c: Bytes, n1: nat, n2: nat)
        requires
            #[trigger] b.moved(a, n1),
            #[trigger] c.moved(b, n2),
        ensures
            c.moved(a, n1 + n2),
    {
        assert(c.rest() =~= a.rest().skip((n1 + n2) as int));
    }

    proof fn lemma_moved(self, before: Bytes, n: nat)
        requires
            before.pos() <= before.data().len(),
            n <= before.rest().len(),
            self.data() == before.data(),
            self.pos() == before.pos() + n,
        ensures
            self.moved(before, n),
    {
        assert(self.rest() =~= before.rest().skip(n as int));
    }

    /// A cursor at the start of a copy of `buf`.
    pub fn from_slice(buf: &[u8]) -> (r: Bytes)
        ensures
            r.data() == buf@,
            r.pos() == 0,
            r.rest() == buf@,
    {
        let r = Bytes { buf: vstd::slice::slice_to_vec(buf), index: 0 };
        assert(r.rest() =~= buf@);
        r
    }

    /// A cursor at the start of `buf`.
    pub fn from_vec(buf: Vec<u8>) -> (r: Bytes)
        ensures
            r.data() == buf@,
            r.pos() == 0,
            r.rest() == buf@,
    {
        let r = Bytes { buf, index: 0 };
        assert(r.rest() =~= r.data());
        r
    }

    /// The whole buffer, read or not.
    pub fn get_buf(&self) -> (r: &Vec<u8>)
        ensures
            r@ == self.data(),
    {
        &self.buf
    }

    /// The read position.
    pub fn get_index(&self) -> (r: usize)
        ensures
            r == self.pos(),
            r <= self.data().len(),
    {
        proof {
            use_type_invariant(self);
        }
        self.index
    }

    /// Moves the read position to `index`.
    pub fn set_index(&mut self, index: usize)
        requires
            index <= old(self).data().len(),
        ensures
            final(self).data() == old(self).data(),
            final(self).pos() == index,
    {
        self.index = index;
    }

    /// Cuts the buffer to its first `cap` bytes; a read position past the new
    /// end moves back to it.
    pub fn set_cap(&mut self, cap: usize)
        requires
            cap <= old(self).data().len(),
        ensures
            final(self).data() == old(self).data().take(cap as int),
            final(self).pos() == if old(self).pos() > cap {
                cap as nat
            } else {
                old(self).pos()
            },
    {
        proof {
            use_type_invariant(&*self);
        }
        let index = if self.index > cap {
            cap
        } else {
            self.index
        };
        let head = vstd::slice::slice_subrange(self.buf.as_slice(), 0, cap);
        let buf = vstd::slice::slice_to_vec(head);
        assert(buf@ =~= self.buf@.take(cap as int));
        *self = Bytes { buf, index };
    }

    /// Drops the first `offset` bytes of the buffer; the read position keeps
    /// pointing at the same byte, or at the new start if that byte was dropped.
    pub fn set_offset(&mut self, offset: usize)
        requires
            offset <= old(self).data().len(),
        ensures
            final(self).data() == old(self).data().skip(offset as int),
            final(self).pos() == if old(self).pos() < offset {
                0
            } else {
                (old(self).pos() - offset) as nat
            },
    {
        proof {
            use_type_invariant(&*self);
        }
        let index = if self.index < offset {
            0
        } else {
            self.index - offset
        };
        let tail = vstd::slice::slice_subrange(self.buf.as_slice(), offset, self.buf.len());
        let buf = vstd::slice::slice_to_vec(tail);
        assert(buf@ =~= self.buf@.skip(offset as int));
        *self = Bytes { buf, index };
    }

    /// Number of bytes not read yet.
    pub fn get_readable_bytes(&self) -> (r: usize)
        ensures
            r == self.rest().len(),
    {
        proof {
            use_type_invariant(self);
        }
        self.buf.len() - self.index
    }

    /// Whether any byte is left to read.
    pub fn has_readable_bytes(&self) -> (r: bool)
        ensures
            r == (self.rest().len() > 0),
    {
        proof {
            use_type_invariant(self);
        }
        self.index < self.buf.len()
    }

    /// Skips `n` bytes.
    pub fn advance(&mut self, n: usize) -> (r: Result<(), DecodeError>)
        ensures
            match r {
                Ok(_) => final(self).moved(*old(self), n as nat),
                Err(e) => e == DecodeError::UnexpectedEof && old(self).rest().len() < n
                    && *final(self) == *old(self),
            },
    {
        proof {
            use_type_invariant(&*self);
        }
        if self.buf.len() - self.index < n {
            return Err(DecodeError::UnexpectedEof);
        }
        let ghost before = *self;
        self.index = self.index + n;
        proof {
            self.lemma_moved(before, n as nat);
        }
        Ok(())
    }

    /// Copies out the next `n` bytes.
    pub fn read_slice(&mut self, n: usize) -> (r: Result<Vec<u8>, DecodeError>)
        ensures
            match r {
                Ok(v) => final(self).moved(*old(self), n as nat) && v@ == old(self).rest().take(
                    n as int,
                ),
                Err(e) => e == DecodeError::UnexpectedEof && old(self).rest().len() < n
                    && *final(self) == *old(self),
            },
    {
        proof {
            use_type_invariant(&*self);
        }
        if self.buf.len() - self.index < n {
            return Err(DecodeError::UnexpectedEof);
        }
        let ghost before = *self;
        let window = vstd::slice::slice_subrange(self.buf.as_slice(), self.index, self.index + n);
        let v = vstd::slice::slice_to_vec(window);
        assert(v@ =~= before.rest().take(n as int));
        self.index = self.index + n;
        proof {
            self.lemma_moved(before, n as nat);
        }
        Ok(v)
    }

    /// Copies out every byte not read yet.
    pub fn read_to_end(&mut self) -> (r: Vec<u8>)
        ensures
            final(self).moved(*old(self), old(self).rest().len()),
            r@ == old(self).rest(),
    {
        let n = self.get_readable_bytes();
        match self.read_slice(n) {
            Ok(v) => {
                assert(old(self).rest().take(n as int) =~= old(self).rest());
                v
            },
            Err(_) => Vec::new(),
        }
    }

    /// Reads one byte.
    pub fn read_byte(&mut self) -> (r: Result<u8, DecodeError>)
        ensures
            match r {
                Ok(v) => final(self).moved(*old(self), 1) && v == old(self).rest()[0],
                Err(e) => e == DecodeError::UnexpectedEof && old(self).rest().len() < 1
                    && *final(self) == *old(self),
            },
    {
        proof {
            use_type_invariant(&*self);
        }
        if self.index >= self.buf.len() {
            return Err(DecodeError::UnexpectedEof);
        }
        let ghost before = *self;
        let v = self.buf[self.index];
        self.index = self.index + 1;
        proof {
            self.lemma_moved(before, 1);
        }
        Ok(v)
    }

    /// Reads a two-byte big-endian integer.
    pub fn read_u16(&mut self) -> (r: Result<u16, DecodeError>)
        ensures
            match r {
                Ok(v) => final(self).moved(*old(self), 2) && v == be_value(
                    old(self).rest().take(2),
                ),
                Err(e) => e == DecodeError::UnexpectedEof && old(self).rest().len() < 2
                    && *final(self) == *old(self),
            },
    {
        let bytes = self.read_slice(2)?;
        proof {
            lemma_be_value_bound(bytes@);
            lemma2_to64();
        }
        Ok(convert_unsigned(bytes.as_slice()) as u16)
    }

    /// Reads a four-byte big-endian integer, eight bits per byte.
    pub fn read_u32(&mut self) -> (r: Result<u32, DecodeError>)
        ensures
            match r {
                Ok(v) => final(self).moved(*old(self), 4) && v == be_value(
                    old(self).rest().take(4),
                ),
                Err(e) => e == DecodeError::UnexpectedEof && old(self).rest().len() < 4
                    && *final(self) == *old(self),
            },
    {
        let bytes = self.read_slice(4)?;
        proof {
            lemma_be_value_u32(bytes@);
        }
        Ok(convert_unsigned(bytes.as_slice()) as u32)
    }

    /// Reads a four-byte synchsafe integer: seven bits per byte, the top bit
    /// of each byte ignored.
    pub fn read_synchsafe_u32(&mut self) -> (r: Result<u32, DecodeError>)
        ensures
            match r {
                Ok(v) => final(self).moved(*old(self), 4) && v == synchsafe_value(
                    old(self).rest().take(4),
                ),
                Err(e) => e == DecodeError::UnexpectedEof && old(self).rest().len() < 4
                    && *final(self) == *old(self),
            },
    {
        let bytes = self.read_slice(4)?;
        proof {
            lemma_synchsafe_value_28_bits(bytes@);
        }
        Ok(convert_signed(bytes.as_slice()) as u32)
    }

    /// Position, counted from the read position, of the first zero byte among
    /// the next `limit` bytes; `limit` (or what is left, if less) when none.
    pub fn find_null_u8_until(&self, limit: usize) -> (r: usize)
        ensures
            r == terminator_pos(self.rest().take(vstd::math::min(limit as int, self.rest().len() as int)), false),
    {
        self.find_null_until(limit, false)
    }

    /// Position, counted from the read position, of the first zero two-byte
    /// unit on a unit boundary among the next `limit` bytes; `limit` (or what
    /// is left, if less) when none.
    pub fn find_null_u16_until(&self, limit: usize) -> (r: usize)
        ensures
            r == terminator_pos(self.rest().take(vstd::math::min(limit as int, self.rest().len() as int)), true),
    {
        self.find_null_until(limit, true)
    }

    fn find_null_until(&self, limit: usize, wide: bool) -> (r: usize)
        ensures
            r == terminator_pos(self.rest().take(vstd::math::min(limit as int, self.rest().len() as int)), wide),
    {
        proof {
            use_type_invariant(self);
        }
        let left = self.buf.len() - self.index;
        let end = if limit < left {
            limit
        } else {
            left
        };
        let window = vstd::slice::slice_subrange(self.buf.as_slice(), self.index, self.index + end);
        assert(window@ =~= self.rest().take(vstd::math::min(limit as int, self.rest().len() as int)));
        find_terminator(window, wide)
    }

    /// Reads a null-terminated string of unknown length: the text before the
    /// terminator is decoded, and the cursor moves past the terminator (to the
    /// end when there is none).
    pub fn get_encoded_string(&mut self, encoding: &EncodingTypes) -> (r: String)
        requires
            old(self).rest().len() <= MAX_TEXT_LEN,
        ensures
            r@ == terminated_text(*encoding, old(self).rest()),
            final(self).moved(*old(self), terminated_len(old(self).rest(), encoding.is_wide())),
    {
        proof {
            use_type_invariant(&*self);
            lemma_terminator_pos(self.rest(), encoding.is_wide());
        }
        let ghost before = *self;
        let wide = encoding.wide();
        let width: usize = if wide {
            2
        } else {
            1
        };
        let left = self.buf.len() - self.index;
        let window = vstd::slice::slice_subrange(self.buf.as_slice(), self.index, self.buf.len());
        assert(window@ =~= before.rest());
        let pos = find_terminator(window, wide);
        let text = vstd::slice::slice_subrange(window, 0, pos);
        let result = encoding.decode(text);
        let used = if pos < left {
            pos + width
        } else {
            left
        };
        self.index = self.index + used;
        proof {
            self.lemma_moved(before, used as nat);
        }
        result
    }

    /// Reads a field of `size` bytes that holds a null-terminated string: the
    /// text before the first terminator inside the field is decoded, and the
    /// cursor moves past the whole field.
    pub fn get_sized_string(&mut self, encoding: &EncodingTypes, size: usize) -> (r: Result<
        String,
        DecodeError,
    >)
        requires
            size <= MAX_TEXT_LEN,
        ensures
            match r {
                Ok(s) => final(self).moved(*old(self), size as nat) && s@ == terminated_text(
                    *encoding,
                    old(self).rest().take(size as int),
                ),
                Err(e) => e == DecodeError::UnexpectedEof && old(self).rest().len() < size
                    && *final(self) == *old(self),
            },
    {
        let field = self.read_slice(size)?;
        proof {
            lemma_terminator_pos(field@, encoding.is_wide());
        }
        let pos = find_terminator(field.as_slice(), encoding.wide());
        let text = vstd::slice::slice_subrange(field.as_slice(), 0, pos);
        Ok(encoding.decode(text))
    }

    /// Reads a fixed-width Latin-1 field of `size` bytes, its text ending at
    /// the first zero byte.
    pub fn get_latin1_string(&mut self, size: usize) -> (r: Result<String, DecodeError>)
        requires
            size <= MAX_TEXT_LEN,
        ensures
            match r {
                Ok(s) => final(self).moved(*old(self), size as nat) && s@ == terminated_text(
                    EncodingTypes::Latin1,
                    old(self).rest().take(size as int),
                ),
                Err(e) => e == DecodeError::UnexpectedEof && old(self).rest().len() < size
                    && *final(self) == *old(self),
            },
    {
        self.get_sized_string(&EncodingTypes::Latin1, size)
    }

    /// Reads an encoding selector byte and then the null-terminated string
    /// that follows it in that encoding.
    pub fn get_string(&mut self) -> (r: Result<String, DecodeError>)
        requires
            old(self).rest().len() <= MAX_TEXT_LEN,
        ensures
            old(self).rest().len() == 0 ==> r == Err::<String, DecodeError>(
                DecodeError::UnexpectedEof,
            ) && *final(self) == *old(self),
            old(self).rest().len() > 0 ==> match crate::encoding::encoding_of(old(self).rest()[0]) {
                None => r == Err::<String, DecodeError>(DecodeError::UnknownEncoding)
                    && final(self).moved(*old(self), 1),
                Some(enc) => r matches Ok(s) && s@ == terminated_text(enc, old(self).rest().skip(1))
                    && final(self).moved(
                    *old(self),
                    1 + terminated_len(old(self).rest().skip(1), enc.is_wide()),
                ),
            },
    {
        let ghost before = *self;
        let selector = self.read_byte()?;
        let ghost middle = *self;
        match EncodingTypes::from_byte(selector) {
            None => Err(DecodeError::UnknownEncoding),
            Some(enc) => {
                let s = self.get_encoded_string(&enc);
                proof {
                    use_type_invariant(&*self);
                    self.lemma_moved(before, 1 + terminated_len(before.rest().skip(1), enc.is_wide()));
                }
                Ok(s)
            },
        }
    }
}

} // verus!
