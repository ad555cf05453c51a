//! A cursor over bytes in memory, from which the decoders read.

use crate::endian::{
    be_bytes_i32, be_bytes_i32s, be_bytes_u32, be_bytes_u32s, i16_at, i32_at,
    lemma_i32_bytes_round_trip, lemma_u32_bytes_round_trip, take_i16, take_i32, take_u32, take_u8,
    u32_at,
};
use crate::error::{ErrorKind, NeuroformatsError};
use vstd::prelude::*;
use vstd::slice::slice_subrange;

verus! {

/// What a decoder makes of bytes from an offset on: the value and the offset
/// behind it, or the kind of the error and the offset at which the reader is
/// left.
pub enum Parse<T> {
    Done { value: T, next: int },
    Fail { kind: ErrorKind, at: int },
}

/// One byte at `pos`.
pub open spec fn parse_u8(bytes: Seq<u8>, pos: int) -> Parse<u8> {
    if pos + 1 <= bytes.len() {
        Parse::Done { value: bytes[pos], next: pos + 1 }
    } else {
        Parse::Fail { kind: ErrorKind::Io, at: bytes.len() as int }
    }
}

/// A big-endian `i16` at `pos`.
pub open spec fn parse_i16(bytes: Seq<u8>, pos: int) -> Parse<i16> {
    if pos + 2 <= bytes.len() {
        Parse::Done { value: i16_at(bytes, pos) as i16, next: pos + 2 }
    } else {
        Parse::Fail { kind: ErrorKind::Io, at: bytes.len() as int }
    }
}

/// A big-endian `i32` at `pos`.
pub open spec fn parse_i32(bytes: Seq<u8>, pos: int) -> Parse<i32> {
    if pos + 4 <= bytes.len() {
        Parse::Done { value: i32_at(bytes, pos) as i32, next: pos + 4 }
    } else {
        Parse::Fail { kind: ErrorKind::Io, at: bytes.len() as int }
    }
}

/// A big-endian `u32` at `pos`.
pub open spec fn parse_u32(bytes: Seq<u8>, pos: int) -> Parse<u32> {
    if pos + 4 <= bytes.len() {
        Parse::Done { value: u32_at(bytes, pos) as u32, next: pos + 4 }
    } else {
        Parse::Fail { kind: ErrorKind::Io, at: bytes.len() as int }
    }
}

/// The `n` bytes from `pos` on.
pub open spec fn u8s_at(bytes: Seq<u8>, pos: int, n: int) -> Seq<u8> {
    Seq::new(n as nat, |i: int| bytes[pos + i])
}

/// The `n` big-endian `i16` from `pos` on.
pub open spec fn i16s_at(bytes: Seq<u8>, pos: int, n: int) -> Seq<i16> {
    Seq::new(n as nat, |i: int| i16_at(bytes, pos + 2 * i) as i16)
}

/// The `n` big-endian `i32` from `pos` on.
pub open spec fn i32s_at(bytes: Seq<u8>, pos: int, n: int) -> Seq<i32> {
    Seq::new(n as nat, |i: int| i32_at(bytes, pos + 4 * i) as i32)
}

/// The `n` big-endian `u32` from `pos` on.
pub open spec fn u32s_at(bytes: Seq<u8>, pos: int, n: int) -> Seq<u32> {
    Seq::new(n as nat, |i: int| u32_at(bytes, pos + 4 * i) as u32)
}

/// `n` bytes from `pos` on; none where `n` is not positive.
pub open spec fn parse_u8s(bytes: Seq<u8>, pos: int, n: int) -> Parse<Seq<u8>> {
    if n <= 0 {
        Parse::Done { value: Seq::empty(), next: pos }
    } else if pos + n <= bytes.len() {
        Parse::Done { value: u8s_at(bytes, pos, n), next: pos + n }
    } else {
        Parse::Fail { kind: ErrorKind::Io, at: bytes.len() as int }
    }
}

/// `n` big-endian `i16` from `pos` on; none where `n` is not positive.
pub open spec fn parse_i16s(bytes: Seq<u8>, pos: int, n: int) -> Parse<Seq<i16>> {
    if n <= 0 {
        Parse::Done { value: Seq::empty(), next: pos }
    } else if pos + 2 * n <= bytes.len() {
        Parse::Done { value: i16s_at(bytes, pos, n), next: pos + 2 * n }
    } else {
        Parse::Fail { kind: ErrorKind::Io, at: bytes.len() as int }
    }
}

/// `n` big-endian `i32` from `pos` on; none where `n` is not positive.
pub open spec fn parse_i32s(bytes: Seq<u8>, pos: int, n: int) -> Parse<Seq<i32>> {
    if n <= 0 {
        Parse::Done { value: Seq::empty(), next: pos }
    } else if pos + 4 * n <= bytes.len() {
        Parse::Done { value: i32s_at(bytes, pos, n), next: pos + 4 * n }
    } else {
        Parse::Fail { kind: ErrorKind::Io, at: bytes.len() as int }
    }
}

/// `n` big-endian `u32` from `pos` on; none where `n` is not positive.
pub open spec fn parse_u32s(bytes: Seq<u8>, pos: int, n: int) -> Parse<Seq<u32>> {
    if n <= 0 {
        Parse::Done { value: Seq::empty(), next: pos }
    } else if pos + 4 * n <= bytes.len() {
        Parse::Done { value: u32s_at(bytes, pos, n), next: pos + 4 * n }
    } else {
        Parse::Fail { kind: ErrorKind::Io, at: bytes.len() as int }
    }
}

impl<T> Parse<T> {
    /// The value, or the kind of the error, without the offsets.
    pub open spec fn outcome(self) -> Result<T, ErrorKind> {
        match self {
            Parse::Done { value, next } => Ok(value),
            Parse::Fail { kind, at } => Err(kind),
        }
    }
}

/// That `r` is what `s` says: the value whose view `s` holds, or an error of
/// the kind that `s` holds.
pub open spec fn agrees<T: View>(
    r: Result<T, NeuroformatsError>,
    s: Result<T::V, ErrorKind>,
) -> bool {
    match s {
        Ok(value) => r is Ok && r->Ok_0@ == value,
        Err(kind) => r is Err && r->Err_0.kind() == kind,
    }
}

/// The bytes written for a sequence of 32-bit patterns spell that sequence
/// again, wherever in a sequence of bytes they stand.
pub proof fn lemma_u32s_round_trip(values: Seq<u32>, bytes: Seq<u8>, pos: int)
    requires
        0 <= pos,
        pos + 4 * values.len() <= bytes.len(),
        bytes.subrange(pos, pos + 4 * values.len()) == be_bytes_u32s(values),
    ensures
        u32s_at(bytes, pos, values.len() as int) == values,
{
    let written = be_bytes_u32s(values);
    assert forall|i: int| 0 <= i < values.len() implies u32_at(bytes, pos + 4 * i)
        == values[i] by {
        let word = be_bytes_u32(values[i] as int);
        assert forall|j: int| 0 <= j < 4 implies bytes[pos + 4 * i + j] == word[j] by {
            assert(bytes[pos + 4 * i + j] == written[4 * i + j]);
            assert((4 * i + j) / 4 == i);
            assert((4 * i + j) % 4 == j);
        }
        assert(bytes.subrange(pos + 4 * i, pos + 4 * i + 4) =~= word);
        lemma_u32_bytes_round_trip(values[i] as int, bytes, pos + 4 * i);
    }
    assert(u32s_at(bytes, pos, values.len() as int) =~= values);
}

/// The bytes written for a sequence of signed 32-bit numbers spell that
/// sequence again, wherever in a sequence of bytes they stand.
pub proof fn lemma_i32s_round_trip(values: Seq<i32>, bytes: Seq<u8>, pos: int)
    requires
        0 <= pos,
        pos + 4 * values.len() <= bytes.len(),
        bytes.subrange(pos, pos + 4 * values.len()) == be_bytes_i32s(values),
    ensures
        i32s_at(bytes, pos, values.len() as int) == values,
{
    let written = be_bytes_i32s(values);
    assert forall|i: int| 0 <= i < values.len() implies i32_at(bytes, pos + 4 * i)
        == values[i] by {
        let word = be_bytes_i32(values[i] as int);
        assert forall|j: int| 0 <= j < 4 implies bytes[pos + 4 * i + j] == word[j] by {
            assert(bytes[pos + 4 * i + j] == written[4 * i + j]);
            assert((4 * i + j) / 4 == i);
            assert((4 * i + j) % 4 == j);
        }
        assert(bytes.subrange(pos + 4 * i, pos + 4 * i + 4) =~= word);
        lemma_i32_bytes_round_trip(values[i] as int, bytes, pos + 4 * i);
    }
    assert(i32s_at(bytes, pos, values.len() as int) =~= values);
}

/// As many as `count`, as far as a `usize` can count: none for a count that
/// is not positive, and the largest `usize` for a count beyond it.
pub fn clamp_count(count: i64) -> (n: usize)
    ensures
        count <= 0 ==> n == 0,
        0 < count <= usize::MAX ==> n == count,
        count > usize::MAX ==> n == usize::MAX,
{
    if count <= 0 {
        0
    } else if count as u64 > usize::MAX as u64 {
        usize::MAX
    } else {
        count as usize
    }
}

/// Bytes and a position in them. Reading moves the position forward; a read
/// that needs more bytes than are left fails and leaves the reader at the end.
pub struct ByteReader {
    data: Vec<u8>,
    pos: usize,
}

impl ByteReader {
    #[verifier::type_invariant]
    spec fn within(&self) -> bool {
        self.pos <= self.data@.len()
    }

    /// All the bytes, read or not.
    pub closed spec fn contents(&self) -> Seq<u8> {
        self.data@
    }

    /// How many bytes have been read.
    pub closed spec fn offset(&self) -> int {
        self.pos as int
    }

    /// That a read which began at `before`, ended at `self` and returned `r`
    /// went as `p` says: the bytes are as they were, and either `r` holds the
    /// value of `p` and the reader stands behind it, or `r` holds an error of
    /// the kind of `p` and the reader stands where `p` says.
    pub open spec fn went<T: View>(
        &self,
        before: &ByteReader,
        r: Result<T, NeuroformatsError>,
        p: Parse<T::V>,
    ) -> bool {
        &&& self.contents() == before.contents()
        &&& match p {
            Parse::Done { value, next } => r is Ok && r->Ok_0@ == value && self.offset() == next,
            Parse::Fail { kind, at } => r is Err && r->Err_0.kind() == kind && self.offset() == at,
        }
    }

    /// A reader at the start of `data`.
    pub fn new(data: Vec<u8>) -> (r: ByteReader)
        ensures
            r.contents() == data@,
            r.offset() == 0,
    {
        ByteReader { data, pos: 0 }
    }

    /// How many bytes have been read.
    pub fn position(&self) -> (p: usize)
        ensures
            p == self.offset(),
            p <= self.contents().len() <= usize::MAX,
    {
        proof {
            use_type_invariant(self);
        }
        let _len = self.data.len();
        self.pos
    }

    /// How many bytes are left to read.
    pub fn remaining(&self) -> (n: usize)
        ensures
            n == self.contents().len() - self.offset(),
    {
        proof {
            use_type_invariant(self);
        }
        self.data.len() - self.pos
    }

    /// Reads one byte.
    pub fn read_u8(&mut self) -> (r: Result<u8, NeuroformatsError>)
        ensures
            final(self).went(old(self), r, parse_u8(old(self).contents(), old(self).offset())),
            0 <= old(self).offset() <= final(self).offset() <= old(self).contents().len(),
    {
        proof {
            use_type_invariant(&*self);
        }
        let rest = slice_subrange(self.data.as_slice(), self.pos, self.data.len());
        match take_u8(rest) {
            Ok(v) => {
                self.pos = self.pos + 1;
                Ok(v)
            },
            Err(e) => {
                self.pos = self.data.len();
                Err(NeuroformatsError::Io(e))
            },
        }
    }

    /// Reads a big-endian `i16`.
    pub fn read_i16(&mut self) -> (r: Result<i16, NeuroformatsError>)
        ensures
            final(self).went(old(self), r, parse_i16(old(self).contents(), old(self).offset())),
            0 <= old(self).offset() <= final(self).offset() <= old(self).contents().len(),
    {
        proof {
            use_type_invariant(&*self);
        }
        let rest = slice_subrange(self.data.as_slice(), self.pos, self.data.len());
        match take_i16(rest) {
            Ok(v) => {
                self.pos = self.pos + 2;
                Ok(v)
            },
            Err(e) => {
                self.pos = self.data.len();
                Err(NeuroformatsError::Io(e))
            },
        }
    }

    /// Reads a big-endian `i32`.
    pub fn read_i32(&mut self) -> (r: Result<i32, NeuroformatsError>)
        ensures
            final(self).went(old(self), r, parse_i32(old(self).contents(), old(self).offset())),
            0 <= old(self).offset() <= final(self).offset() <= old(self).contents().len(),
    {
        proof {
            use_type_invariant(&*self);
        }
        let rest = slice_subrange(self.data.as_slice(), self.pos, self.data.len());
        match take_i32(rest) {
            Ok(v) => {
                self.pos = self.pos + 4;
                Ok(v)
            },
            Err(e) => {
                self.pos = self.data.len();
                Err(NeuroformatsError::Io(e))
            },
        }
    }

    /// Reads a big-endian `u32`. A 32-bit float is read with this, as its bit
    /// pattern.
    pub fn read_u32(&mut self) -> (r: Result<u32, NeuroformatsError>)
        ensures
            final(self).went(old(self), r, parse_u32(old(self).contents(), old(self).offset())),
            0 <= old(self).offset() <= final(self).offset() <= old(self).contents().len(),
    {
        proof {
            use_type_invariant(&*self);
        }
        let rest = slice_subrange(self.data.as_slice(), self.pos, self.data.len());
        match take_u32(rest) {
            Ok(v) => {
                self.pos = self.pos + 4;
                Ok(v)
            },
            Err(e) => {
                self.pos = self.data.len();
                Err(NeuroformatsError::Io(e))
            },
        }
    }

    /// Goes back to the start.
    pub fn rewind(&mut self)
        ensures
            final(self).contents() == old(self).contents(),
            final(self).offset() == 0,
    {
        self.pos = 0;
    }

    /// Reads `n` bytes.
    pub fn read_u8s(&mut self, n: usize) -> (r: Result<Vec<u8>, NeuroformatsError>)
        ensures
            final(self).went(
                old(self),
                r,
                parse_u8s(old(self).contents(), old(self).offset(), n as int),
            ),
    {
        let ghost bytes = self.contents();
        let ghost start = self.offset();
        let _ = self.position();
        let mut out: Vec<u8> = Vec::new();
        let mut i: usize = 0;
        while i < n
            invariant
                bytes == old(self).contents(),
                start == old(self).offset(),
                self.contents() == bytes,
                0 <= start,
                i <= n,
                self.offset() == start + i,
                self.offset() <= bytes.len(),
                out@.len() == i,
                forall|k: int| 0 <= k < i ==> out@[k] == bytes[start + k],
            decreases n - i,
        {
            let v = self.read_u8()?;
            out.push(v);
            i = i + 1;
        }
        assert(n == 0 ==> out@ =~= Seq::empty());
        assert(n > 0 ==> out@ =~= u8s_at(bytes, start, n as int));
        Ok(out)
    }

    /// Reads `n` big-endian `i16`.
    pub fn read_i16s(&mut self, n: usize) -> (r: Result<Vec<i16>, NeuroformatsError>)
        ensures
            final(self).went(
                old(self),
                r,
                parse_i16s(old(self).contents(), old(self).offset(), n as int),
            ),
    {
        let ghost bytes = self.contents();
        let ghost start = self.offset();
        let _ = self.position();
        let mut out: Vec<i16> = Vec::new();
        let mut i: usize = 0;
        while i < n
            invariant
                bytes == old(self).contents(),
                start == old(self).offset(),
                self.contents() == bytes,
                0 <= start,
                i <= n,
                self.offset() == start + 2 * i,
                self.offset() <= bytes.len(),
                out@.len() == i,
                forall|k: int| 0 <= k < i ==> out@[k] == i16_at(bytes, start + 2 * k) as i16,
            decreases n - i,
        {
            let v = self.read_i16()?;
            out.push(v);
            i = i + 1;
        }
        assert(n == 0 ==> out@ =~= Seq::empty());
        assert(n > 0 ==> out@ =~= i16s_at(bytes, start, n as int));
        Ok(out)
    }

    /// Reads `n` big-endian `i32`.
    pub fn read_i32s(&mut self, n: usize) -> (r: Result<Vec<i32>, NeuroformatsError>)
        ensures
            final(self).went(
                old(self),
                r,
                parse_i32s(old(self).contents(), old(self).offset(), n as int),
            ),
    {
        let ghost bytes = self.contents();
        let ghost start = self.offset();
        let _ = self.position();
        let mut out: Vec<i32> = Vec::new();
        let mut i: usize = 0;
        while i < n
            invariant
                bytes == old(self).contents(),
                start == old(self).offset(),
                self.contents() == bytes,
                0 <= start,
                i <= n,
                self.offset() == start + 4 * i,
                self.offset() <= bytes.len(),
                out@.len() == i,
                forall|k: int| 0 <= k < i ==> out@[k] == i32_at(bytes, start + 4 * k) as i32,
            decreases n - i,
        {
            let v = self.read_i32()?;
            out.push(v);
            i = i + 1;
        }
        assert(n == 0 ==> out@ =~= Seq::empty());
        assert(n > 0 ==> out@ =~= i32s_at(bytes, start, n as int));
        Ok(out)
    }

    /// Reads `n` big-endian `u32`.
    pub fn read_u32s(&mut self, n: usize) -> (r: Result<Vec<u32>, NeuroformatsError>)
        ensures
            final(self).went(
                old(self),
                r,
                parse_u32s(old(self).contents(), old(self).offset(), n as int),
            ),
    {
        let ghost bytes = self.contents();
        let ghost start = self.offset();
        let _ = self.position();
        let mut out: Vec<u32> = Vec::new();
        let mut i: usize = 0;
        while i < n
            invariant
                bytes == old(self).contents(),
                start == old(self).offset(),
                self.contents() == bytes,
                0 <= start,
                i <= n,
                self.offset() == start + 4 * i,
                self.offset() <= bytes.len(),
                out@.len() == i,
                forall|k: int| 0 <= k < i ==> out@[k] == u32_at(bytes, start + 4 * k) as u32,
            decreases n - i,
        {
            let v = self.read_u32()?;
            out.push(v);
            i = i + 1;
        }
        assert(n == 0 ==> out@ =~= Seq::empty());
        assert(n > 0 ==> out@ =~= u32s_at(bytes, start, n as int));
        Ok(out)
    }

    /// Reads all the bytes that are left.
    pub fn read_to_end(&mut self) -> (rest: Vec<u8>)
        ensures
            final(self).contents() == old(self).contents(),
            final(self).offset() == old(self).contents().len(),
            rest@ == old(self).contents().subrange(
                old(self).offset(),
                old(self).contents().len() as int,
            ),
    {
        proof {
            use_type_invariant(&*self);
        }
        let rest = vstd::slice::slice_to_vec(
            slice_subrange(self.data.as_slice(), self.pos, self.data.len()),
        );
        self.pos = self.data.len();
        rest
    }
}

} // verus!
