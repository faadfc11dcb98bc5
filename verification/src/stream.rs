//! An in-memory Glk stream over a byte buffer: the stream that Blorb
//! resources are read from.
use vstd::prelude::*;

verus! {

/// Where a position given to `set_position` is counted from.
#[derive(Clone, Copy, Debug, PartialEq, Eq)]
pub enum SeekMode {
    Start,
    Current,
    End,
}

/// A readable stream over bytes held in memory, with a read position.
pub struct GlkStream {
    data: Vec<u8>,
    pos: usize,
}

/// The position that a seek to `target` gives in a stream of `len` bytes:
/// positions before the start or past the end are clamped to them.
pub open spec fn clamp_position(target: int, len: nat) -> nat {
    if target < 0 {
        0
    } else if target > len {
        len
    } else {
        target as nat
    }
}

impl GlkStream {
    /// The bytes of the stream.
    pub closed spec fn bytes(&self) -> Seq<u8> {
        self.data@
    }

    /// The read position.
    pub closed spec fn position(&self) -> nat {
        self.pos as nat
    }

    /// The read position is within the bytes, and positions fit in a Glk
    /// `glsi32`.
    pub open spec fn wf(&self) -> bool {
        &&& self.position() <= self.bytes().len()
        &&& self.bytes().len() < i32::MAX
    }

    /// A stream over `data`, positioned at its start.
    pub fn new(data: Vec<u8>) -> (r: Self)
        requires
            data@.len() < i32::MAX,
        ensures
            r.wf(),
            r.bytes() == data@,
            r.position() == 0,
    {
        GlkStream { data, pos: 0 }
    }

    /// Reads one byte: the byte, or -1 at the end of the stream.
    pub fn get_char(&mut self) -> (r: i32)
        requires
            old(self).wf(),
        ensures
            final(self).wf(),
            final(self).bytes() == old(self).bytes(),
            old(self).position() < old(self).bytes().len() ==> r == old(self).bytes()[old(
                self,
            ).position() as int] as i32 && final(self).position() == old(self).position() + 1,
            old(self).position() >= old(self).bytes().len() ==> r == -1 && final(self).position()
                == old(self).position(),
    {
        if self.pos < self.data.len() {
            let b = self.data[self.pos];
            self.pos = self.pos + 1;
            b as i32
        } else {
            -1
        }
    }

    /// The read position.
    pub fn get_position(&self) -> (r: u32)
        requires
            self.wf(),
        ensures
            r == self.position(),
    {
        self.pos as u32
    }

    /// Moves the read position by `offset` from the start, the current
    /// position or the end, clamped to the stream.
    pub fn set_position(&mut self, mode: SeekMode, offset: i32)
        requires
            old(self).wf(),
        ensures
            final(self).wf(),
            final(self).bytes() == old(self).bytes(),
            final(self).position() == clamp_position(
                match mode {
                    SeekMode::Start => 0,
                    SeekMode::Current => old(self).position() as int,
                    SeekMode::End => old(self).bytes().len() as int,
                } + offset,
                old(self).bytes().len(),
            ),
    {
        let base: i64 = match mode {
            SeekMode::Start => 0,
            SeekMode::Current => self.pos as i64,
            SeekMode::End => self.data.len() as i64,
        };
        let target: i64 = base + offset as i64;
        if target < 0 {
            self.pos = 0;
        } else if target > self.data.len() as i64 {
            self.pos = self.data.len();
        } else {
            self.pos = target as usize;
        }
    }

    /// Reads as many bytes as fit into `buf` and remain in the stream into
    /// the start of `buf`; gives their number.
    pub fn get_buffer(&mut self, buf: &mut Vec<u8>) -> (r: u32)
        requires
            old(self).wf(),
        ensures
            final(self).wf(),
            final(self).bytes() == old(self).bytes(),
            r == if old(buf)@.len() < old(self).bytes().len() - old(self).position() {
                old(buf)@.len() as int
            } else {
                old(self).bytes().len() - old(self).position()
            },
            final(self).position() == old(self).position() + r,
            final(buf)@ == old(self).bytes().subrange(
                old(self).position() as int,
                old(self).position() + r,
            ) + old(buf)@.skip(r as int),
    {
        let remaining = self.data.len() - self.pos;
        let n: usize = if buf.len() < remaining {
            buf.len()
        } else {
            remaining
        };
        let ghost start = self.pos as int;
        let ghost orig = buf@;
        let mut i: usize = 0;
        while i < n
            invariant
                self.wf(),
                n <= buf@.len(),
                n <= self.data@.len() - self.pos,
                self.pos == start,
                i <= n,
                buf@.len() == orig.len(),
                forall|k: int| 0 <= k < i ==> buf@[k] == self.data@[start + k],
                forall|k: int| i <= k < buf@.len() ==> buf@[k] == orig[k],
            decreases n - i,
        {
            buf.set(i, self.data[self.pos + i]);
            i = i + 1;
        }
        self.pos = self.pos + n;
        assert(buf@ =~= self.data@.subrange(start, start + n) + orig.skip(n as int));
        n as u32
    }
}

/// A seek lands on its target when that lies within the stream, on the start
/// when it lies before it, and on the end when it lies past it.
pub proof fn lemma_clamp_position(target: int, len: nat)
    ensures
        0 <= target <= len ==> clamp_position(target, len) == target,
        target < 0 ==> clamp_position(target, len) == 0,
        target > len ==> clamp_position(target, len) == len,
        clamp_position(target, len) <= len,
{
}

} // verus!
