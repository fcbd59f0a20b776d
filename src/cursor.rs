use vstd::prelude::*;
use crate::error::GeoError;

verus! {

/// Value of two bytes read in little-endian order.
pub open spec fn le_u16(s: Seq<u8>, at: int) -> int {
    s[at] as int + 256 * s[at + 1] as int
}

/// Value of two bytes read in big-endian order.
pub open spec fn be_u16(s: Seq<u8>, at: int) -> int {
    256 * s[at] as int + s[at + 1] as int
}

/// Value of four bytes read in little-endian order.
pub open spec fn le_u32(s: Seq<u8>, at: int) -> int {
    le_u16(s, at) + 65536 * le_u16(s, at + 2)
}

/// A byte buffer with a read position and a stack of saved positions.
///
/// A value that lives elsewhere in the buffer is read by saving the
/// position, jumping to it, reading, and restoring the position.
pub struct BufReader {
    cursor_stack: Vec<usize>,
    cursor: usize,
    buffer: Vec<u8>,
}

impl BufReader {
    /// The bytes held.
    pub closed spec fn data(&self) -> Seq<u8> {
        self.buffer@
    }

    /// The read position.
    pub closed spec fn pos(&self) -> int {
        self.cursor as int
    }

    /// The saved positions, the most recent last.
    pub closed spec fn saved(&self) -> Seq<usize> {
        self.cursor_stack@
    }

    /// The read position and every saved position lie within the buffer.
    pub open spec fn wf(&self) -> bool {
        &&& self.pos() <= self.data().len()
        &&& forall|i: int| 0 <= i < self.saved().len() ==> self.saved()[i] <= self.data().len()
    }

    /// A reader over `data`, positioned at its start.
    pub fn new(data: Vec<u8>) -> (r: Self)
        ensures
            r.wf(),
            r.data() == data@,
            r.pos() == 0,
            r.saved() == Seq::<usize>::empty(),
    {
        BufReader { cursor_stack: Vec::new(), cursor: 0, buffer: data }
    }

    /// Replaces the buffer by `data` and starts again at its beginning.
    pub fn init(&mut self, data: Vec<u8>)
        ensures
            final(self).wf(),
            final(self).data() == data@,
            final(self).pos() == 0,
            final(self).saved() == Seq::<usize>::empty(),
    {
        self.buffer = data;
        self.cursor = 0;
        self.cursor_stack = Vec::new();
    }

    /// Number of bytes held.
    pub fn len(&self) -> (r: usize)
        ensures
            r == self.data().len(),
    {
        self.buffer.len()
    }

    /// The read position.
    pub fn position(&self) -> (r: usize)
        ensures
            r == self.pos(),
    {
        self.cursor
    }

    /// Moves the read position to `new_cursor`, which must point at a byte
    /// of the buffer.
    pub fn set_cursor(&mut self, new_cursor: usize) -> (r: Result<(), GeoError>)
        requires
            old(self).wf(),
        ensures
            final(self).wf(),
            final(self).data() == old(self).data(),
            final(self).saved() == old(self).saved(),
            r is Ok <==> new_cursor < old(self).data().len(),
            r is Ok ==> final(self).pos() == new_cursor,
            r is Err ==> r == Err::<(), GeoError>(GeoError::UnexpectedEnd) && final(self).pos()
                == old(self).pos(),
    {
        if new_cursor >= self.buffer.len() {
            Err(GeoError::UnexpectedEnd)
        } else {
            self.cursor = new_cursor;
            assert(self.saved() == old(self).saved());
            Ok(())
        }
    }

    /// Pushes the read position onto the stack of saved positions.
    pub fn save_cursor(&mut self)
        requires
            old(self).wf(),
        ensures
            final(self).wf(),
            final(self).data() == old(self).data(),
            final(self).pos() == old(self).pos(),
            final(self).saved() == old(self).saved().push(old(self).pos() as usize),
    {
        self.cursor_stack.push(self.cursor);
        assert(forall|i: int| 0 <= i < old(self).saved().len() ==> self.saved()[i] == old(self).saved()[i]);
    }

    /// Pops the most recently saved position and moves the read position
    /// back to it; fails when no position is saved.
    pub fn restore_cursor(&mut self) -> (r: Result<(), GeoError>)
        requires
            old(self).wf(),
        ensures
            final(self).wf(),
            final(self).data() == old(self).data(),
            r is Ok <==> old(self).saved().len() > 0,
            r is Ok ==> final(self).pos() == old(self).saved().last() && final(self).saved()
                == old(self).saved().drop_last(),
            r is Err ==> r == Err::<(), GeoError>(GeoError::EmptyCursorStack) && final(self).pos()
                == old(self).pos() && final(self).saved() == old(self).saved(),
    {
        match self.cursor_stack.pop() {
            Some(c) => {
                self.cursor = c;
                Ok(())
            },
            None => Err(GeoError::EmptyCursorStack),
        }
    }

    /// Reads the next `n` bytes and advances past them.
    pub fn read(&mut self, n: usize) -> (r: Result<Vec<u8>, GeoError>)
        requires
            old(self).wf(),
        ensures
            final(self).wf(),
            final(self).data() == old(self).data(),
            final(self).saved() == old(self).saved(),
            r is Ok <==> old(self).pos() + n <= old(self).data().len(),
            r matches Ok(v) ==> v@ == old(self).data().subrange(old(self).pos(), old(self).pos() + n)
                && final(self).pos() == old(self).pos() + n,
            r is Err ==> r == Err::<Vec<u8>, GeoError>(GeoError::UnexpectedEnd) && final(self).pos()
                == old(self).pos(),
    {
        if n > self.buffer.len() - self.cursor {
            return Err(GeoError::UnexpectedEnd);
        }
        let mut out: Vec<u8> = Vec::new();
        let mut i: usize = 0;
        while i < n
            invariant
                self.cursor + n <= self.buffer.len(),
                i <= n,
                out@ == self.buffer@.subrange(self.cursor as int, self.cursor + i),
            decreases n - i,
        {
            out.push(self.buffer[self.cursor + i]);
            i += 1;
            proof {
                assert(out@ =~= self.buffer@.subrange(self.cursor as int, self.cursor + i));
            }
        }
        self.cursor = self.cursor + n;
        assert(self.saved() == old(self).saved());
        Ok(out)
    }

    /// Reads `n` bytes at `offset` and leaves the read position and the
    /// saved positions as they were, on success and on failure alike.
    pub fn read_at(&mut self, offset: usize, n: usize) -> (r: Result<Vec<u8>, GeoError>)
        requires
            old(self).wf(),
        ensures
            final(self).wf(),
            final(self).data() == old(self).data(),
            final(self).pos() == old(self).pos(),
            final(self).saved() == old(self).saved(),
            r is Ok <==> offset < old(self).data().len() && offset + n <= old(self).data().len(),
            r matches Ok(v) ==> v@ == old(self).data().subrange(offset as int, offset + n),
            r is Err ==> r == Err::<Vec<u8>, GeoError>(GeoError::UnexpectedEnd),
    {
        self.save_cursor();
        let moved = self.set_cursor(offset);
        let r = match moved {
            Ok(()) => self.read(n),
            Err(e) => Err(e),
        };
        let back = self.restore_cursor();
        proof {
            assert(back is Ok);
            assert(self.saved() =~= old(self).saved());
        }
        r
    }

    /// Renders the next `num` bytes as ` xx` groups of two lowercase hex
    /// digits, without moving the read position.
    pub fn dump(&self, num: usize) -> (r: Vec<u8>)
        requires
            self.wf(),
            self.pos() + num <= self.data().len(),
        ensures
            r@ == hex_groups(self.data().subrange(self.pos(), self.pos() + num)),
    {
        let mut out: Vec<u8> = Vec::new();
        let mut i: usize = 0;
        while i < num
            invariant
                self.cursor + num <= self.buffer.len(),
                i <= num,
                out@ == hex_groups(self.buffer@.subrange(self.cursor as int, self.cursor + i)),
            decreases num - i,
        {
            let b = self.buffer[self.cursor + i];
            out.push(32u8);
            out.push(hex_digit(b / 16));
            out.push(hex_digit(b % 16));
            proof {
                let s = self.buffer@.subrange(self.cursor as int, self.cursor + i + 1);
                assert(s.drop_last() =~= self.buffer@.subrange(self.cursor as int, self.cursor + i));
            }
            i += 1;
        }
        out
    }
}

/// ASCII code of the lowercase hex digit for `d`.
pub open spec fn hex_char(d: int) -> u8 {
    if d < 10 {
        (48 + d) as u8
    } else {
        (87 + d) as u8
    }
}

/// Each byte as a space followed by two lowercase hex digits.
pub open spec fn hex_groups(s: Seq<u8>) -> Seq<u8>
    decreases s.len(),
{
    if s.len() == 0 {
        Seq::empty()
    } else {
        let b = s.last() as int;
        hex_groups(s.drop_last()) + seq![32u8, hex_char(b / 16), hex_char(b % 16)]
    }
}

fn hex_digit(d: u8) -> (r: u8)
    requires
        d < 16,
    ensures
        r == hex_char(d as int),
{
    if d < 10 {
        48 + d
    } else {
        87 + d
    }
}

/// Reads a little-endian 16-bit value.
pub fn read_u16(f: &mut BufReader) -> (r: Result<u16, GeoError>)
    requires
        old(f).wf(),
    ensures
        final(f).wf(),
        final(f).data() == old(f).data(),
        final(f).saved() == old(f).saved(),
        r is Ok <==> old(f).pos() + 2 <= old(f).data().len(),
        r matches Ok(v) ==> v == le_u16(old(f).data(), old(f).pos()) && final(f).pos() == old(f).pos() + 2,
        r is Err ==> r == Err::<u16, GeoError>(GeoError::UnexpectedEnd) && final(f).pos() == old(f).pos(),
{
    let b = f.read(2)?;
    Ok(b[0] as u16 + 256 * b[1] as u16)
}

/// Reads a big-endian 16-bit value, as JPEG markers and lengths are stored.
pub fn read_tag(f: &mut BufReader) -> (r: Result<u16, GeoError>)
    requires
        old(f).wf(),
    ensures
        final(f).wf(),
        final(f).data() == old(f).data(),
        final(f).saved() == old(f).saved(),
        r is Ok <==> old(f).pos() + 2 <= old(f).data().len(),
        r matches Ok(v) ==> v == be_u16(old(f).data(), old(f).pos()) && final(f).pos() == old(f).pos() + 2,
        r is Err ==> r == Err::<u16, GeoError>(GeoError::UnexpectedEnd) && final(f).pos() == old(f).pos(),
{
    let b = f.read(2)?;
    Ok(256 * b[0] as u16 + b[1] as u16)
}

/// Reads a little-endian 32-bit value.
pub fn read_u32(f: &mut BufReader) -> (r: Result<u32, GeoError>)
    requires
        old(f).wf(),
    ensures
        final(f).wf(),
        final(f).data() == old(f).data(),
        final(f).saved() == old(f).saved(),
        r is Ok <==> old(f).pos() + 4 <= old(f).data().len(),
        r matches Ok(v) ==> v == le_u32(old(f).data(), old(f).pos()) && final(f).pos() == old(f).pos() + 4,
        r is Err ==> r == Err::<u32, GeoError>(GeoError::UnexpectedEnd) && final(f).pos() == old(f).pos(),
{
    let b = f.read(4)?;
    Ok(b[0] as u32 + 256 * b[1] as u32 + 65536 * b[2] as u32 + 16777216 * b[3] as u32)
}

} // verus!
