//! Byte arrays that a server can export.
use crate::proto::IoErrorKind;
use vstd::prelude::*;

verus! {

/// A byte array that this server can export, with a read/write API that works
/// on arbitrary offsets.
///
/// Files implement it with positional reads and writes; [`MemBlocks`]
/// implements it over an in-memory array.
pub trait Blocks {
    /// The bytes that the array holds, where `modeled` says that this
    /// describes the array.
    open spec fn contents(&self) -> Seq<u8> {
        Seq::empty()
    }

    /// Whether `contents` describes the array: reads return its bytes, writes
    /// change it as `mem_write` says, and the size is its length. An array
    /// that says nothing of itself is not modeled.
    open spec fn modeled(&self) -> bool {
        false
    }

    /// Whether every operation inside the array's bounds succeeds. An
    /// in-memory array is reliable; a file is not.
    open spec fn reliable(&self) -> bool {
        false
    }

    /// Whether every write so far is durable.
    open spec fn durable(&self) -> bool {
        false
    }

    /// Fills `buf` from offset `off`, reading `buf.len()` bytes.
    fn read_at(&self, buf: &mut [u8], off: u64) -> (r: Result<(), IoErrorKind>)
        ensures
            final(buf)@.len() == old(buf)@.len(),
            self.modeled() && r is Ok ==> mem_read(
                self.contents(),
                off as int,
                old(buf)@.len(),
            ) == Ok::<Seq<u8>, IoErrorKind>(final(buf)@),
            self.modeled() && self.reliable() && mem_read(self.contents(), off as int, old(buf)@.len()) is Ok
                ==> r is Ok,
    ;

    /// Writes all of `buf` at offset `off`.
    fn write_at(&mut self, buf: &[u8], off: u64) -> (r: Result<(), IoErrorKind>)
        ensures
            final(self).modeled() == old(self).modeled(),
            final(self).reliable() == old(self).reliable(),
            old(self).modeled() && r is Ok ==> mem_write(old(self).contents(), off as int, buf@)
                == Ok::<Seq<u8>, IoErrorKind>(final(self).contents()),
            old(self).modeled() && old(self).reliable() && mem_write(old(self).contents(), off as int, buf@) is Ok
                ==> r is Ok,
    ;

    /// The size of the array in bytes.
    fn size(&self) -> (r: Result<u64, IoErrorKind>)
        ensures
            self.modeled() ==> (r matches Ok(n) ==> n == self.contents().len()),
            self.modeled() && self.reliable() ==> r is Ok,
    ;

    /// Makes every write so far durable.
    fn flush(&mut self) -> (r: Result<(), IoErrorKind>)
        ensures
            final(self).modeled() == old(self).modeled(),
            final(self).reliable() == old(self).reliable(),
            old(self).modeled() ==> final(self).contents() == old(self).contents(),
            old(self).modeled() && r is Ok ==> final(self).durable(),
            old(self).modeled() && old(self).reliable() ==> r is Ok,
    ;
}

/// Reading `len` bytes at `off` of an array that holds `contents`: the bytes
/// there, or an invalid input where the range passes the end.
pub open spec fn mem_read(contents: Seq<u8>, off: int, len: nat) -> Result<Seq<u8>, IoErrorKind> {
    if 0 <= off && off + len <= contents.len() {
        Ok(contents.subrange(off, off + len))
    } else {
        Err(IoErrorKind::InvalidInput)
    }
}

/// Writing `data` at `off` of an array that holds `contents`: what it holds
/// afterwards, or an invalid input where the range passes the end.
pub open spec fn mem_write(contents: Seq<u8>, off: int, data: Seq<u8>) -> Result<
    Seq<u8>,
    IoErrorKind,
> {
    if 0 <= off && off + data.len() <= contents.len() {
        Ok(
            contents.subrange(0, off) + data + contents.subrange(
                off + data.len(),
                contents.len() as int,
            ),
        )
    } else {
        Err(IoErrorKind::InvalidInput)
    }
}

/// An in-memory byte array.
#[derive(Debug)]
pub struct MemBlocks {
    data: Vec<u8>,
}

impl View for MemBlocks {
    type V = Seq<u8>;

    closed spec fn view(&self) -> Seq<u8> {
        self.data@
    }
}

impl MemBlocks {
    /// A store that holds `data`.
    pub fn new(data: Vec<u8>) -> (r: MemBlocks)
        ensures
            r@ == data@,
    {
        MemBlocks { data }
    }
}

impl Blocks for MemBlocks {
    open spec fn contents(&self) -> Seq<u8> {
        self@
    }

    open spec fn modeled(&self) -> bool {
        true
    }

    open spec fn reliable(&self) -> bool {
        true
    }

    open spec fn durable(&self) -> bool {
        true
    }

    fn read_at(&self, buf: &mut [u8], off: u64) -> (r: Result<(), IoErrorKind>)
        ensures
            match mem_read(self@, off as int, old(buf)@.len()) {
                Ok(d) => r is Ok && final(buf)@ == d,
                Err(k) => r == Err::<(), IoErrorKind>(k) && final(buf)@ == old(buf)@,
            },
    {
        let size = self.data.len();
        if off > size as u64 || ((size as u64) - off) < buf.len() as u64 {
            return Err(IoErrorKind::InvalidInput);
        }
        let off = off as usize;
        let n = buf.len();
        let mut i: usize = 0;
        while i < n
            invariant
                0 <= i <= n,
                n == buf@.len(),
                n == old(buf)@.len(),
                off + n <= size,
                size == self.data@.len(),
                forall|j: int| 0 <= j < i ==> buf@[j] == self.data@[off + j],
            decreases n - i,
        {
            buf[i] = self.data[off + i];
            i = i + 1;
        }
        assert(buf@ =~= self.data@.subrange(off as int, off + n));
        Ok(())
    }

    fn write_at(&mut self, buf: &[u8], off: u64) -> (r: Result<(), IoErrorKind>)
        ensures
            match mem_write(old(self)@, off as int, buf@) {
                Ok(c) => r is Ok && final(self)@ == c,
                Err(k) => r == Err::<(), IoErrorKind>(k) && final(self)@ == old(self)@,
            },
    {
        let size = self.data.len();
        if off > size as u64 || ((size as u64) - off) < buf.len() as u64 {
            return Err(IoErrorKind::InvalidInput);
        }
        let off = off as usize;
        let n = buf.len();
        let mut i: usize = 0;
        while i < n
            invariant
                0 <= i <= n,
                n == buf@.len(),
                off + n <= size,
                size == self.data@.len(),
                size == old(self).data@.len(),
                forall|j: int| 0 <= j < i ==> self.data@[off + j] == buf@[j],
                forall|j: int|
                    0 <= j < size && !(off <= j < off + i) ==> self.data@[j] == old(self).data@[j],
            decreases n - i,
        {
            self.data[off + i] = buf[i];
            i = i + 1;
        }
        assert(self.data@ =~= old(self).data@.subrange(0, off as int) + buf@ + old(
            self,
        ).data@.subrange(off + n, size as int));
        Ok(())
    }

    fn size(&self) -> (r: Result<u64, IoErrorKind>)
        ensures
            r == Ok::<u64, IoErrorKind>(self@.len() as u64),
    {
        Ok(self.data.len() as u64)
    }

    fn flush(&mut self) -> (r: Result<(), IoErrorKind>)
        ensures
            r is Ok,
            final(self)@ == old(self)@,
    {
        Ok(())
    }
}

/// Reading any range of a store that no one has written yet gives the bytes
/// it was made with.
pub proof fn lemma_fresh_read(initial: Seq<u8>, off: int, len: nat)
    requires
        0 <= off,
        off + len <= initial.len(),
    ensures
        mem_read(initial, off, len) == Ok::<Seq<u8>, IoErrorKind>(initial.subrange(off, off + len)),
{
}

/// After a successful write of `data` at `off`, reading the same range gives
/// `data` back; a flush in between changes nothing.
pub proof fn lemma_write_then_read(contents: Seq<u8>, off: int, data: Seq<u8>)
    requires
        mem_write(contents, off, data) is Ok,
    ensures
        mem_read(mem_write(contents, off, data)->Ok_0, off, data.len()) == Ok::<
            Seq<u8>,
            IoErrorKind,
        >(data),
{
    let c = mem_write(contents, off, data)->Ok_0;
    assert(c.subrange(off, off + data.len()) =~= data);
}

/// A write fails exactly where it would pass the end, and then changes
/// nothing; a write inside the array keeps its size.
pub proof fn lemma_write_keeps_size(contents: Seq<u8>, off: int, data: Seq<u8>)
    ensures
        mem_write(contents, off, data) is Ok <==> (0 <= off && off + data.len() <= contents.len()),
        mem_write(contents, off, data) matches Ok(c) ==> c.len() == contents.len(),
{
}

} // verus!
