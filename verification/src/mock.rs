//! In-memory NOR flash for host testing and simulation.

use vstd::prelude::*;

verus! {

broadcast use vstd::array::group_array_axioms;

/// Errors of the in-memory flash.
#[derive(Debug, Clone, Copy, PartialEq, Eq, Structural)]
pub enum MockFlashError {
    OutOfBounds,
    NotAligned,
}

/// Simulated in-memory NOR flash of `CAPACITY` bytes with `ERASE_SIZE`-byte sectors.
/// Erased bytes read as `0xFF`; a write can only clear bits.
pub struct MockFlash<const CAPACITY: usize, const ERASE_SIZE: usize> {
    data: [u8; CAPACITY],
}

/// The device after programming `bytes` at `offset`: each byte is ANDed in.
pub open spec fn programmed(contents: Seq<u8>, offset: int, bytes: Seq<u8>) -> Seq<u8> {
    Seq::new(
        contents.len(),
        |i: int|
            if offset <= i < offset + bytes.len() {
                contents[i] & bytes[i - offset]
            } else {
                contents[i]
            },
    )
}

/// The device after erasing `from..to`: those bytes become `0xFF`.
pub open spec fn erased(contents: Seq<u8>, from: int, to: int) -> Seq<u8> {
    Seq::new(contents.len(), |i: int| if from <= i < to { 0xFFu8 } else { contents[i] })
}

impl<const CAPACITY: usize, const ERASE_SIZE: usize> MockFlash<CAPACITY, ERASE_SIZE> {
    /// The device contents.
    pub closed spec fn contents(&self) -> Seq<u8> {
        self.data@
    }

    /// The device always holds exactly `CAPACITY` bytes.
    pub proof fn lemma_contents_len(&self)
        ensures
            self.contents().len() == CAPACITY,
    {
    }

    /// Creates a fully erased device.
    pub fn new() -> (r: Self)
        ensures
            r.contents() == Seq::new(CAPACITY as nat, |i: int| 0xFFu8),
    {
        let data = [0xFFu8; CAPACITY];
        assert(data@ =~= Seq::new(CAPACITY as nat, |i: int| 0xFFu8));
        MockFlash { data }
    }

    /// The device contents.
    pub fn data(&self) -> (r: &[u8; CAPACITY])
        ensures
            r@ == self.contents(),
    {
        &self.data
    }

    /// Direct mutable access to the device contents.
    pub fn data_mut(&mut self) -> (r: &mut [u8; CAPACITY])
        ensures
            r@ == old(self).contents(),
            final(self).contents() == final(r)@,
    {
        &mut self.data
    }

    /// The device size in bytes.
    pub fn capacity(&self) -> (r: usize)
        ensures
            r == CAPACITY,
    {
        CAPACITY
    }

    /// Copies `bytes.len()` bytes starting at `offset` into `bytes`.
    pub fn read(&self, offset: u32, bytes: &mut [u8]) -> (r: Result<(), MockFlashError>)
        requires
            offset + old(bytes)@.len() <= usize::MAX,
        ensures
            offset + old(bytes)@.len() > CAPACITY ==> r == Err::<(), MockFlashError>(
                MockFlashError::OutOfBounds,
            ) && final(bytes)@ == old(bytes)@,
            offset + old(bytes)@.len() <= CAPACITY ==> r is Ok && final(bytes)@
                == self.contents().subrange(offset as int, offset + old(bytes)@.len()),
    {
        let start = offset as usize;
        let len = bytes.len();
        let cap = CAPACITY;
        if start + len > cap {
            return Err(MockFlashError::OutOfBounds);
        }
        let mut i: usize = 0;
        while i < len
            invariant
                0 <= i <= len,
                len == bytes@.len(),
                start + len <= cap,
                cap == self.data@.len(),
                forall|k: int| 0 <= k < i ==> bytes@[k] == self.contents()[start + k],
            decreases len - i,
        {
            bytes[i] = self.data[start + i];
            i += 1;
        }
        assert(bytes@ =~= self.contents().subrange(start as int, start + len));
        Ok(())
    }

    /// Programs `bytes` at `offset`, ANDing each byte into the device (bits can only be
    /// cleared).
    pub fn write(&mut self, offset: u32, bytes: &[u8]) -> (r: Result<(), MockFlashError>)
        requires
            offset + bytes@.len() <= usize::MAX,
        ensures
            offset + bytes@.len() > CAPACITY ==> r == Err::<(), MockFlashError>(
                MockFlashError::OutOfBounds,
            ) && final(self).contents() == old(self).contents(),
            offset + bytes@.len() <= CAPACITY ==> r is Ok && final(self).contents() == programmed(
                old(self).contents(),
                offset as int,
                bytes@,
            ),
    {
        let start = offset as usize;
        let len = bytes.len();
        let cap = CAPACITY;
        if start + len > cap {
            return Err(MockFlashError::OutOfBounds);
        }
        let mut i: usize = 0;
        while i < len
            invariant
                0 <= i <= len,
                len == bytes@.len(),
                start + len <= cap,
                cap == self.data@.len(),
                cap == old(self).data@.len(),
                forall|k: int|
                    0 <= k < cap ==> #[trigger] self.data@[k] == (if start <= k < start + i {
                        old(self).data@[k] & bytes@[k - start]
                    } else {
                        old(self).data@[k]
                    }),
            decreases len - i,
        {
            let b = self.data[start + i] & bytes[i];
            self.data[start + i] = b;
            i += 1;
        }
        assert(self.contents() =~= programmed(old(self).contents(), offset as int, bytes@));
        Ok(())
    }

    /// Erases `from..to` back to `0xFF`; both ends must be sector aligned.
    pub fn erase(&mut self, from: u32, to: u32) -> (r: Result<(), MockFlashError>)
        requires
            to <= CAPACITY && from <= to ==> ERASE_SIZE > 0,
        ensures
            (to > CAPACITY || from > to) ==> r == Err::<(), MockFlashError>(
                MockFlashError::OutOfBounds,
            ) && final(self).contents() == old(self).contents(),
            (to <= CAPACITY && from <= to && (from as int % ERASE_SIZE as int != 0 || to as int % ERASE_SIZE as int
                != 0)) ==> r == Err::<(), MockFlashError>(MockFlashError::NotAligned)
                && final(self).contents() == old(self).contents(),
            (to <= CAPACITY && from <= to && from as int % ERASE_SIZE as int == 0 && to as int % ERASE_SIZE as int
                == 0) ==> r is Ok && final(self).contents() == erased(
                old(self).contents(),
                from as int,
                to as int,
            ),
    {
        let from = from as usize;
        let to = to as usize;
        let cap = CAPACITY;
        if to > cap || from > to {
            return Err(MockFlashError::OutOfBounds);
        }
        if from % ERASE_SIZE != 0 || to % ERASE_SIZE != 0 {
            return Err(MockFlashError::NotAligned);
        }
        let mut i: usize = from;
        while i < to
            invariant
                from <= i <= to <= cap,
                cap == self.data@.len(),
                cap == old(self).data@.len(),
                forall|k: int|
                    0 <= k < cap ==> #[trigger] self.data@[k] == (if from <= k < i {
                        0xFFu8
                    } else {
                        old(self).data@[k]
                    }),
            decreases to - i,
        {
            self.data[i] = 0xFF;
            i += 1;
        }
        assert(self.contents() =~= erased(old(self).contents(), from as int, to as int));
        Ok(())
    }
}

/// Reading back a freshly erased and programmed range gives the programmed bytes.
pub proof fn lemma_program_erased_reads_back(contents: Seq<u8>, offset: int, bytes: Seq<u8>)
    requires
        0 <= offset,
        offset + bytes.len() <= contents.len(),
        forall|i: int| offset <= i < offset + bytes.len() ==> contents[i] == 0xFFu8,
    ensures
        programmed(contents, offset, bytes).subrange(offset, offset + bytes.len()) == bytes,
{
    let p = programmed(contents, offset, bytes);
    assert forall|i: int| 0 <= i < bytes.len() implies p.subrange(offset, offset + bytes.len())[i]
        == bytes[i] by {
        let b = bytes[i];
        assert(0xFFu8 & b == b) by (bit_vector);
    }
    assert(p.subrange(offset, offset + bytes.len()) =~= bytes);
}

} // verus!
