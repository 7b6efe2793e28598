//! A byte position on a sector device, kept as a sector and an offset in it.
use vstd::prelude::*;

verus! {

/// Bytes in one sector.
pub const SECTOR_SIZE: usize = 0x200;

/// Errors of cursor I/O.
#[derive(Clone, Copy, Debug, PartialEq, Eq, Structural)]
pub enum DiskCursorIoError {
    UnexpectedEof,
    WriteZero,
}

impl DiskCursorIoError {
    /// Cursor I/O is never interrupted.
    pub fn is_interrupted(&self) -> (r: bool)
        ensures
            !r,
    {
        false
    }

    /// The error for input that ended early.
    pub fn new_unexpected_eof_error() -> (r: Self)
        ensures
            r == DiskCursorIoError::UnexpectedEof,
    {
        DiskCursorIoError::UnexpectedEof
    }

    /// The error for a write that took nothing.
    pub fn new_write_zero_error() -> (r: Self)
        ensures
            r == DiskCursorIoError::WriteZero,
    {
        DiskCursorIoError::WriteZero
    }
}

/// A position on a sector device.
pub struct DiskCursor {
    sector: u64,
    offset: usize,
}

impl DiskCursor {
    /// The byte position.
    pub closed spec fn pos(&self) -> int {
        self.sector * SECTOR_SIZE + self.offset
    }

    /// The offset lies inside its sector and the position fits a `usize`.
    pub closed spec fn wf(&self) -> bool {
        self.offset < SECTOR_SIZE && self.pos() <= usize::MAX
    }

    /// The sector the position lies in.
    pub closed spec fn spec_sector(&self) -> int {
        self.sector as int
    }

    /// The offset of the position inside its sector.
    pub closed spec fn spec_offset(&self) -> int {
        self.offset as int
    }

    /// A cursor at byte 0.
    pub fn new() -> (r: DiskCursor)
        ensures
            r.wf(),
            r.pos() == 0,
    {
        DiskCursor { sector: 0, offset: 0 }
    }

    /// The sector the position lies in.
    pub fn sector(&self) -> (r: u64)
        ensures
            r == self.spec_sector(),
    {
        self.sector
    }

    /// The offset of the position inside its sector.
    pub fn offset(&self) -> (r: usize)
        ensures
            r == self.spec_offset(),
    {
        self.offset
    }

    /// The byte position.
    pub fn get_position(&self) -> (r: usize)
        requires
            self.wf(),
        ensures
            r == self.pos(),
    {
        (self.sector as usize) * SECTOR_SIZE + self.offset
    }

    /// Moves to byte `position`.
    pub fn set_position(&mut self, position: usize)
        ensures
            final(self).wf(),
            final(self).pos() == position,
            final(self).spec_sector() == position as int / SECTOR_SIZE as int,
            final(self).spec_offset() == position as int % SECTOR_SIZE as int,
    {
        self.sector = (position / SECTOR_SIZE) as u64;
        self.offset = position % SECTOR_SIZE;
    }

    /// Moves `amount` bytes forward.
    pub fn move_cursor(&mut self, amount: usize)
        requires
            old(self).wf(),
            old(self).pos() + amount <= usize::MAX,
        ensures
            final(self).wf(),
            final(self).pos() == old(self).pos() + amount,
    {
        let p = self.get_position();
        self.set_position(p + amount);
    }

    /// How many bytes one transfer of a `len`-byte buffer moves: a whole
    /// sector where the cursor is at a sector's start and the buffer holds
    /// one, else up to the end of the current sector.
    pub fn chunk_len(&self, len: usize) -> (r: usize)
        requires
            self.wf(),
        ensures
            r == if self.spec_offset() == 0 && len >= SECTOR_SIZE {
                SECTOR_SIZE as int
            } else if self.spec_offset() + len < SECTOR_SIZE {
                len as int
            } else {
                SECTOR_SIZE - self.spec_offset()
            },
    {
        if self.offset != 0 || len < SECTOR_SIZE {
            let end = if len < SECTOR_SIZE - self.offset {
                self.offset + len
            } else {
                SECTOR_SIZE
            };
            end - self.offset
        } else {
            SECTOR_SIZE
        }
    }
}

} // verus!
