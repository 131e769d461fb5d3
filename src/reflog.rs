//! Access to the log of a reference. The log's lines are read through a buffer
//! that a repository lends to one reader at a time.

use vstd::prelude::*;

verus! {

/// The size of the buffer in which the log is read backwards.
pub const REVERSE_BUFFER_LEN: usize = 512;

/// The buffer is lent out already.
#[derive(Debug, Clone, Copy, PartialEq, Eq, Structural)]
pub enum BorrowError {
    BufferInUse,
}

/// Why a log could not be read.
#[derive(Debug, Clone, PartialEq, Eq)]
pub enum Error {
    /// Reading the log file failed.
    Io(crate::non_io_types::IoErrorKind),
    /// The repository's buffer is lent out.
    BorrowRepo(BorrowError),
}

/// The repository's scratch buffer, which it lends to one log reader at a time.
pub struct RepoState {
    buf: Vec<u8>,
}

impl RepoState {
    /// The buffer's contents.
    pub closed spec fn buffer(&self) -> Seq<u8> {
        self.buf@
    }

    /// A state with an empty buffer.
    pub fn new() -> (r: RepoState)
        ensures
            r.buffer() == Seq::<u8>::empty(),
    {
        RepoState { buf: Vec::new() }
    }

    /// The buffer's contents.
    pub fn buffer_bytes(&self) -> (r: &[u8])
        ensures
            r@ == self.buffer(),
    {
        self.buf.as_slice()
    }
}

/// A reference, by its full name.
#[derive(Debug, Clone, PartialEq, Eq)]
pub struct Reference {
    pub name: Vec<u8>,
}

/// The means to read one reference's log: the reference's name, and the
/// repository's buffer, borrowed for as long as the platform lives.
pub struct Platform<'a> {
    name: Vec<u8>,
    buf: &'a mut Vec<u8>,
}

impl<'a> Platform<'a> {
    /// The name of the reference.
    pub closed spec fn reference_name(&self) -> Seq<u8> {
        self.name@
    }

    /// The name of the reference whose log this is.
    pub fn name(&self) -> (r: &[u8])
        ensures
            r@ == self.reference_name(),
    {
        self.name.as_slice()
    }

    /// The borrowed buffer's contents.
    pub closed spec fn buffer(&self) -> Seq<u8> {
        self.buf@
    }

    /// The borrowed buffer.
    pub fn buffer_bytes(&self) -> (r: &[u8])
        ensures
            r@ == self.buffer(),
    {
        self.buf.as_slice()
    }

    /// Makes the buffer ready for reading the log from its end: its first bytes are
    /// kept, and it is cut or filled with zeros to the size of a backward read.
    pub fn prepare_reverse_buffer(&mut self)
        ensures
            final(self).reference_name() == old(self).reference_name(),
            final(self).buffer().len() == REVERSE_BUFFER_LEN,
            old(self).buffer().len() >= REVERSE_BUFFER_LEN ==> final(self).buffer() == old(
                self).buffer().take(REVERSE_BUFFER_LEN as int),
            old(self).buffer().len() < REVERSE_BUFFER_LEN ==> final(self).buffer() == old(
                self).buffer() + Seq::new((REVERSE_BUFFER_LEN - old(self).buffer().len()) as nat, |i: int| 0u8),
    {
        let ghost before = self.buf@;
        if self.buf.len() >= REVERSE_BUFFER_LEN {
            self.buf.truncate(REVERSE_BUFFER_LEN);
            assert(self.buf@ =~= before.take(REVERSE_BUFFER_LEN as int));
        } else {
            while self.buf.len() < REVERSE_BUFFER_LEN
                invariant
                    self.name == old(self).name,
                    before.len() <= self.buf@.len() <= REVERSE_BUFFER_LEN,
                    self.buf@.take(before.len() as int) == before,
                    forall|i: int| before.len() <= i < self.buf@.len() ==> self.buf@[i] == 0u8,
                decreases REVERSE_BUFFER_LEN - self.buf@.len(),
            {
                self.buf.push(0u8);
                assert(self.buf@.take(before.len() as int) =~= before);
            }
            assert(self.buf@ =~= before + Seq::new(
                (REVERSE_BUFFER_LEN - before.len()) as nat,
                |i: int| 0u8,
            ));
        }
    }
}

impl Reference {
    /// A platform for reading this reference's log. It borrows the repository's
    /// buffer, contents unchanged, until it is dropped; while it lives, the borrow
    /// checker refuses any other use of the buffer, so no lent-out buffer is ever met.
    pub fn log<'a>(&self, state: &'a mut RepoState) -> (r: Result<Platform<'a>, BorrowError>)
        ensures
            r matches Ok(p) && p.reference_name() == self.name@ && p.buffer() == old(
                state).buffer(),
    {
        let name = crate::capabilities::copy_range(self.name.as_slice(), 0, self.name.len());
        assert(self.name@.subrange(0, self.name@.len() as int) =~= self.name@);
        Ok(Platform { name, buf: &mut state.buf })
    }
}

} // verus!
