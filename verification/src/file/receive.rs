//! Accounting of a file under reception: how much to read next, when the file
//! is whole, and whether it is the file that was sent.

use crate::file::FileError;
use vstd::prelude::*;

verus! {

/// How far the reception of a file has come.
#[derive(Clone, Copy, Debug, PartialEq, Eq, Structural)]
pub struct FileProgress {
    /// Length that the sender announced.
    pub file_length: usize,
    /// Bytes still to come.
    pub remaining: usize,
    /// Most bytes read at once.
    pub buffer_size: usize,
}

/// What a read means for the file.
#[derive(Clone, Copy, Debug, PartialEq, Eq, Structural)]
pub enum ReadOutcome {
    /// More is to come.
    More,
    /// The file is whole: what follows in the stream is its footer.
    Complete,
}

impl FileProgress {
    pub open spec fn wf(self) -> bool {
        self.remaining <= self.file_length
    }

    /// Bytes received so far.
    pub open spec fn received(self) -> int {
        self.file_length - self.remaining
    }

    /// Most bytes that the next read may take: what is still to come, within
    /// the buffer.
    pub open spec fn spec_next_read(self) -> int {
        if self.remaining >= self.buffer_size {
            self.buffer_size as int
        } else {
            self.remaining as int
        }
    }

    /// What a read of `nread` bytes means: a read of nothing ends the file,
    /// whole or not; any other read is counted, and completes the file when
    /// nothing is left to come.
    pub open spec fn outcome(self, nread: usize) -> Result<ReadOutcome, FileError> {
        if nread == 0 {
            if self.remaining != 0 {
                Err(FileError::InvalidFileSize(self.file_length, self.received() as usize))
            } else {
                Ok(ReadOutcome::Complete)
            }
        } else if self.remaining == nread {
            Ok(ReadOutcome::Complete)
        } else {
            Ok(ReadOutcome::More)
        }
    }

    /// The reception of a file of `file_length` bytes, before its first byte.
    pub fn new(file_length: usize, buffer_size: usize) -> (r: FileProgress)
        ensures
            r.wf(),
            r == (FileProgress { file_length, remaining: file_length, buffer_size }),
    {
        FileProgress { file_length, remaining: file_length, buffer_size }
    }

    /// Most bytes that the next read may take.
    pub fn next_read(&self) -> (r: usize)
        ensures
            r == self.spec_next_read(),
            r <= self.remaining,
            r <= self.buffer_size,
    {
        if self.remaining >= self.buffer_size {
            self.buffer_size
        } else {
            self.remaining
        }
    }

    /// Counts a read of `nread` bytes.
    pub fn on_read(&mut self, nread: usize) -> (r: Result<ReadOutcome, FileError>)
        requires
            old(self).wf(),
            nread <= old(self).spec_next_read(),
        ensures
            final(self).wf(),
            r == old(self).outcome(nread),
            *final(self) == (FileProgress {
                remaining: (old(self).remaining - nread) as usize,
                ..*old(self)
            }),
    {
        if nread == 0 {
            if self.remaining != 0 {
                let received: usize = self.file_length - self.remaining;
                return Err(FileError::InvalidFileSize(self.file_length, received));
            }
            return Ok(ReadOutcome::Complete);
        }
        self.remaining = self.remaining - nread;
        if self.remaining == 0 {
            Ok(ReadOutcome::Complete)
        } else {
            Ok(ReadOutcome::More)
        }
    }
}

/// What is found of a received file: when hashes are checked, the hash of its
/// contents must be the one that its footer announces.
pub fn check_hash(enabled: bool, computed: u128, announced: u128) -> (r: Result<(), FileError>)
    ensures
        r == if enabled && computed != announced {
            Err::<(), FileError>(FileError::InvalidHash(computed, announced))
        } else {
            Ok::<(), FileError>(())
        },
{
    if enabled && announced != computed {
        return Err(FileError::InvalidHash(computed, announced));
    }
    Ok(())
}

/// A file is complete exactly when as many bytes were counted as were
/// announced, and never before.
pub proof fn lemma_complete_when_whole(progress: FileProgress, nread: usize)
    requires
        progress.wf(),
        0 < nread <= progress.spec_next_read(),
    ensures
        progress.outcome(nread) == Ok::<ReadOutcome, FileError>(ReadOutcome::Complete)
            <==> progress.received() + nread == progress.file_length,
        progress.outcome(nread) is Ok,
{
}

} // verus!
