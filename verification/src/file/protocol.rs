//! What goes over the stream around the contents of a file.
//!
//! Ahead of the contents: the length of the file's name as four big-endian
//! bytes, the name, the file's mode as four big-endian bytes and its length as
//! eight. After the contents: a hash of the contents as sixteen big-endian
//! bytes, and one byte that tells whether the sender closes the stream after
//! this file.

use crate::file::FileError;
use crate::protocol::{be32, be64, from_be32, from_be64, lemma_be_round_trip, push_be32, read_be32};
use vstd::prelude::*;

verus! {

/// Size of what stands ahead of the contents, the name aside.
pub const FIXED_HEADER_SIZE: usize = 16;

/// Size of what stands after the contents.
pub const FOOTER_SIZE: usize = 17;

/// Longest name of a file.
pub const MAX_NAME_LENGTH: usize = 4096;

/// What is known of a file before its contents.
pub struct Header {
    /// Name of the file, as bytes.
    pub file_name: Vec<u8>,
    /// Permission bits.
    pub mode: u32,
    /// Length of the contents.
    pub file_length: u64,
}

/// Model of a header.
pub struct HeaderView {
    pub file_name: Seq<u8>,
    pub mode: u32,
    pub file_length: u64,
}

impl View for Header {
    type V = HeaderView;

    open spec fn view(&self) -> HeaderView {
        HeaderView { file_name: self.file_name@, mode: self.mode, file_length: self.file_length }
    }
}

impl HeaderView {
    /// The bytes that stand for the header on the stream.
    pub open spec fn wire(self) -> Seq<u8> {
        be32(self.file_name.len() as u32) + self.file_name + be32(self.mode) + be64(
            self.file_length,
        )
    }

    /// A name short enough to be announced.
    pub open spec fn wf(self) -> bool {
        self.file_name.len() <= 4096
    }
}

/// The length of the name that the first four bytes of a header announce, when
/// it is one that a header may have.
pub open spec fn announced_name_length(prefix: Seq<u8>) -> Option<int> {
    if prefix.len() < 4 || from_be32(prefix.subrange(0, 4)) > 4096 {
        None
    } else {
        Some(from_be32(prefix.subrange(0, 4)))
    }
}

/// The header that `data` stands for: `data` holds an announced name length,
/// and exactly the name, the mode and the file length after it.
pub open spec fn parse_header(data: Seq<u8>) -> Option<HeaderView> {
    match announced_name_length(data) {
        None => None,
        Some(n) => if data.len() != 4 + n + 12 {
            None
        } else {
            Some(
                HeaderView {
                    file_name: data.subrange(4, 4 + n),
                    mode: from_be32(data.subrange(4 + n, 8 + n)) as u32,
                    file_length: from_be64(data.subrange(8 + n, 16 + n)) as u64,
                },
            )
        },
    }
}

impl Header {
    /// The header as it goes on the stream.
    pub fn serialize(&self) -> (r: Vec<u8>)
        requires
            self@.wf(),
        ensures
            r@ == self@.wire(),
            r.len() == self.file_name.len() + 16,
    {
        let mut out: Vec<u8> = Vec::new();
        push_be32(&mut out, self.file_name.len() as u32);
        let mut i: usize = 0;
        while i < self.file_name.len()
            invariant
                i <= self.file_name.len(),
                out@ == be32(self.file_name.len() as u32) + self.file_name@.subrange(0, i as int),
            decreases self.file_name.len() - i,
        {
            out.push(self.file_name[i]);
            i += 1;
            assert(out@ =~= be32(self.file_name.len() as u32) + self.file_name@.subrange(
                0,
                i as int,
            ));
        }
        assert(self.file_name@.subrange(0, i as int) =~= self.file_name@);
        push_be32(&mut out, self.mode);
        push_be32(&mut out, (self.file_length / 0x1_0000_0000) as u32);
        push_be32(&mut out, (self.file_length % 0x1_0000_0000) as u32);
        assert(out@ =~= self@.wire());
        out
    }

    /// Reads, from the first four bytes of a header, how many bytes of name
    /// follow. The rest of the header is that many bytes and twelve more.
    pub fn name_length(prefix: &[u8]) -> (r: Result<usize, FileError>)
        ensures
            match r {
                Ok(n) => announced_name_length(prefix@) == Some(n as int),
                Err(e) => announced_name_length(prefix@) is None && e == FileError::InvalidHeader,
            },
    {
        if prefix.len() < 4 {
            return Err(FileError::InvalidHeader);
        }
        let n: u32 = read_be32(prefix, 0);
        if n as usize > MAX_NAME_LENGTH {
            return Err(FileError::InvalidHeader);
        }
        Ok(n as usize)
    }

    /// Reads a whole header.
    pub fn deserialize(data: &[u8]) -> (r: Result<Header, FileError>)
        ensures
            match r {
                Ok(header) => parse_header(data@) == Some(header@),
                Err(e) => parse_header(data@) is None && e == FileError::InvalidHeader,
            },
    {
        let n: usize = match Header::name_length(data) {
            Ok(n) => n,
            Err(e) => {
                return Err(e);
            },
        };
        if data.len() != 4 + n + 12 {
            return Err(FileError::InvalidHeader);
        }
        let file_name = crate::protocol::to_vec(&data[4..4 + n]);
        let mode: u32 = read_be32(data, 4 + n);
        let hi: u32 = read_be32(data, 8 + n);
        let lo: u32 = read_be32(data, 12 + n);
        proof {
            let whole = data@.subrange(8 + n, 16 + n);
            assert(whole.subrange(0, 4) =~= data@.subrange(8 + n, 12 + n));
            assert(whole.subrange(4, 8) =~= data@.subrange(12 + n, 16 + n));
        }
        Ok(Header { file_name, mode, file_length: (hi as u64) * 0x1_0000_0000 + (lo as u64) })
    }
}

/// What is known of a file after its contents.
#[derive(Clone, Copy, Debug, PartialEq, Eq, Structural)]
pub struct Footer {
    /// Hash of the contents; zero when the sender computes none.
    pub hash: u128,
    /// Whether the sender closes the stream after this file.
    pub stream_end: bool,
}

impl Footer {
    /// The bytes that stand for the footer on the stream.
    pub open spec fn wire(self) -> Seq<u8> {
        be64((self.hash / 0x1_0000_0000_0000_0000) as u64) + be64(
            (self.hash % 0x1_0000_0000_0000_0000) as u64,
        ) + seq![if self.stream_end { 1u8 } else { 0u8 }]
    }

    /// The footer that `data` stands for.
    pub open spec fn parse(data: Seq<u8>) -> Option<Footer> {
        if data.len() != 17 || data[16] > 1 {
            None
        } else {
            Some(
                Footer {
                    hash: (from_be64(data.subrange(0, 8)) * 0x1_0000_0000_0000_0000 + from_be64(
                        data.subrange(8, 16),
                    )) as u128,
                    stream_end: data[16] == 1,
                },
            )
        }
    }

    /// The footer as it goes on the stream.
    pub fn serialize(&self) -> (r: Vec<u8>)
        ensures
            r@ == self.wire(),
            r.len() == FOOTER_SIZE,
    {
        let hi: u64 = (self.hash / 0x1_0000_0000_0000_0000) as u64;
        let lo: u64 = (self.hash % 0x1_0000_0000_0000_0000) as u64;
        let mut out: Vec<u8> = Vec::new();
        push_be32(&mut out, (hi / 0x1_0000_0000) as u32);
        push_be32(&mut out, (hi % 0x1_0000_0000) as u32);
        push_be32(&mut out, (lo / 0x1_0000_0000) as u32);
        push_be32(&mut out, (lo % 0x1_0000_0000) as u32);
        out.push(if self.stream_end { 1 } else { 0 });
        assert(out@ =~= self.wire());
        out
    }

    /// Reads a footer.
    pub fn deserialize(data: &[u8]) -> (r: Result<Footer, FileError>)
        ensures
            match r {
                Ok(footer) => Self::parse(data@) == Some(footer),
                Err(e) => Self::parse(data@) is None && e == FileError::InvalidFooter,
            },
    {
        if data.len() != FOOTER_SIZE || data[16] > 1 {
            return Err(FileError::InvalidFooter);
        }
        let a: u128 = read_be32(data, 0) as u128;
        let b: u128 = read_be32(data, 4) as u128;
        let c: u128 = read_be32(data, 8) as u128;
        let d: u128 = read_be32(data, 12) as u128;
        proof {
            let first = data@.subrange(0, 8);
            let second = data@.subrange(8, 16);
            assert(first.subrange(0, 4) =~= data@.subrange(0, 4));
            assert(first.subrange(4, 8) =~= data@.subrange(4, 8));
            assert(second.subrange(0, 4) =~= data@.subrange(8, 12));
            assert(second.subrange(4, 8) =~= data@.subrange(12, 16));
        }
        Ok(
            Footer {
                hash: (a * 0x1_0000_0000 + b) * 0x1_0000_0000_0000_0000 + (c * 0x1_0000_0000 + d),
                stream_end: data[16] == 1,
            },
        )
    }
}

/// A serialized header reads back as itself, and its first four bytes announce
/// the length of its name.
pub proof fn lemma_file_header_round_trip(header: HeaderView)
    requires
        header.wf(),
    ensures
        header.wire().len() == header.file_name.len() + 16,
        announced_name_length(header.wire()) == Some(header.file_name.len() as int),
        parse_header(header.wire()) == Some(header),
{
    let n = header.file_name.len() as int;
    let w = header.wire();
    lemma_be_round_trip(0, n as u32, header.file_length);
    lemma_be_round_trip(0, header.mode, header.file_length);
    assert(w.subrange(0, 4) =~= be32(n as u32));
    assert(w.subrange(4, 4 + n) =~= header.file_name);
    assert(w.subrange(4 + n, 8 + n) =~= be32(header.mode));
    assert(w.subrange(8 + n, 16 + n) =~= be64(header.file_length));
}

/// A serialized footer reads back as itself.
pub proof fn lemma_file_footer_round_trip(footer: Footer)
    ensures
        footer.wire().len() == 17,
        Footer::parse(footer.wire()) == Some(footer),
{
    let hi = (footer.hash / 0x1_0000_0000_0000_0000) as u64;
    let lo = (footer.hash % 0x1_0000_0000_0000_0000) as u64;
    let w = footer.wire();
    lemma_be_round_trip(0, 0, hi);
    lemma_be_round_trip(0, 0, lo);
    assert(w.subrange(0, 8) =~= be64(hi));
    assert(w.subrange(8, 16) =~= be64(lo));
}

} // verus!
