//! The rules of the sealed-file storage device: how a file id names its
//! sealed file, which handle the cache gives back, and how a write past the
//! end of a sealed file is padded, as sealed files cannot seek past their
//! end.
use crate::file_table::FileRef;
use std::collections::BTreeMap;
use vstd::prelude::*;

verus! {

broadcast use vstd::std_specs::btree::group_btree_axioms;

/// The largest run of zeros written at once while padding.
pub const PAD_CHUNK: usize = 4096;

/// The decimal digits of `n`, as ASCII bytes, most significant first.
pub open spec fn decimal(n: nat) -> Seq<u8>
    decreases n,
{
    if n < 10 {
        seq![(48 + n) as u8]
    } else {
        decimal(n / 10) + seq![(48 + n % 10) as u8]
    }
}

/// The name of the sealed file of `file_id`: its decimal digits, with a
/// NUL after them where `nul` holds (the form that opening uses).
pub open spec fn spec_file_name(file_id: nat, nul: bool) -> Seq<u8> {
    if nul {
        decimal(file_id) + seq![0u8]
    } else {
        decimal(file_id)
    }
}

/// The name of the sealed file of `file_id`; `nul` adds the NUL that
/// opening an existing file uses.
pub fn sealed_file_name(file_id: usize, nul: bool) -> (r: Vec<u8>)
    ensures
        r@ == spec_file_name(file_id as nat, nul),
{
    let mut rev: Vec<u8> = Vec::new();
    let mut n: usize = file_id;
    // digits from the least significant on
    while n >= 10
        invariant
            decimal(file_id as nat) == decimal(n as nat) + rev@.reverse(),
        decreases n,
    {
        let d = (n % 10) as u8;
        let ghost before = rev@;
        rev.push(48 + d);
        proof {
            assert(decimal(n as nat) == decimal((n / 10) as nat) + seq![(48 + n % 10) as u8]);
            assert(rev@.reverse() =~= seq![(48 + n % 10) as u8] + before.reverse());
        }
        n = n / 10;
    }
    let mut out: Vec<u8> = Vec::new();
    out.push(48 + n as u8);
    assert(out@ =~= decimal(n as nat));
    let mut i: usize = rev.len();
    while i > 0
        invariant
            i <= rev@.len(),
            decimal(file_id as nat) == decimal(n as nat) + rev@.reverse(),
            out@ == decimal(n as nat) + rev@.reverse().take((rev@.len() - i) as int),
        decreases i,
    {
        i = i - 1;
        out.push(rev[i]);
        assert(out@ =~= decimal(n as nat) + rev@.reverse().take((rev@.len() - i) as int));
    }
    assert(rev@.reverse().take(rev@.len() as int) =~= rev@.reverse());
    if nul {
        out.push(0u8);
    }
    out
}

/// The storage device's record of open sealed files: the directory that
/// holds them, and the handle that each file id was opened as.
pub struct SgxStorage {
    path: String,
    file_cache: BTreeMap<usize, FileRef>,
}

impl SgxStorage {
    /// The cached handles, by file id.
    pub closed spec fn cache(&self) -> Map<usize, FileRef> {
        self.file_cache@
    }

    pub closed spec fn dir(&self) -> Seq<char> {
        self.path@
    }

    /// A device over the directory `path`, with nothing cached.
    pub fn new(path: String) -> (r: SgxStorage)
        ensures
            r.cache() == Map::<usize, FileRef>::empty(),
            r.dir() == path@,
    {
        SgxStorage { path, file_cache: BTreeMap::new() }
    }

    /// The directory that holds the sealed files.
    pub fn get_path(&self) -> (r: &str)
        ensures
            r@ == self.dir(),
    {
        self.path.as_str()
    }

    /// The handle that `file_id` was opened as, where one is cached; on a
    /// miss the caller opens the file and records it with `remember`.
    pub fn get(&self, file_id: usize) -> (r: Option<FileRef>)
        ensures
            self.cache().contains_key(file_id) ==> r == Some(self.cache()[file_id]),
            !self.cache().contains_key(file_id) ==> r is None,
    {
        match self.file_cache.get(&file_id) {
            Some(f) => Some(*f),
            None => None,
        }
    }

    /// Records that `file_id` is open as `file`.
    pub fn remember(&mut self, file_id: usize, file: FileRef)
        ensures
            final(self).cache() == old(self).cache().insert(file_id, file),
            final(self).dir() == old(self).dir(),
    {
        self.file_cache.insert(file_id, file);
    }

    /// Drops the cached handle of a removed file.
    pub fn remove(&mut self, file_id: usize)
        ensures
            final(self).cache() == old(self).cache().remove(file_id),
            final(self).dir() == old(self).dir(),
    {
        self.file_cache.remove(&file_id);
    }
}

/// What a read or write of `buf_len` bytes returns without touching the
/// file: 0 for an empty buffer; `None` where the file must be used.
pub fn empty_io(buf_len: usize) -> (r: Option<usize>)
    ensures
        buf_len == 0 ==> r == Some(0usize),
        buf_len != 0 ==> r is None,
{
    if buf_len == 0 {
        Some(0)
    } else {
        None
    }
}

/// How many zero bytes go in front of a write at `offset` into a file of
/// `file_size` bytes.
pub fn padding_len(file_size: usize, offset: usize) -> (r: usize)
    ensures
        r == spec_padding(file_size as int, offset as int),
{
    if file_size < offset {
        offset - file_size
    } else {
        0
    }
}

pub open spec fn spec_padding(file_size: int, offset: int) -> int {
    if file_size < offset {
        offset - file_size
    } else {
        0
    }
}

/// The next run of zeros to write while `rest_len` remain.
pub fn pad_chunk_len(rest_len: usize) -> (r: usize)
    ensures
        r == if rest_len < PAD_CHUNK { rest_len } else { PAD_CHUNK },
{
    if rest_len < PAD_CHUNK {
        rest_len
    } else {
        PAD_CHUNK
    }
}

/// A sealed stream's contents after writing `data` at position `pos`,
/// which lies within the stream.
pub open spec fn stream_write(content: Seq<u8>, pos: int, data: Seq<u8>) -> Seq<u8> {
    if pos + data.len() <= content.len() {
        content.take(pos) + data + content.skip(pos + data.len())
    } else {
        content.take(pos) + data
    }
}

/// `n` zero bytes.
pub open spec fn zeros(n: int) -> Seq<u8> {
    Seq::new(n as nat, |i: int| 0u8)
}

/// The file's contents after `write_at(buf, offset)`: an empty buffer
/// changes nothing; otherwise zeros are appended up to `offset` where the
/// file is shorter, then `buf` is written at `offset`.
pub open spec fn spec_write_at(content: Seq<u8>, buf: Seq<u8>, offset: int) -> Seq<u8> {
    if buf.len() == 0 {
        content
    } else {
        let padded = content + zeros(spec_padding(content.len() as int, offset));
        stream_write(padded, offset, buf)
    }
}

/// One operation on a sealed stream during a write.
#[derive(Clone, Copy, Debug, PartialEq, Eq, Structural)]
pub enum StreamOp {
    /// Write this many zero bytes at the end of the stream.
    AppendZeros(usize),
    /// Write the caller's buffer at this position.
    WriteBuf(usize),
}

/// The stream after one operation, where `buf` is the caller's buffer.
pub open spec fn run_op(content: Seq<u8>, op: StreamOp, buf: Seq<u8>) -> Seq<u8> {
    match op {
        StreamOp::AppendZeros(n) => content + zeros(n as int),
        StreamOp::WriteBuf(pos) => stream_write(content, pos as int, buf),
    }
}

/// The stream after the operations, in order.
pub open spec fn run_ops(content: Seq<u8>, ops: Seq<StreamOp>, buf: Seq<u8>) -> Seq<u8>
    decreases ops.len(),
{
    if ops.len() == 0 {
        content
    } else {
        run_op(run_ops(content, ops.drop_last(), buf), ops.last(), buf)
    }
}

/// The operations that write a buffer of `buf_len` bytes at `offset` into
/// a sealed file of `file_size` bytes: none for an empty buffer; otherwise
/// runs of at most `PAD_CHUNK` zeros up to `offset`, then the buffer.
pub fn write_ops(file_size: usize, buf_len: usize, offset: usize) -> (r: Vec<StreamOp>)
    ensures
        forall|content: Seq<u8>, buf: Seq<u8>|
            content.len() == file_size && buf.len() == buf_len ==> #[trigger] run_ops(content, r@, buf)
                == spec_write_at(content, buf, offset as int),
        forall|i: int|
            0 <= i < r@.len() ==> match #[trigger] r@[i] {
                StreamOp::AppendZeros(n) => 0 < n <= PAD_CHUNK,
                StreamOp::WriteBuf(pos) => pos == offset && i == r@.len() - 1,
            },
{
    let mut ops: Vec<StreamOp> = Vec::new();
    if buf_len == 0 {
        return ops;
    }
    let total = padding_len(file_size, offset);
    let mut rest: usize = total;
    while rest != 0
        invariant
            rest <= total,
            forall|content: Seq<u8>, buf: Seq<u8>|
                content.len() == file_size ==> #[trigger] run_ops(content, ops@, buf) == content
                    + zeros(total - rest),
            forall|i: int|
                0 <= i < ops@.len() ==> match #[trigger] ops@[i] {
                    StreamOp::AppendZeros(n) => 0 < n <= PAD_CHUNK,
                    StreamOp::WriteBuf(pos) => false,
                },
        decreases rest,
    {
        let l = pad_chunk_len(rest);
        let ghost before = ops@;
        ops.push(StreamOp::AppendZeros(l));
        proof {
            assert forall|content: Seq<u8>, buf: Seq<u8>|
                content.len() == file_size implies #[trigger] run_ops(content, ops@, buf) == content
                + zeros(total - (rest - l)) by {
                assert(ops@.drop_last() =~= before);
                assert(run_ops(content, before, buf) == content + zeros(total - rest));
                assert(content + zeros(total - rest) + zeros(l as int) =~= content + zeros(
                    total - (rest - l),
                ));
            }
        }
        rest = rest - l;
    }
    let ghost before = ops@;
    ops.push(StreamOp::WriteBuf(offset));
    proof {
        assert forall|content: Seq<u8>, buf: Seq<u8>|
            content.len() == file_size && buf.len() == buf_len implies #[trigger] run_ops(
            content,
            ops@,
            buf,
        ) == spec_write_at(content, buf, offset as int) by {
            assert(ops@.drop_last() =~= before);
            assert(run_ops(content, before, buf) == content + zeros(total as int));
        }
    }
    ops
}

/// After a write of a non-empty buffer at an offset past the end of a file
/// of length `L`, the bytes from `L` up to the offset read back as zero,
/// and the file holds at least `offset + buf.len()` bytes.
pub proof fn write_at_pads_with_zeros(content: Seq<u8>, buf: Seq<u8>, offset: int)
    requires
        content.len() < offset,
        buf.len() > 0,
    ensures
        forall|p: int|
            content.len() <= p < offset ==> #[trigger] spec_write_at(content, buf, offset)[p] == 0,
        spec_write_at(content, buf, offset).len() >= offset + buf.len(),
{
}

/// A write at the very end of the file pads nothing: the buffer is simply
/// appended.
pub proof fn write_at_end_appends(content: Seq<u8>, buf: Seq<u8>)
    ensures
        spec_padding(content.len() as int, content.len() as int) == 0,
        spec_write_at(content, buf, content.len() as int) == content + buf,
{
    assert(spec_write_at(content, buf, content.len() as int) =~= content + buf);
}

/// A write of a non-empty buffer one byte past the end pads exactly one
/// zero byte.
pub proof fn write_past_end_pads_one(content: Seq<u8>, buf: Seq<u8>)
    requires
        buf.len() > 0,
    ensures
        spec_padding(content.len() as int, content.len() + 1 as int) == 1,
        spec_write_at(content, buf, content.len() + 1 as int) == content + seq![0u8] + buf,
{
    assert(spec_write_at(content, buf, content.len() + 1 as int) =~= content + seq![0u8] + buf);
}

} // verus!
