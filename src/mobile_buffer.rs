//! Chunked transfer of payloads larger than one GATT exchange.
//!
//! A read of a long payload is served one fragment per request; a write of a
//! long payload arrives one fragment per request and is put back together.
//! Each peer keeps one cursor per query kind (reads) and one per command kind
//! (writes), so different kinds progress independently for the same peer,
//! while one kind carries a single transfer at a time. Reader and writer
//! cursors live under disjoint key types, so a read can never meet a write
//! in progress under the same key.

use vstd::prelude::*;
use vstd::slice::{slice_subrange, slice_to_vec};

use crate::addr_map::AddrMap;
use crate::ble_cmd_api::{ChunkView, CmdApi, CommandReq, DataChunk, QueryApi, QueryReq};

verus! {

/// Number of command kinds, hence of writer slots per peer.
pub const CMD_KINDS: usize = 5;

/// Number of query kinds, hence of reader slots per peer.
pub const QUERY_KINDS: usize = 1;

impl CmdApi {
    pub open spec fn spec_slot(self) -> int {
        match self {
            CmdApi::MobileDisconnected => 0,
            CmdApi::RegisterMobile => 1,
            CmdApi::MobilePnpId => 2,
            CmdApi::SdpOffer => 3,
            CmdApi::MobileSdpResponse => 4,
        }
    }

    fn slot(&self) -> (r: usize)
        ensures
            r == self.spec_slot(),
    {
        match self {
            CmdApi::MobileDisconnected => 0,
            CmdApi::RegisterMobile => 1,
            CmdApi::MobilePnpId => 2,
            CmdApi::SdpOffer => 3,
            CmdApi::MobileSdpResponse => 4,
        }
    }
}

impl QueryApi {
    pub open spec fn spec_slot(self) -> int {
        match self {
            QueryApi::HostInfo => 0,
        }
    }

    fn slot(&self) -> (r: usize)
        ensures
            r == self.spec_slot(),
    {
        match self {
            QueryApi::HostInfo => 0,
        }
    }
}

/// Why a chunked write was given up.
#[derive(Debug, Clone, Copy, PartialEq, Eq, Structural)]
pub enum BufferError {
    /// The bytes gathered would exceed the configured limit.
    BufferLimitExceeded,
}

/// The open transfers of one peer.
pub struct BufferCursor {
    /// Bytes gathered so far, one slot per command kind.
    writer: Vec<Option<Vec<u8>>>,
    /// Bytes still to send, one slot per query kind.
    reader: Vec<Option<usize>>,
}

/// What a peer's open transfers are: the bytes gathered for each command
/// kind being written, the bytes left for each query kind being read.
pub struct CursorView {
    pub writer: Map<CmdApi, Seq<u8>>,
    pub reader: Map<QueryApi, nat>,
}

pub open spec fn empty_cursor() -> CursorView {
    CursorView { writer: Map::empty(), reader: Map::empty() }
}

impl BufferCursor {
    pub closed spec fn wf(&self) -> bool {
        self.writer@.len() == CMD_KINDS && self.reader@.len() == QUERY_KINDS
    }

    pub closed spec fn view(&self) -> CursorView {
        CursorView {
            writer: Map::new(
                |k: CmdApi| self.writer@[k.spec_slot()] is Some,
                |k: CmdApi| self.writer@[k.spec_slot()]->Some_0@,
            ),
            reader: Map::new(
                |k: QueryApi| self.reader@[k.spec_slot()] is Some,
                |k: QueryApi| self.reader@[k.spec_slot()]->Some_0 as nat,
            ),
        }
    }

    fn empty() -> (r: Self)
        ensures
            r.wf(),
            r.view() == empty_cursor(),
    {
        let mut writer: Vec<Option<Vec<u8>>> = Vec::new();
        let mut i: usize = 0;
        while i < CMD_KINDS
            invariant
                i <= CMD_KINDS,
                writer@.len() == i,
                forall|j: int| 0 <= j < i ==> #[trigger] writer@[j] is None,
            decreases CMD_KINDS - i,
        {
            writer.push(None);
            i = i + 1;
        }
        let mut reader: Vec<Option<usize>> = Vec::new();
        reader.push(None);
        let r = BufferCursor { writer, reader };
        assert(r.view().writer =~= Map::<CmdApi, Seq<u8>>::empty());
        assert(r.view().reader =~= Map::<QueryApi, nat>::empty());
        r
    }

    /// Adds `chunk` to the write of kind `k`; see `MobileBufferMap::accumulate`.
    fn write(&mut self, k: CmdApi, chunk: &DataChunk, limit: usize) -> (r: Result<Option<Vec<u8>>, BufferError>)
        requires
            old(self).wf(),
        ensures
            final(self).wf(),
            final(self).view() == write_after(old(self).view(), k, chunk@, limit as nat),
            written(r) == accumulate_result(writer_at(old(self).view(), k), chunk@, limit as nat),
    {
        let ghost before = self.view();
        let ghost w0 = self.writer@;
        let slot = k.slot();
        let taken = self.writer.remove(slot);
        self.writer.insert(slot, None);
        assert(self.writer@ =~= w0.update(slot as int, None));
        let mut gathered = match taken {
            Some(g) => g,
            None => Vec::new(),
        };
        assert(gathered@ == writer_at(before, k));
        let add = &chunk.buffer;
        if add.len() > limit || gathered.len() > limit - add.len() {
            assert(self.view().writer =~= before.writer.remove(k));
            assert(self.view().reader =~= before.reader);
            return Err(BufferError::BufferLimitExceeded);
        }
        append_bytes(&mut gathered, add.as_slice());
        if chunk.remain_len == 0 {
            assert(self.view().writer =~= before.writer.remove(k));
            assert(self.view().reader =~= before.reader);
            Ok(Some(gathered))
        } else {
            let ghost g = gathered@;
            self.writer.set(slot, Some(gathered));
            assert(self.writer@ =~= w0.update(slot as int, Some(gathered)));
            assert(self.view().writer =~= before.writer.insert(k, g));
            assert(self.view().reader =~= before.reader);
            Ok(None)
        }
    }
}

impl Default for BufferCursor {
    fn default() -> (r: Self)
        ensures
            r.wf(),
            r.view() == empty_cursor(),
    {
        BufferCursor::empty()
    }
}

/// Where a read resumes: the bytes left by the open transfer, or the whole
/// payload when none is open (or the one open no longer fits the payload).
pub open spec fn resume_point(open: Option<nat>, len: nat) -> nat {
    match open {
        Some(r) => if r <= len { r } else { len },
        None => len,
    }
}

/// The fragment sent when `remain` bytes of `data` are left and at most
/// `max` bytes fit in one reply.
pub open spec fn chunk_at(data: Seq<u8>, max: nat, remain: nat) -> ChunkView
    recommends
        remain <= data.len(),
{
    let start = data.len() - remain;
    let end = if start + max < data.len() { start + max } else { data.len() as int };
    ChunkView { remain_len: (data.len() - end) as nat, buffer: data.subrange(start, end) }
}

/// The cursors of `addr`, or empty ones for a peer not seen yet.
pub open spec fn cursor_of(m: Map<Seq<char>, CursorView>, addr: Seq<char>) -> CursorView {
    if m.contains_key(addr) {
        m[addr]
    } else {
        empty_cursor()
    }
}

pub open spec fn reader_at(c: CursorView, k: QueryApi) -> Option<nat> {
    if c.reader.contains_key(k) {
        Some(c.reader[k])
    } else {
        None
    }
}

pub open spec fn writer_at(c: CursorView, k: CmdApi) -> Seq<u8> {
    if c.writer.contains_key(k) {
        c.writer[k]
    } else {
        Seq::empty()
    }
}

/// What one write of a fragment does: `Err` when the bytes gathered would
/// exceed `limit`, `Ok(Some(payload))` when the fragment is the last one,
/// `Ok(None)` while more are expected.
pub open spec fn accumulate_result(
    gathered: Seq<u8>,
    chunk: ChunkView,
    limit: nat,
) -> Result<Option<Seq<u8>>, BufferError> {
    if gathered.len() + chunk.buffer.len() > limit {
        Err(BufferError::BufferLimitExceeded)
    } else if chunk.remain_len == 0 {
        Ok(Some(gathered + chunk.buffer))
    } else {
        Ok(None)
    }
}

/// The writer slot after one write of a fragment: kept, with the fragment
/// appended, only while more fragments are expected.
pub open spec fn writer_after(
    c: CursorView,
    k: CmdApi,
    chunk: ChunkView,
    limit: nat,
) -> Map<CmdApi, Seq<u8>> {
    match accumulate_result(writer_at(c, k), chunk, limit) {
        Ok(None) => c.writer.insert(k, writer_at(c, k) + chunk.buffer),
        _ => c.writer.remove(k),
    }
}

/// The cursors after a read of kind `k` that leaves `left` bytes: the
/// transfer stays open with `left` bytes to go, unless it is done or the
/// chunk size asked for exceeds `limit`.
pub open spec fn read_after(c: CursorView, k: QueryApi, max: nat, limit: nat, left: nat) -> CursorView {
    CursorView {
        writer: c.writer,
        reader: if left == 0 || max > limit {
            c.reader.remove(k)
        } else {
            c.reader.insert(k, left)
        },
    }
}

/// The cursors after a write of `chunk` under kind `k`.
pub open spec fn write_after(c: CursorView, k: CmdApi, chunk: ChunkView, limit: nat) -> CursorView {
    CursorView { writer: writer_after(c, k, chunk, limit), reader: c.reader }
}

/// What one read of `max`-byte chunks of `data` by `addr` under kind `k`
/// returns (`r`) and leaves (`m1`), from the cursors `m0`.
pub open spec fn read_post(
    m0: Map<Seq<char>, CursorView>,
    addr: Seq<char>,
    k: QueryApi,
    max: nat,
    data: Seq<u8>,
    limit: nat,
    r: ChunkView,
    m1: Map<Seq<char>, CursorView>,
) -> bool {
    let c = cursor_of(m0, addr);
    &&& r == chunk_at(data, max, resume_point(reader_at(c, k), data.len()))
    &&& m1 == m0.insert(addr, read_after(c, k, max, limit, r.remain_len))
}

/// What one write of `chunk` by `addr` under kind `k` returns (`r`) and
/// leaves (`m1`), from the cursors `m0`.
pub open spec fn write_post(
    m0: Map<Seq<char>, CursorView>,
    addr: Seq<char>,
    k: CmdApi,
    chunk: ChunkView,
    limit: nat,
    r: Result<Option<Seq<u8>>, BufferError>,
    m1: Map<Seq<char>, CursorView>,
) -> bool {
    let c = cursor_of(m0, addr);
    &&& r == accumulate_result(writer_at(c, k), chunk, limit)
    &&& m1 == m0.insert(addr, write_after(c, k, chunk, limit))
}

/// The value of what a write returns.
pub open spec fn written(r: Result<Option<Vec<u8>>, BufferError>) -> Result<Option<Seq<u8>>, BufferError> {
    match r {
        Ok(Some(p)) => Ok(Some(p@)),
        Ok(None) => Ok(None),
        Err(e) => Err(e),
    }
}

/// The fragments that successive reads of `data` produce when `remain`
/// bytes are left and at most `max` bytes fit in one reply: each read
/// resumes where the previous one stopped, until no byte is left.
pub open spec fn split_chunks(data: Seq<u8>, max: nat, remain: nat) -> Seq<ChunkView>
    decreases remain,
{
    let c = chunk_at(data, max, remain);
    if remain > data.len() || max == 0 || c.remain_len == 0 || c.remain_len >= remain {
        seq![c]
    } else {
        seq![c] + split_chunks(data, max, c.remain_len)
    }
}

/// What a write returns after the fragments `chunks` are fed to it, one
/// after the other, starting from `gathered` bytes: the payload of the
/// first write to complete, or `None` when none completes or the write is
/// given up.
pub open spec fn reassemble(gathered: Seq<u8>, chunks: Seq<ChunkView>, limit: nat) -> Option<
    Seq<u8>,
>
    decreases chunks.len(),
{
    if chunks.len() == 0 {
        None
    } else {
        match accumulate_result(gathered, chunks[0], limit) {
            Ok(Some(p)) => Some(p),
            Ok(None) => reassemble(gathered + chunks[0].buffer, chunks.drop_first(), limit),
            Err(_) => None,
        }
    }
}

proof fn lemma_split_from(data: Seq<u8>, max: nat, remain: nat, limit: nat)
    requires
        1 <= max,
        remain <= data.len(),
        data.len() <= limit,
    ensures
        reassemble(data.subrange(0, data.len() - remain), split_chunks(data, max, remain), limit)
            == Some(data),
        split_chunks(data, max, remain).last().remain_len == 0,
        forall|i: int|
            0 <= i < split_chunks(data, max, remain).len() ==> {
                &&& #[trigger] split_chunks(data, max, remain)[i].buffer.len() <= max
                &&& split_chunks(data, max, remain)[i].remain_len < remain
                    || remain == 0
                &&& i + 1 < split_chunks(data, max, remain).len() ==> split_chunks(
                    data,
                    max,
                    remain,
                )[i + 1].remain_len < split_chunks(data, max, remain)[i].remain_len
                &&& i + 1 < split_chunks(data, max, remain).len() ==> split_chunks(
                    data,
                    max,
                    remain,
                )[i].remain_len > 0
            },
    decreases remain,
{
    let c = chunk_at(data, max, remain);
    let start = data.len() - remain;
    let gathered = data.subrange(0, start);
    let s = split_chunks(data, max, remain);
    if c.remain_len == 0 {
        assert(s == seq![c]);
        assert(gathered + c.buffer =~= data);
    } else {
        let rest = split_chunks(data, max, c.remain_len);
        lemma_split_from(data, max, c.remain_len, limit);
        assert(s == seq![c] + rest);
        assert(s.drop_first() =~= rest);
        assert(gathered + c.buffer =~= data.subrange(0, data.len() - c.remain_len));
        assert forall|i: int| 0 <= i < s.len() implies {
            &&& #[trigger] s[i].buffer.len() <= max
            &&& s[i].remain_len < remain || remain == 0
            &&& i + 1 < s.len() ==> s[i + 1].remain_len < s[i].remain_len
            &&& i + 1 < s.len() ==> s[i].remain_len > 0
        } by {
            if i > 0 {
                assert(s[i] == rest[i - 1]);
            }
            if i + 1 < s.len() {
                assert(s[i + 1] == rest[i]);
            }
        }
    }
}

pub proof fn lemma_split_next(data: Seq<u8>, max: nat, remain: nat, i: int)
    requires
        1 <= max,
        remain <= data.len(),
        0 <= i,
        i + 1 < split_chunks(data, max, remain).len(),
    ensures
        split_chunks(data, max, remain)[i].remain_len <= data.len(),
        split_chunks(data, max, remain)[i + 1] == chunk_at(
            data,
            max,
            split_chunks(data, max, remain)[i].remain_len,
        ),
    decreases remain,
{
    let c = chunk_at(data, max, remain);
    let rest = split_chunks(data, max, c.remain_len);
    assert(split_chunks(data, max, remain) == seq![c] + rest);
    if i > 0 {
        lemma_split_next(data, max, c.remain_len, i - 1);
    }
}

/// The fragments that successive reads of `data` return are the ones of
/// `split_chunks`: with a chunk size `max` between 1 and the table's limit,
/// the first read of a transfer serves the first fragment, and after serving
/// fragment `i` the cursor keeps its remaining count, from which the next
/// read serves fragment `i + 1`.
pub proof fn lemma_successive_reads(data: Seq<u8>, max: nat, limit: nat, k: QueryApi, c: CursorView, i: int)
    requires
        1 <= max <= limit,
        0 <= i,
        i + 1 < split_chunks(data, max, data.len()).len(),
    ensures
        chunk_at(data, max, resume_point(None, data.len())) == split_chunks(data, max, data.len())[0],
        ({
            let s = split_chunks(data, max, data.len());
            let after = read_after(c, k, max, limit, s[i].remain_len);
            &&& reader_at(after, k) == Some(s[i].remain_len)
            &&& chunk_at(data, max, resume_point(reader_at(after, k), data.len())) == s[i + 1]
        }),
{
    let s = split_chunks(data, max, data.len());
    lemma_split_from(data, max, data.len(), limit + data.len());
    lemma_split_next(data, max, data.len(), i);
    assert(s[i].buffer.len() <= max);
    assert(s[i].remain_len > 0);
}

/// Splitting a payload into fragments of at most `max >= 1` bytes by
/// successive reads, then feeding those fragments in order to a write whose
/// limit the payload does not exceed, gives back the payload byte for byte.
/// Every fragment holds at most `max` bytes, the bytes remaining strictly
/// decrease from one fragment to the next, and they reach zero exactly at
/// the last one.
pub proof fn lemma_round_trip(data: Seq<u8>, max: nat, limit: nat)
    requires
        1 <= max,
        data.len() <= limit,
    ensures
        reassemble(Seq::empty(), split_chunks(data, max, data.len()), limit) == Some(data),
        split_chunks(data, max, data.len()).last().remain_len == 0,
        forall|i: int|
            0 <= i < split_chunks(data, max, data.len()).len() ==> {
                &&& #[trigger] split_chunks(data, max, data.len())[i].buffer.len() <= max
                &&& i + 1 < split_chunks(data, max, data.len()).len() ==> split_chunks(
                    data,
                    max,
                    data.len(),
                )[i + 1].remain_len < split_chunks(data, max, data.len())[i].remain_len
                &&& i + 1 < split_chunks(data, max, data.len()).len() ==> split_chunks(
                    data,
                    max,
                    data.len(),
                )[i].remain_len > 0
            },
{
    lemma_split_from(data, max, data.len(), limit);
    assert(data.subrange(0, 0) =~= Seq::<u8>::empty());
}

pub open spec fn chunk_views(v: Seq<DataChunk>) -> Seq<ChunkView> {
    v.map_values(|c: DataChunk| c@)
}

/// Cuts `data` into the fragments that successive reads of at most `max`
/// bytes would serve, all at once: what a broadcast to subscribers sends.
pub fn split_payload(data: &[u8], max: usize) -> (r: Vec<DataChunk>)
    requires
        max >= 1,
    ensures
        chunk_views(r@) == split_chunks(data@, max as nat, data@.len()),
{
    let len = data.len();
    let mut out: Vec<DataChunk> = Vec::new();
    let mut remain: usize = len;
    loop
        invariant
            max >= 1,
            len == data@.len(),
            remain <= len,
            chunk_views(out@) + split_chunks(data@, max as nat, remain as nat) == split_chunks(
                data@,
                max as nat,
                len as nat,
            ),
        decreases remain,
    {
        let start = len - remain;
        let end = if max < len - start { start + max } else { len };
        let chunk = DataChunk { remain_len: len - end, buffer: slice_to_vec(slice_subrange(data, start, end)) };
        let ghost c = chunk_at(data@, max as nat, remain as nat);
        assert(chunk@.buffer =~= c.buffer);
        let left = chunk.remain_len;
        let ghost before = chunk_views(out@);
        out.push(chunk);
        assert(chunk_views(out@) =~= before.push(c));
        if left == 0 {
            assert(split_chunks(data@, max as nat, remain as nat) == seq![c]);
            assert(chunk_views(out@) =~= before + seq![c]);
            return out;
        }
        assert(split_chunks(data@, max as nat, remain as nat) == seq![c] + split_chunks(
            data@,
            max as nat,
            left as nat,
        ));
        assert(before + (seq![c] + split_chunks(data@, max as nat, left as nat)) =~= before.push(c)
            + split_chunks(data@, max as nat, left as nat));
        remain = left;
    }
}

/// The open transfers of every peer.
pub struct MobileBufferMap {
    mobile_buffer_status: AddrMap<BufferCursor>,
    /// Upper bound, in bytes, on a chunk size asked for and on a payload
    /// gathered from writes.
    buffer_size_limit: usize,
}

impl MobileBufferMap {
    pub closed spec fn wf(&self) -> bool {
        &&& self.mobile_buffer_status.wf()
        &&& forall|a: Seq<char>| #[trigger]
            self.mobile_buffer_status.view().contains_key(a)
                ==> self.mobile_buffer_status.view()[a].wf()
    }

    pub closed spec fn view(&self) -> Map<Seq<char>, CursorView> {
        self.mobile_buffer_status.view().map_values(|c: BufferCursor| c.view())
    }

    pub closed spec fn limit(&self) -> nat {
        self.buffer_size_limit as nat
    }

    /// An empty table whose size limit is `buffer_max_len` bytes.
    pub fn new(buffer_max_len: usize) -> (r: Self)
        ensures
            r.wf(),
            r.view() == Map::<Seq<char>, CursorView>::empty(),
            r.limit() == buffer_max_len,
    {
        let r = MobileBufferMap { mobile_buffer_status: AddrMap::new(), buffer_size_limit: buffer_max_len };
        assert(r.view() =~= Map::<Seq<char>, CursorView>::empty());
        r
    }

    /// Starts tracking `addr` with no open transfer, dropping any it had.
    pub fn add_mobile(&mut self, addr: &str)
        requires
            old(self).wf(),
        ensures
            final(self).wf(),
            final(self).view() == old(self).view().insert(addr@, empty_cursor()),
            final(self).limit() == old(self).limit(),
    {
        let c = BufferCursor::empty();
        self.mobile_buffer_status.insert(addr, c);
        assert(self.view() =~= old(self).view().insert(addr@, empty_cursor()));
    }

    /// Whether a read asking for chunks of `max_len` bytes exceeds the
    /// limit, so that its transfer is dropped after each chunk: the warning
    /// to raise about a peer asking for oversized chunks.
    pub fn oversized_chunk(&self, max_len: usize) -> (r: bool)
        ensures
            r == (max_len > self.limit()),
    {
        max_len > self.buffer_size_limit
    }

    /// Whether `addr` is tracked.
    pub fn contains_mobile(&self, addr: &str) -> (r: bool)
        requires
            self.wf(),
        ensures
            r == self.view().contains_key(addr@),
    {
        self.mobile_buffer_status.contains(addr)
    }

    /// Stops tracking `addr`, dropping its open transfers.
    pub fn remove_mobile(&mut self, addr: &str)
        requires
            old(self).wf(),
        ensures
            final(self).wf(),
            final(self).view() == old(self).view().remove(addr@),
            final(self).limit() == old(self).limit(),
    {
        self.mobile_buffer_status.remove(addr);
        assert(self.view() =~= old(self).view().remove(addr@));
    }

    /// Takes the cursors of `addr` out of the table, empty ones for a peer
    /// not seen yet; the caller puts them back.
    fn get_cursors(&mut self, addr: &str) -> (r: BufferCursor)
        requires
            old(self).wf(),
        ensures
            final(self).wf(),
            r.wf(),
            r.view() == cursor_of(old(self).view(), addr@),
            final(self).view() == old(self).view().remove(addr@),
            final(self).limit() == old(self).limit(),
    {
        let r = match self.mobile_buffer_status.remove(addr) {
            Some(c) => c,
            None => BufferCursor::empty(),
        };
        assert(self.view() =~= old(self).view().remove(addr@));
        r
    }

    /// Puts cursors back under `addr`.
    fn put_cursors(&mut self, addr: &str, c: BufferCursor)
        requires
            old(self).wf(),
            c.wf(),
        ensures
            final(self).wf(),
            final(self).view() == old(self).view().insert(addr@, c.view()),
            final(self).limit() == old(self).limit(),
    {
        self.mobile_buffer_status.insert(addr, c);
        assert(self.view() =~= old(self).view().insert(addr@, c.view()));
    }

    /// Serves the next fragment of `data` to the read `query` of `addr`.
    ///
    /// The first read of a transfer starts at the front of `data`; each read
    /// sends at most `query.max_buffer_len` bytes from where the previous one
    /// stopped. The transfer closes when its last fragment is sent, and also,
    /// as a guard against a peer asking for oversized fragments, when the
    /// chunk size asked for exceeds the table's limit.
    pub fn get_next_data_chunk(&mut self, addr: &str, query: &QueryReq, data: &[u8]) -> (r:
        DataChunk)
        requires
            old(self).wf(),
        ensures
            final(self).wf(),
            final(self).limit() == old(self).limit(),
            read_post(
                old(self).view(),
                addr@,
                query.query_type,
                query.max_buffer_len as nat,
                data@,
                old(self).limit(),
                r@,
                final(self).view(),
            ),
    {
        let max_len = query.max_buffer_len;
        let mut cursor = self.get_cursors(addr);
        let slot = query.query_type.slot();
        let len = data.len();
        let remain = match cursor.reader[slot] {
            Some(r) => if r <= len { r } else { len },
            None => len,
        };
        let start = len - remain;
        let end = if max_len < len - start { start + max_len } else { len };
        let chunk = DataChunk { remain_len: len - end, buffer: slice_to_vec(slice_subrange(data, start, end)) };
        let ghost before = cursor.view();
        let ghost m0 = old(self).view();
        assert(before == cursor_of(m0, addr@));
        assert(reader_at(before, query.query_type) == match cursor.reader@[slot as int] {
            Some(r) => Some(r as nat),
            None => None::<nat>,
        });
        if chunk.remain_len == 0 || max_len > self.buffer_size_limit {
            cursor.reader.set(slot, None);
            assert(cursor.view().reader =~= before.reader.remove(query.query_type));
        } else {
            cursor.reader.set(slot, Some(chunk.remain_len));
            assert(cursor.view().reader =~= before.reader.insert(query.query_type, chunk.remain_len as nat));
        }
        assert(cursor.view().writer =~= before.writer);
        self.put_cursors(addr, cursor);
        assert(chunk@.buffer =~= chunk_at(data@, max_len as nat, remain as nat).buffer);
        assert(chunk@ == chunk_at(data@, max_len as nat, remain as nat));
        assert(self.view() == m0.insert(
            addr@,
            read_after(before, query.query_type, max_len as nat, self.limit(), chunk@.remain_len),
        ));
        chunk
    }

    /// Adds the fragment of `cmd` to the write of `addr` under its command
    /// kind.
    ///
    /// Returns the whole payload once the last fragment (no bytes remaining)
    /// arrives, and `Ok(None)` while more are expected. When the bytes
    /// gathered would exceed the table's limit the write is given up: its
    /// bytes are dropped and `BufferLimitExceeded` is returned.
    pub fn accumulate(&mut self, addr: &str, cmd: &CommandReq) -> (r: Result<Option<Vec<u8>>, BufferError>)
        requires
            old(self).wf(),
        ensures
            final(self).wf(),
            final(self).limit() == old(self).limit(),
            write_post(
                old(self).view(),
                addr@,
                cmd.cmd_type,
                cmd.payload@,
                old(self).limit(),
                written(r),
                final(self).view(),
            ),
    {
        let mut cursor = self.get_cursors(addr);
        let ghost before = cursor.view();
        let r = cursor.write(cmd.cmd_type, &cmd.payload, self.buffer_size_limit);
        let ghost after = cursor.view();
        self.put_cursors(addr, cursor);
        assert(before == cursor_of(old(self).view(), addr@));
        assert(self.view() == old(self).view().insert(addr@, after));
        r
    }

    /// Adds the fragment of `cmd` to the write of `addr`, as `accumulate`
    /// does, and returns the whole payload once complete; a write given up
    /// for exceeding the limit returns `None` as well.
    pub fn get_complete_buffer(&mut self, addr: &str, cmd: &CommandReq) -> (r: Option<Vec<u8>>)
        requires
            old(self).wf(),
        ensures
            final(self).wf(),
            final(self).limit() == old(self).limit(),
            ({
                let c = cursor_of(old(self).view(), addr@);
                let k = cmd.cmd_type;
                &&& match r {
                    Some(p) => accumulate_result(writer_at(c, k), cmd.payload@, old(self).limit())
                        == Ok::<Option<Seq<u8>>, BufferError>(Some(p@)),
                    None => !(accumulate_result(writer_at(c, k), cmd.payload@, old(self).limit()) is Ok
                        && accumulate_result(writer_at(c, k), cmd.payload@, old(self).limit())->Ok_0 is Some),
                }
                &&& final(self).view() == old(self).view().insert(
                    addr@,
                    write_after(c, k, cmd.payload@, old(self).limit()),
                )
            }),
    {
        match self.accumulate(addr, cmd) {
            Ok(p) => p,
            Err(_) => None,
        }
    }
}

/// Appends the bytes of `src` to `dst`.
fn append_bytes(dst: &mut Vec<u8>, src: &[u8])
    ensures
        final(dst)@ == old(dst)@ + src@,
{
    let mut i: usize = 0;
    while i < src.len()
        invariant
            i <= src@.len(),
            dst@ == old(dst)@ + src@.subrange(0, i as int),
        decreases src@.len() - i,
    {
        dst.push(src[i]);
        i = i + 1;
        assert(dst@ =~= old(dst)@ + src@.subrange(0, i as int));
    }
    assert(src@.subrange(0, i as int) =~= src@);
}

} // verus!
