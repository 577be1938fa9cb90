//! Laws over whole runs of reads and writes: what any sequence of calls
//! of `MobileBufferMap::get_next_data_chunk` and
//! `MobileBufferMap::accumulate` returns, stated over the exact
//! postcondition of each call (`read_post`, `write_post`).

use vstd::prelude::*;

use crate::ble_cmd_api::{ChunkView, CmdApi, QueryApi};
use crate::mobile_buffer::{
    chunk_at, cursor_of, lemma_round_trip, lemma_split_next, read_post, reader_at, split_chunks,
    write_post, writer_at, BufferError, CursorView,
};

verus! {

/// How many of the calls `who` were made by `a`.
pub open spec fn calls_by(who: Seq<Seq<char>>, a: Seq<char>) -> nat
    decreases who.len(),
{
    if who.len() == 0 {
        0
    } else {
        calls_by(who.drop_last(), a) + if who.last() == a {
            1nat
        } else {
            0nat
        }
    }
}

/// The reader cursor of a peer after `n` reads of the fragments of `data`:
/// none before the first and after the last, else the bytes left.
pub open spec fn reader_after_reads(data: Seq<u8>, max: nat, n: nat) -> Option<nat> {
    let s = split_chunks(data, max, data.len());
    if n == 0 || n >= s.len() {
        None
    } else {
        Some(s[n - 1].remain_len)
    }
}

proof fn lemma_calls_by_prefix(who: Seq<Seq<char>>, a: Seq<char>, i: int)
    requires
        0 <= i <= who.len(),
    ensures
        calls_by(who.subrange(0, i), a) <= calls_by(who, a),
    decreases who.len() - i,
{
    if i < who.len() {
        assert(who.subrange(0, i + 1).drop_last() =~= who.subrange(0, i));
        lemma_calls_by_prefix(who, a, i + 1);
    } else {
        assert(who.subrange(0, i) =~= who);
    }
}

proof fn lemma_split_first(data: Seq<u8>, max: nat)
    ensures
        split_chunks(data, max, data.len())[0] == chunk_at(data, max, data.len()),
{
}

/// The state of peer `a` after the first `n` calls of a run; see
/// `lemma_reads_of_peer`.
proof fn lemma_reads_prefix(
    ms: Seq<Map<Seq<char>, CursorView>>,
    rs: Seq<ChunkView>,
    who: Seq<Seq<char>>,
    maxs: Seq<nat>,
    datas: Seq<Seq<u8>>,
    k: QueryApi,
    limit: nat,
    a: Seq<char>,
    data: Seq<u8>,
    max: nat,
    n: int,
)
    requires
        1 <= max <= limit,
        ms.len() == rs.len() + 1,
        who.len() == rs.len(),
        maxs.len() == rs.len(),
        datas.len() == rs.len(),
        0 <= n <= rs.len(),
        reader_at(cursor_of(ms[0], a), k) is None,
        calls_by(who, a) <= split_chunks(data, max, data.len()).len(),
        forall|i: int| 0 <= i < rs.len() && who[i] == a ==> maxs[i] == max && datas[i] == data,
        forall|i: int|
            0 <= i < rs.len() ==> read_post(
                #[trigger] ms[i],
                who[i],
                k,
                maxs[i],
                datas[i],
                limit,
                rs[i],
                ms[i + 1],
            ),
    ensures
        reader_at(cursor_of(ms[n], a), k) == reader_after_reads(
            data,
            max,
            calls_by(who.subrange(0, n), a),
        ),
        forall|i: int|
            0 <= i < n && who[i] == a ==> rs[i] == split_chunks(data, max, data.len())[calls_by(
                #[trigger] who.subrange(0, i),
                a,
            ) as int],
    decreases n,
{
    let s = split_chunks(data, max, data.len());
    if n == 0 {
        assert(who.subrange(0, 0) =~= Seq::<Seq<char>>::empty());
    } else {
        let j = n - 1;
        lemma_reads_prefix(ms, rs, who, maxs, datas, k, limit, a, data, max, j);
        assert(who.subrange(0, n).drop_last() =~= who.subrange(0, j));
        assert(who.subrange(0, n).last() == who[j]);
        let cnt = calls_by(who.subrange(0, j), a);
        assert(read_post(ms[j], who[j], k, maxs[j], datas[j], limit, rs[j], ms[j + 1]));
        if who[j] == a {
            lemma_calls_by_prefix(who, a, n);
            lemma_round_trip(data, max, data.len());
            assert(s[cnt as int].buffer.len() <= max);
            if cnt == 0 {
                lemma_split_first(data, max);
            } else {
                lemma_split_next(data, max, data.len(), cnt - 1);
            }
            assert(rs[j] == s[cnt as int]);
            if cnt + 1 < s.len() {
                assert(s[cnt as int].remain_len > 0);
            }
        } else {
            assert(cursor_of(ms[n], a) == cursor_of(ms[j], a));
        }
    }
}

/// Reads of one peer do not depend on what other peers do: in any run of
/// reads by any peers, each call satisfying the postcondition of
/// `get_next_data_chunk`, the `i`-th read of peer `a` of `data` with chunk
/// size `max` (between 1 and the limit) returns the `i`-th fragment of
/// `split_chunks(data, max, data.len())`, provided `a` had no read open at
/// the start and reads at most that many times.
pub proof fn lemma_reads_of_peer(
    ms: Seq<Map<Seq<char>, CursorView>>,
    rs: Seq<ChunkView>,
    who: Seq<Seq<char>>,
    maxs: Seq<nat>,
    datas: Seq<Seq<u8>>,
    k: QueryApi,
    limit: nat,
    a: Seq<char>,
    data: Seq<u8>,
    max: nat,
)
    requires
        1 <= max <= limit,
        ms.len() == rs.len() + 1,
        who.len() == rs.len(),
        maxs.len() == rs.len(),
        datas.len() == rs.len(),
        reader_at(cursor_of(ms[0], a), k) is None,
        calls_by(who, a) <= split_chunks(data, max, data.len()).len(),
        forall|i: int| 0 <= i < rs.len() && who[i] == a ==> maxs[i] == max && datas[i] == data,
        forall|i: int|
            0 <= i < rs.len() ==> read_post(
                #[trigger] ms[i],
                who[i],
                k,
                maxs[i],
                datas[i],
                limit,
                rs[i],
                ms[i + 1],
            ),
    ensures
        forall|i: int|
            0 <= i < rs.len() && who[i] == a ==> rs[i] == split_chunks(data, max, data.len())[calls_by(
                #[trigger] who.subrange(0, i),
                a,
            ) as int],
{
    lemma_reads_prefix(ms, rs, who, maxs, datas, k, limit, a, data, max, rs.len() as int);
}

/// Two peers reading through the same table, interleaved in any order,
/// each get their own fragments: the `i`-th read of `a1` returns the `i`-th
/// fragment of `d1` at chunk size `k1`, and likewise for `a2`, `d2`, `k2`.
pub proof fn lemma_independent_channels(
    ms: Seq<Map<Seq<char>, CursorView>>,
    rs: Seq<ChunkView>,
    who: Seq<Seq<char>>,
    k: QueryApi,
    limit: nat,
    a1: Seq<char>,
    d1: Seq<u8>,
    k1: nat,
    a2: Seq<char>,
    d2: Seq<u8>,
    k2: nat,
)
    requires
        a1 != a2,
        1 <= k1 <= limit,
        1 <= k2 <= limit,
        ms.len() == rs.len() + 1,
        who.len() == rs.len(),
        forall|i: int| 0 <= i < who.len() ==> #[trigger] who[i] == a1 || who[i] == a2,
        reader_at(cursor_of(ms[0], a1), k) is None,
        reader_at(cursor_of(ms[0], a2), k) is None,
        calls_by(who, a1) <= split_chunks(d1, k1, d1.len()).len(),
        calls_by(who, a2) <= split_chunks(d2, k2, d2.len()).len(),
        forall|i: int|
            0 <= i < rs.len() ==> read_post(
                #[trigger] ms[i],
                who[i],
                k,
                if who[i] == a1 {
                    k1
                } else {
                    k2
                },
                if who[i] == a1 {
                    d1
                } else {
                    d2
                },
                limit,
                rs[i],
                ms[i + 1],
            ),
    ensures
        forall|i: int|
            0 <= i < rs.len() && who[i] == a1 ==> rs[i] == split_chunks(d1, k1, d1.len())[calls_by(
                #[trigger] who.subrange(0, i),
                a1,
            ) as int],
        forall|i: int|
            0 <= i < rs.len() && who[i] == a2 ==> rs[i] == split_chunks(d2, k2, d2.len())[calls_by(
                #[trigger] who.subrange(0, i),
                a2,
            ) as int],
{
    let maxs = Seq::new(rs.len(), |i: int| if who[i] == a1 { k1 } else { k2 });
    let datas = Seq::new(rs.len(), |i: int| if who[i] == a1 { d1 } else { d2 });
    assert forall|i: int| 0 <= i < rs.len() implies read_post(
        #[trigger] ms[i],
        who[i],
        k,
        maxs[i],
        datas[i],
        limit,
        rs[i],
        ms[i + 1],
    ) by {
        assert(read_post(
            ms[i],
            who[i],
            k,
            if who[i] == a1 { k1 } else { k2 },
            if who[i] == a1 { d1 } else { d2 },
            limit,
            rs[i],
            ms[i + 1],
        ));
    }
    lemma_reads_of_peer(ms, rs, who, maxs, datas, k, limit, a1, d1, k1);
    lemma_reads_of_peer(ms, rs, who, maxs, datas, k, limit, a2, d2, k2);
}

/// The bytes of `data` a write has gathered after the first `n` of its
/// fragments at chunk size `max`.
pub open spec fn gathered_after(data: Seq<u8>, max: nat, n: nat) -> Seq<u8> {
    if n == 0 {
        Seq::empty()
    } else {
        data.subrange(0, data.len() - split_chunks(data, max, data.len())[n - 1].remain_len)
    }
}

proof fn lemma_writes_prefix(
    ms: Seq<Map<Seq<char>, CursorView>>,
    ws: Seq<Result<Option<Seq<u8>>, BufferError>>,
    ct: CmdApi,
    limit: nat,
    a: Seq<char>,
    data: Seq<u8>,
    max: nat,
    n: int,
)
    requires
        1 <= max,
        data.len() <= limit,
        ws.len() == split_chunks(data, max, data.len()).len(),
        ms.len() == ws.len() + 1,
        writer_at(cursor_of(ms[0], a), ct) == Seq::<u8>::empty(),
        forall|i: int|
            0 <= i < ws.len() ==> write_post(
                #[trigger] ms[i],
                a,
                ct,
                split_chunks(data, max, data.len())[i],
                limit,
                ws[i],
                ms[i + 1],
            ),
        0 <= n < ws.len(),
    ensures
        writer_at(cursor_of(ms[n], a), ct) == gathered_after(data, max, n as nat),
        forall|i: int| 0 <= i < n ==> #[trigger] ws[i] == Ok::<Option<Seq<u8>>, BufferError>(None),
    decreases n,
{
    let s = split_chunks(data, max, data.len());
    lemma_round_trip(data, max, limit);
    if n > 0 {
        let j = n - 1;
        lemma_writes_prefix(ms, ws, ct, limit, a, data, max, j);
        assert(write_post(ms[j], a, ct, s[j], limit, ws[j], ms[j + 1]));
        assert(s[j].buffer.len() <= max);
        let before = if j == 0 { data.len() as nat } else { s[j - 1].remain_len };
        if j == 0 {
            lemma_split_first(data, max);
        } else {
            lemma_split_next(data, max, data.len(), j - 1);
            assert(s[j - 1].buffer.len() <= max);
        }
        assert(s[j] == chunk_at(data, max, before));
        assert(s[j].remain_len > 0);
        assert(gathered_after(data, max, j as nat) + s[j].buffer =~= gathered_after(
            data,
            max,
            n as nat,
        ));
    }
}

/// Feeding the fragments of `data` (chunk size `max >= 1`) in order to a
/// write of peer `a` under kind `ct` that has gathered nothing, each call
/// satisfying the postcondition of `accumulate`, with `data` within the
/// limit: every write but the last returns `Ok(None)`, the last returns the
/// whole of `data`, and no write stays open.
pub proof fn lemma_writes_reassemble(
    ms: Seq<Map<Seq<char>, CursorView>>,
    ws: Seq<Result<Option<Seq<u8>>, BufferError>>,
    ct: CmdApi,
    limit: nat,
    a: Seq<char>,
    data: Seq<u8>,
    max: nat,
)
    requires
        1 <= max,
        data.len() <= limit,
        ws.len() == split_chunks(data, max, data.len()).len(),
        ms.len() == ws.len() + 1,
        writer_at(cursor_of(ms[0], a), ct) == Seq::<u8>::empty(),
        forall|i: int|
            0 <= i < ws.len() ==> write_post(
                #[trigger] ms[i],
                a,
                ct,
                split_chunks(data, max, data.len())[i],
                limit,
                ws[i],
                ms[i + 1],
            ),
    ensures
        forall|i: int| 0 <= i < ws.len() - 1 ==> #[trigger] ws[i] == Ok::<Option<Seq<u8>>, BufferError>(None),
        ws.last() == Ok::<Option<Seq<u8>>, BufferError>(Some(data)),
        !cursor_of(ms.last(), a).writer.contains_key(ct),
{
    let s = split_chunks(data, max, data.len());
    let j = ws.len() - 1;
    lemma_round_trip(data, max, limit);
    lemma_writes_prefix(ms, ws, ct, limit, a, data, max, j);
    assert(write_post(ms[j], a, ct, s[j], limit, ws[j], ms[j + 1]));
    assert(s[j].buffer.len() <= max);
    let before = if j == 0 { data.len() as nat } else { s[j - 1].remain_len };
    if j == 0 {
        lemma_split_first(data, max);
    } else {
        lemma_split_next(data, max, data.len(), j - 1);
        assert(s[j - 1].buffer.len() <= max);
    }
    assert(s[j] == chunk_at(data, max, before));
    assert(gathered_after(data, max, j as nat) + s[j].buffer =~= data);
}

proof fn lemma_calls_by_all(who: Seq<Seq<char>>, a: Seq<char>, i: int)
    requires
        0 <= i <= who.len(),
        forall|j: int| 0 <= j < who.len() ==> who[j] == a,
    ensures
        calls_by(who.subrange(0, i), a) == i,
    decreases i,
{
    if i > 0 {
        assert(who.subrange(0, i).drop_last() =~= who.subrange(0, i - 1));
        lemma_calls_by_all(who, a, i - 1);
    }
}

/// Reading a payload by successive reads of peer `a` (chunk size `max`
/// between 1 and the reading table's limit, no read open at the start)
/// until its last fragment, then feeding those fragments in order to a
/// write of `a` that has gathered nothing, each call satisfying the
/// postcondition of `get_next_data_chunk` or `accumulate`, with the payload
/// within the writing table's limit: the reads return the fragments of
/// `split_chunks`, every write but the last returns `Ok(None)`, the last
/// returns the payload byte for byte, and no write stays open.
pub proof fn lemma_round_trip_calls(
    rms: Seq<Map<Seq<char>, CursorView>>,
    rs: Seq<ChunkView>,
    wms: Seq<Map<Seq<char>, CursorView>>,
    ws: Seq<Result<Option<Seq<u8>>, BufferError>>,
    k: QueryApi,
    ct: CmdApi,
    read_limit: nat,
    write_limit: nat,
    a: Seq<char>,
    data: Seq<u8>,
    max: nat,
)
    requires
        1 <= max <= read_limit,
        data.len() <= write_limit,
        rs.len() == split_chunks(data, max, data.len()).len(),
        rms.len() == rs.len() + 1,
        reader_at(cursor_of(rms[0], a), k) is None,
        forall|i: int|
            0 <= i < rs.len() ==> read_post(
                #[trigger] rms[i],
                a,
                k,
                max,
                data,
                read_limit,
                rs[i],
                rms[i + 1],
            ),
        ws.len() == rs.len(),
        wms.len() == ws.len() + 1,
        writer_at(cursor_of(wms[0], a), ct) == Seq::<u8>::empty(),
        forall|i: int|
            0 <= i < ws.len() ==> write_post(
                #[trigger] wms[i],
                a,
                ct,
                rs[i],
                write_limit,
                ws[i],
                wms[i + 1],
            ),
    ensures
        rs == split_chunks(data, max, data.len()),
        forall|i: int| 0 <= i < ws.len() - 1 ==> #[trigger] ws[i] == Ok::<Option<Seq<u8>>, BufferError>(None),
        ws.last() == Ok::<Option<Seq<u8>>, BufferError>(Some(data)),
        !cursor_of(wms.last(), a).writer.contains_key(ct),
{
    let s = split_chunks(data, max, data.len());
    let who = Seq::new(rs.len(), |i: int| a);
    let maxs = Seq::new(rs.len(), |i: int| max);
    let datas = Seq::new(rs.len(), |i: int| data);
    lemma_calls_by_all(who, a, rs.len() as int);
    assert(who.subrange(0, rs.len() as int) =~= who);
    assert forall|i: int| 0 <= i < rs.len() implies read_post(
        #[trigger] rms[i],
        who[i],
        k,
        maxs[i],
        datas[i],
        read_limit,
        rs[i],
        rms[i + 1],
    ) by {
        assert(read_post(rms[i], a, k, max, data, read_limit, rs[i], rms[i + 1]));
    }
    lemma_reads_of_peer(rms, rs, who, maxs, datas, k, read_limit, a, data, max);
    assert forall|i: int| 0 <= i < rs.len() implies rs[i] == s[i] by {
        lemma_calls_by_all(who, a, i);
        assert(rs[i] == s[calls_by(who.subrange(0, i), a) as int]);
    }
    assert(rs =~= s);
    lemma_writes_reassemble(wms, ws, ct, write_limit, a, data, max);
}

} // verus!
