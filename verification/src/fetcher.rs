//! The fetcher's storage discipline: the ordered plan of writes and the
//! publish that ingests one remote archive. The manifest goes first, every
//! chunk is written under the chunk-exists guard, and the synced event
//! goes last — the shell performs the actions in the plan's order.

use vstd::prelude::*;
use crate::{CHUNK_TARGET_SIZE, spec_total_chunks, total_chunks_for_length};

verus! {

/// One storage or broker action of the fetcher, in plan order. A chunk
/// write is preceded by the existence probe; re-fetching an existing
/// chunk is a no-op.
#[derive(Clone, Copy, Debug, PartialEq, Eq, Structural)]
pub enum FetchAction {
    PutManifest { total_chunks: u64 },
    PutChunkIfAbsent { index: u64 },
    PublishSynced { total_chunks: u64 },
}

/// The plan for an archive of `n` chunks: the manifest, then every chunk
/// in order, then the synced event.
pub open spec fn spec_fetch_plan(n: u64) -> Seq<FetchAction> {
    seq![FetchAction::PutManifest { total_chunks: n }] + Seq::new(
        n as nat,
        |i: int| FetchAction::PutChunkIfAbsent { index: i as u64 },
    ) + seq![FetchAction::PublishSynced { total_chunks: n }]
}

/// Builds the fetch plan of an archive of `content_length` bytes, cut
/// into chunks of the target size.
pub fn fetch_plan(content_length: u64) -> (r: Vec<FetchAction>)
    requires
        spec_total_chunks(content_length) < usize::MAX - 2,
    ensures
        r@ == spec_fetch_plan(spec_total_chunks(content_length)),
{
    let n = total_chunks_for_length(content_length);
    let mut r: Vec<FetchAction> = Vec::new();
    r.push(FetchAction::PutManifest { total_chunks: n });
    let mut i: u64 = 0;
    while i < n
        invariant
            i <= n == spec_total_chunks(content_length),
            r@.len() == i + 1,
            r@[0] == (FetchAction::PutManifest { total_chunks: n }),
            forall|j: int|
                1 <= j <= i ==> r@[j] == (FetchAction::PutChunkIfAbsent { index: (j - 1) as u64 }),
        decreases n - i,
    {
        r.push(FetchAction::PutChunkIfAbsent { index: i });
        i = i + 1;
    }
    r.push(FetchAction::PublishSynced { total_chunks: n });
    proof {
        assert(r@ =~= spec_fetch_plan(n));
    }
    r
}

/// Law: the manifest is written before the synced event — every position
/// of the plan holding the event is preceded by the position holding the
/// manifest.
pub proof fn lemma_manifest_before_event(n: u64, j: int)
    requires
        0 <= j < spec_fetch_plan(n).len(),
        spec_fetch_plan(n)[j] is PublishSynced,
    ensures
        0 < j,
        spec_fetch_plan(n)[0] is PutManifest,
{
    let plan = spec_fetch_plan(n);
    assert(plan[0] == (FetchAction::PutManifest { total_chunks: n }));
}

/// Law: the synced event for `n` chunks follows a chunk write for every
/// index below `n` — when the event is published, every chunk was put.
pub proof fn lemma_chunk_completeness(n: u64, i: u64)
    requires
        i < n,
    ensures
        ({
            let plan = spec_fetch_plan(n);
            &&& plan[plan.len() - 1] == (FetchAction::PublishSynced { total_chunks: n })
            &&& 0 <= i + 1 < plan.len() - 1
            &&& plan[i + 1] == (FetchAction::PutChunkIfAbsent { index: i })
        }),
{
    let plan = spec_fetch_plan(n);
    assert(plan[i + 1] == (FetchAction::PutChunkIfAbsent { index: i }));
    assert(plan[plan.len() - 1] == (FetchAction::PublishSynced { total_chunks: n }));
}

/// The logical path of an archive URL path: the path with every
/// occurrence of the compressed-PGN suffix removed.
pub open spec fn spec_strip_archive_suffix(s: Seq<char>) -> Seq<char>
    decreases s.len(),
{
    if s.len() < 8 {
        s
    } else if s.subrange(0, 8) == ".pgn.zst"@ {
        spec_strip_archive_suffix(s.subrange(8, s.len() as int))
    } else {
        seq![s[0]] + spec_strip_archive_suffix(s.drop_first())
    }
}

/// Removes every occurrence of the compressed-PGN suffix from a URL path,
/// yielding the archive's logical path.
pub fn strip_archive_suffix(s: &str) -> (r: String)
    ensures
        r@ == spec_strip_archive_suffix(s@),
{
    let cs = crate::text::chars_of(s);
    let n = cs.len();
    let mut out = String::new();
    let mut i: usize = 0;
    proof {
        assert(s@.subrange(0, n as int) =~= s@);
        assert(out@ + spec_strip_archive_suffix(s@) =~= spec_strip_archive_suffix(s@));
    }
    while i < n
        invariant
            i <= n == s@.len(),
            cs@ == s@,
            spec_strip_archive_suffix(s@) == out@ + spec_strip_archive_suffix(
                s@.subrange(i as int, n as int),
            ),
        decreases n - i,
    {
        let ghost tail = s@.subrange(i as int, n as int);
        proof {
            reveal_strlit(".pgn.zst");
        }
        if n - i >= 8 && cs[i] == '.' && cs[i + 1] == 'p' && cs[i + 2] == 'g' && cs[i + 3] == 'n'
            && cs[i + 4] == '.' && cs[i + 5] == 'z' && cs[i + 6] == 's' && cs[i + 7] == 't' {
            proof {
                assert(tail.subrange(0, 8) =~= ".pgn.zst"@);
                assert(tail.subrange(8, tail.len() as int) =~= s@.subrange(
                    i as int + 8,
                    n as int,
                ));
            }
            i = i + 8;
        } else {
            proof {
                if tail.len() >= 8 && tail.subrange(0, 8) == ".pgn.zst"@ {
                    assert(tail.subrange(0, 8)[0] == '.' && tail.subrange(0, 8)[1] == 'p'
                        && tail.subrange(0, 8)[2] == 'g' && tail.subrange(0, 8)[3] == 'n'
                        && tail.subrange(0, 8)[4] == '.' && tail.subrange(0, 8)[5] == 'z'
                        && tail.subrange(0, 8)[6] == 's' && tail.subrange(0, 8)[7] == 't');
                }
                assert(tail.drop_first() =~= s@.subrange(i as int + 1, n as int));
            }
            let piece = s.substring_char(i, i + 1);
            out.append(piece);
            proof {
                assert(piece@ =~= seq![s@[i as int]]);
                assert((out@ + seq![s@[i as int]] + spec_strip_archive_suffix(
                    s@.subrange(i as int + 1, n as int),
                )) =~= (out@ + (seq![s@[i as int]] + spec_strip_archive_suffix(
                    s@.subrange(i as int + 1, n as int),
                ))));
            }
            i = i + 1;
        }
    }
    proof {
        assert(s@.subrange(n as int, n as int) =~= Seq::<char>::empty());
        assert(out@ + Seq::<char>::empty() =~= out@);
    }
    out
}

/// Name for the path part of a URL: a function of the URL text alone.
pub uninterp spec fn url_path_of(url: Seq<char>) -> Seq<char>;

/// Name for whether a text parses as an absolute URL: url::Url::parse is
/// deterministic, so success is a function of the text alone.
pub uninterp spec fn url_parses(url: Seq<char>) -> bool;

/// Relies on url::Url::parse and Url::path: the percent-encoded path of
/// an absolute URL, exactly when the text parses as one; both depend on
/// the URL text alone.
#[verifier::external_body]
pub fn path_from_url(url: &str) -> (r: Option<String>)
    ensures
        r is Some <==> url_parses(url@),
        r matches Some(p) ==> p@ == url_path_of(url@),
{
    match url::Url::parse(url) {
        Ok(u) => Some(u.path().to_string()),
        Err(_) => None,
    }
}

/// The logical path of an archive URL: the URL's path with the
/// compressed-PGN suffix removed, the object-storage key prefix of the
/// archive. Some path exactly when the text parses as a URL; the same
/// URL always yields the same logical path.
pub fn logical_path_from_url(url: &str) -> (r: Option<String>)
    ensures
        r is Some <==> url_parses(url@),
        r matches Some(p) ==> p@ == spec_strip_archive_suffix(url_path_of(url@)),
{
    match path_from_url(url) {
        Some(path) => Some(strip_archive_suffix(path.as_str())),
        None => None,
    }
}

/// One chunk cut from the download stream, ready to write under its
/// index.
pub struct ArchiveChunk {
    pub index: u64,
    pub bytes: Vec<u8>,
}

/// The bytes of a run of chunks, in order.
pub open spec fn flatten_chunks(chunks: Seq<ArchiveChunk>) -> Seq<u8>
    decreases chunks.len(),
{
    if chunks.len() == 0 {
        Seq::empty()
    } else {
        flatten_chunks(chunks.drop_last()) + chunks.last().bytes@
    }
}

/// Cuts the downloaded byte stream into chunks of exactly the target
/// size, holding the tail until it fills or the stream ends.
pub struct ChunkAccumulator {
    pub buffer: Vec<u8>,
    pub next_index: u64,
    pub total_bytes: u64,
}

/// The accumulator's invariant: the tail is shorter than a chunk, and
/// everything received is either emitted or in the tail.
pub open spec fn accumulator_wf(a: ChunkAccumulator) -> bool {
    &&& a.buffer@.len() < CHUNK_TARGET_SIZE
    &&& a.next_index * CHUNK_TARGET_SIZE + a.buffer@.len() == a.total_bytes
}

/// Copies `v[from..to]` out as a fresh vector.
fn copy_range(v: &Vec<u8>, from: usize, to: usize) -> (r: Vec<u8>)
    requires
        from <= to <= v@.len(),
    ensures
        r@ == v@.subrange(from as int, to as int),
{
    let mut r: Vec<u8> = Vec::new();
    let mut i = from;
    while i < to
        invariant
            from <= i <= to <= v@.len(),
            r@ == v@.subrange(from as int, i as int),
        decreases to - i,
    {
        r.push(v[i]);
        i = i + 1;
        proof {
            assert(r@ =~= v@.subrange(from as int, i as int));
        }
    }
    r
}

/// One more chunk extends the flattened run at its end.
proof fn lemma_flatten_snoc(chunks: Seq<ArchiveChunk>, c: ArchiveChunk)
    ensures
        flatten_chunks(chunks.push(c)) == flatten_chunks(chunks) + c.bytes@,
{
    assert(chunks.push(c).drop_last() =~= chunks);
    assert(chunks.push(c).last() == c);
}

impl ChunkAccumulator {
    /// An empty accumulator at the first chunk index.
    pub fn new() -> (r: ChunkAccumulator)
        ensures
            accumulator_wf(r),
            r.buffer@.len() == 0,
            r.next_index == 0,
            r.total_bytes == 0,
    {
        ChunkAccumulator { buffer: Vec::new(), next_index: 0, total_bytes: 0 }
    }

    /// Takes the next piece of the stream and emits every full chunk it
    /// completes: each exactly the target size, consecutively indexed,
    /// and together with the kept tail exactly the bytes received.
    pub fn push_bytes(&mut self, data: &Vec<u8>) -> (r: Vec<ArchiveChunk>)
        requires
            accumulator_wf(*old(self)),
            old(self).total_bytes + data@.len() <= u64::MAX,
        ensures
            accumulator_wf(*final(self)),
            final(self).total_bytes == old(self).total_bytes + data@.len(),
            final(self).next_index == old(self).next_index + r@.len(),
            forall|i: int|
                0 <= i < r@.len() ==> ((#[trigger] r@[i]).index == old(self).next_index + i
                    && r@[i].bytes@.len() == CHUNK_TARGET_SIZE),
            old(self).buffer@ + data@ == flatten_chunks(r@) + final(self).buffer@,
    {
        let chunk_size: usize = CHUNK_TARGET_SIZE as usize;
        let mut work: Vec<u8> = Vec::new();
        work.append(&mut self.buffer);
        let mut k: usize = 0;
        let dn = data.len();
        while k < dn
            invariant
                k <= dn == data@.len(),
                work@ == old(self).buffer@ + data@.subrange(0, k as int),
                self.next_index == old(self).next_index,
                self.total_bytes == old(self).total_bytes,
            decreases dn - k,
        {
            work.push(data[k]);
            k = k + 1;
            proof {
                assert(work@ =~= old(self).buffer@ + data@.subrange(0, k as int));
            }
        }
        proof {
            assert(data@.subrange(0, dn as int) =~= data@);
        }
        let wn = work.len();
        let mut out: Vec<ArchiveChunk> = Vec::new();
        let mut pos: usize = 0;
        proof {
            assert(flatten_chunks(out@) =~= Seq::<u8>::empty());
            assert(work@.subrange(0, 0) =~= Seq::<u8>::empty());
            assert(wn == old(self).buffer@.len() + data@.len());
        }
        while wn - pos >= chunk_size
            invariant
                pos <= wn == work@.len(),
                chunk_size == CHUNK_TARGET_SIZE,
                work@ == old(self).buffer@ + data@,
                wn == old(self).buffer@.len() + data@.len(),
                accumulator_wf(*old(self)),
                old(self).total_bytes + data@.len() <= u64::MAX,
                self.total_bytes == old(self).total_bytes,
                pos == out@.len() * CHUNK_TARGET_SIZE,
                self.next_index == old(self).next_index + out@.len(),
                self.next_index * CHUNK_TARGET_SIZE == old(self).next_index * CHUNK_TARGET_SIZE
                    + pos,
                forall|i: int|
                    0 <= i < out@.len() ==> ((#[trigger] out@[i]).index == old(self).next_index
                        + i && out@[i].bytes@.len() == CHUNK_TARGET_SIZE),
                flatten_chunks(out@) == work@.subrange(0, pos as int),
            decreases wn - pos,
        {
            let bytes = copy_range(&work, pos, pos + chunk_size);
            proof {
                // the next index stays clear of overflow: its bytes fit
                // in what was ever received
                assert(old(self).next_index * CHUNK_TARGET_SIZE + wn <= u64::MAX);
                assert(self.next_index * CHUNK_TARGET_SIZE + CHUNK_TARGET_SIZE <= u64::MAX);
                assert(self.next_index < u64::MAX);
            }
            let chunk = ArchiveChunk { index: self.next_index, bytes };
            let ghost prev_out = out@;
            out.push(chunk);
            self.next_index = self.next_index + 1;
            proof {
                lemma_flatten_snoc(prev_out, out@.last());
                assert(flatten_chunks(out@) =~= work@.subrange(0, pos as int + chunk_size as int));
            }
            pos = pos + chunk_size;
        }
        self.buffer = copy_range(&work, pos, wn);
        self.total_bytes = self.total_bytes + (dn as u64);
        proof {
            assert(work@ =~= work@.subrange(0, pos as int) + work@.subrange(pos as int, wn as int));
        }
        out
    }

    /// Ends the stream: the final partial chunk, when the tail holds one.
    /// Afterwards the chunk count equals exactly the count the manifest
    /// derives from the stream's length — anything else is
    /// desynchronization, which the caller aborts on.
    pub fn finish(&mut self) -> (r: Option<ArchiveChunk>)
        requires
            accumulator_wf(*old(self)),
        ensures
            r is None <==> old(self).buffer@.len() == 0,
            r matches Some(c) ==> (c.index == old(self).next_index && c.bytes@ == old(
                self,
            ).buffer@ && final(self).next_index == old(self).next_index + 1),
            r is None ==> final(self).next_index == old(self).next_index,
            final(self).buffer@.len() == 0,
            final(self).total_bytes == old(self).total_bytes,
            final(self).next_index == crate::spec_total_chunks(final(self).total_bytes),
    {
        let r = if self.buffer.len() == 0 {
            None
        } else {
            proof {
                assert(self.next_index < u64::MAX) by {
                    assert(self.next_index * CHUNK_TARGET_SIZE <= self.total_bytes);
                }
            }
            let mut bytes: Vec<u8> = Vec::new();
            bytes.append(&mut self.buffer);
            let chunk = ArchiveChunk { index: self.next_index, bytes };
            self.next_index = self.next_index + 1;
            Some(chunk)
        };
        self.buffer = Vec::new();
        proof {
            assert(self.next_index == crate::spec_total_chunks(self.total_bytes));
        }
        r
    }
}

} // verus!
