//! The game splitter's logic: slicing a decompressed PGN stream into raw
//! game records, skipping already-published games after a restart,
//! content-hash keys, and the checkpoint discipline that makes the split
//! resumable.

use vstd::prelude::*;
use vstd::string::*;
use vstd::seq_lib::lemma_multiset_commutative;
use crate::model::{RawChessGame, RawChessGameSpec};
use crate::text::{find_sep, find_sep_from};

verus! {

broadcast use crate::text::lemma_find_sep;

/// The raw game records of a decompressed PGN stream, in source order: a
/// record is a header block, a blank line, a move-text block and a blank
/// line; a trailing fragment without both separators yields no record.
pub open spec fn spec_records(s: Seq<char>) -> Seq<RawChessGameSpec>
    decreases s.len(),
{
    let m = find_sep(s);
    if m == s.len() {
        Seq::empty()
    } else {
        let after = s.subrange(m + 2, s.len() as int);
        let k = find_sep(after);
        if k == after.len() {
            Seq::empty()
        } else {
            seq![
                RawChessGameSpec { metadata: s.subrange(0, m), moves: after.subrange(0, k) },
            ] + spec_records(after.subrange(k + 2, after.len() as int))
        }
    }
}

/// Mathematical values of a vector of raw games.
pub open spec fn raw_views(v: Seq<RawChessGame>) -> Seq<RawChessGameSpec> {
    Seq::new(v.len(), |i: int| v[i]@)
}

/// The records a split run publishes when the first `skip` complete
/// records are already on the topic: the remaining records, in source
/// order.
pub open spec fn published(s: Seq<char>, skip: int) -> Seq<RawChessGameSpec> {
    let rs = spec_records(s);
    if skip >= rs.len() {
        Seq::empty()
    } else {
        rs.subrange(skip, rs.len() as int)
    }
}

/// Slices a decompressed PGN stream into raw game records, dropping the
/// first `games_to_skip` of them: exactly the records a resumed run must
/// publish, in source order.
pub fn split_games(text: &str, games_to_skip: u64) -> (r: Vec<RawChessGame>)
    ensures
        raw_views(r@) == published(text@, games_to_skip as int),
{
    broadcast use crate::text::lemma_find_sep;

    let cs = crate::text::chars_of(text);
    let n = cs.len();
    let mut r: Vec<RawChessGame> = Vec::new();
    let mut produced: u64 = 0;
    let ghost mut consumed: Seq<RawChessGameSpec> = Seq::empty();
    let mut i: usize = 0;
    proof {
        assert(text@.subrange(0, n as int) =~= text@);
        assert(consumed + spec_records(text@) =~= spec_records(text@));
    }
    loop
        invariant
            i <= n == text@.len(),
            cs@ == text@,
            produced == consumed.len(),
            spec_records(text@) == consumed + spec_records(text@.subrange(i as int, n as int)),
            raw_views(r@) == (if games_to_skip >= consumed.len() {
                Seq::<RawChessGameSpec>::empty()
            } else {
                consumed.subrange(games_to_skip as int, consumed.len() as int)
            }),
        decreases n - i,
    {
        let ghost tail = text@.subrange(i as int, n as int);
        let m = find_sep_from(&cs, i);
        if m == n {
            proof {
                assert(spec_records(tail) =~= Seq::<RawChessGameSpec>::empty());
                assert(consumed + Seq::<RawChessGameSpec>::empty() =~= consumed);
                conclude_split(text@, consumed, raw_views(r@), games_to_skip as int);
            }
            return r;
        }
        let ghost after = tail.subrange(m - i + 2, tail.len() as int);
        proof {
            assert(after =~= text@.subrange(m + 2, n as int));
        }
        let k = find_sep_from(&cs, m + 2);
        proof {
            assert(find_sep(after) == k - (m + 2));
        }
        if k == n {
            proof {
                assert(spec_records(tail) =~= Seq::<RawChessGameSpec>::empty());
                assert(consumed + Seq::<RawChessGameSpec>::empty() =~= consumed);
                conclude_split(text@, consumed, raw_views(r@), games_to_skip as int);
            }
            return r;
        }
        let metadata = text.substring_char(i, m).to_owned();
        let moves = text.substring_char(m + 2, k).to_owned();
        let rec = RawChessGame { metadata, moves };
        proof {
            assert(rec@.metadata =~= tail.subrange(0, m - i));
            assert(rec@.moves =~= after.subrange(0, k - (m + 2)));
            assert(spec_records(tail) == seq![rec@] + spec_records(
                after.subrange(k - (m + 2) + 2, after.len() as int),
            ));
            assert(after.subrange(k - (m + 2) + 2, after.len() as int) =~= text@.subrange(
                k + 2,
                n as int,
            ));
        }
        proof {
            // the counter cannot overflow: every record takes characters
            lemma_records_bounded(text@);
            assert(consumed.len() + spec_records(tail).len() == spec_records(text@).len());
            assert(spec_records(tail).len() >= 1);
        }
        produced = produced + 1;
        let ghost old_out = r@;
        if produced > games_to_skip {
            r.push(rec);
        }
        proof {
            let old_consumed = consumed;
            consumed = consumed.push(rec@);
            assert(consumed =~= old_consumed + seq![rec@]);
            assert(spec_records(text@) == consumed + spec_records(
                text@.subrange(k + 2, n as int),
            )) by {
                assert((old_consumed + (seq![rec@] + spec_records(
                    text@.subrange(k + 2, n as int),
                ))) =~= (consumed + spec_records(text@.subrange(k + 2, n as int))));
            }
            if games_to_skip >= consumed.len() {
                assert(r@ == old_out);
                assert(raw_views(r@) =~= Seq::<RawChessGameSpec>::empty());
            } else {
                assert(r@ == old_out.push(rec));
                let skip = games_to_skip as int;
                let want = consumed.subrange(skip, consumed.len() as int);
                assert(raw_views(old_out).len() == old_out.len());
                assert forall|ii: int|
                    0 <= ii < want.len() implies raw_views(r@)[ii] == want[ii] by {
                    assert(raw_views(r@)[ii] == r@[ii]@);
                    if ii < old_out.len() {
                        assert(raw_views(old_out)[ii] == old_out[ii]@);
                        assert(old_out[ii]@ == old_consumed[skip + ii]);
                        assert(consumed[skip + ii] == old_consumed[skip + ii]);
                    } else {
                        assert(r@[ii] == rec);
                        assert(want[ii] == consumed[consumed.len() - 1]);
                    }
                }
                assert(raw_views(r@).len() == want.len());
                assert(raw_views(r@) =~= want);
            }
        }
        i = k + 2;
    }
}

/// There are no more records than characters.
proof fn lemma_records_bounded(s: Seq<char>)
    ensures
        spec_records(s).len() <= s.len(),
    decreases s.len(),
{
    broadcast use crate::text::lemma_find_sep;

    let m = find_sep(s);
    if m == s.len() {
    } else {
        let after = s.subrange(m + 2, s.len() as int);
        let k = find_sep(after);
        if k == after.len() {
        } else {
            lemma_records_bounded(after.subrange(k + 2, after.len() as int));
        }
    }
}

/// Closes the split loop: when no further record can be read, what was
/// produced is exactly what a run with this skip must publish.
proof fn conclude_split(
    s: Seq<char>,
    consumed: Seq<RawChessGameSpec>,
    out: Seq<RawChessGameSpec>,
    skip: int,
)
    requires
        skip >= 0,
        spec_records(s) == consumed,
        out == (if skip >= consumed.len() {
            Seq::<RawChessGameSpec>::empty()
        } else {
            consumed.subrange(skip, consumed.len() as int)
        }),
    ensures
        out == published(s, skip),
{
}

/// Law: splitting is idempotent under a crash. A first run that was
/// killed after publishing `crash_point` records, with `checkpoint`
/// persisted, followed by a rerun that skips `checkpoint` records,
/// publishes every record of the stream, and duplicates exactly the
/// window between the checkpoint and the crash — duplicates only, no
/// losses.
pub proof fn lemma_split_replay(text: Seq<char>, checkpoint: int, crash_point: int)
    requires
        0 <= checkpoint <= crash_point <= spec_records(text).len(),
    ensures
        (published(text, 0).subrange(0, crash_point) + published(text, checkpoint)).to_multiset()
            == spec_records(text).to_multiset().add(
            spec_records(text).subrange(checkpoint, crash_point).to_multiset(),
        ),
{
    let rs = spec_records(text);
    let first_run = published(text, 0).subrange(0, crash_point);
    let rerun = published(text, checkpoint);
    assert(published(text, 0) =~= rs);
    if checkpoint == rs.len() {
        assert(rerun =~= Seq::<RawChessGameSpec>::empty());
    }
    let dup = rs.subrange(checkpoint, crash_point);
    let rest = rs.subrange(crash_point, rs.len() as int);
    assert(first_run + dup =~= rs.subrange(0, crash_point) + rs.subrange(checkpoint, crash_point));
    assert(rerun =~= dup + rest) by {
        if checkpoint < rs.len() {
            assert(rerun =~= rs.subrange(checkpoint, rs.len() as int));
        } else {
            assert(dup =~= Seq::<RawChessGameSpec>::empty());
            assert(rest =~= Seq::<RawChessGameSpec>::empty());
        }
    }
    assert(rs =~= rs.subrange(0, crash_point) + rest);
    lemma_multiset_commutative(first_run, rerun);
    lemma_multiset_commutative(dup, rest);
    lemma_multiset_commutative(rs.subrange(0, crash_point), rest);
    assert((first_run + rerun).to_multiset() =~= first_run.to_multiset().add(
        dup.to_multiset(),
    ).add(rest.to_multiset()));
    assert(rs.to_multiset().add(dup.to_multiset()) =~= first_run.to_multiset().add(
        rest.to_multiset(),
    ).add(dup.to_multiset()));
    assert(first_run.to_multiset().add(rest.to_multiset()).add(dup.to_multiset()) =~= first_run
        .to_multiset().add(dup.to_multiset()).add(rest.to_multiset()));
}

/// The FNV-1a prime.
pub const FNV_PRIME: u64 = 1099511628211;

/// The FNV-1a offset basis.
pub const FNV_OFFSET: u64 = 14695981039346656037;

/// FNV-1a hash of a byte string: fold of xor-then-multiply, wrapping.
pub open spec fn fnv1a(bytes: Seq<u8>) -> u64
    decreases bytes.len(),
{
    if bytes.len() == 0 {
        FNV_OFFSET
    } else {
        vstd::wrapping::u64_specs::wrapping_mul(
            fnv1a(bytes.drop_last()) ^ (bytes.last() as u64),
            FNV_PRIME,
        )
    }
}

/// The 64-bit content hash of an encoded message, used as its broker key
/// so that duplicates collide on the same partition. FNV-1a is stable
/// across processes and releases, which the key must be; a hasher with
/// unspecified or per-process state could not be given a contract.
pub fn content_hash(bytes: &Vec<u8>) -> (r: u64)
    ensures
        r == fnv1a(bytes@),
{
    let mut acc: u64 = FNV_OFFSET;
    let mut i: usize = 0;
    let n = bytes.len();
    while i < n
        invariant
            i <= n == bytes@.len(),
            acc == fnv1a(bytes@.subrange(0, i as int)),
        decreases n - i,
    {
        let b = bytes[i];
        proof {
            assert(bytes@.subrange(0, i as int + 1).drop_last() =~= bytes@.subrange(0, i as int));
            assert(bytes@.subrange(0, i as int + 1).last() == b);
        }
        acc = (acc ^ (b as u64)).wrapping_mul(FNV_PRIME);
        i = i + 1;
    }
    proof {
        assert(bytes@.subrange(0, n as int) =~= bytes@);
    }
    acc
}

/// Name for what zstd decompression yields: a function of the compressed
/// bytes alone.
pub uninterp spec fn zstd_plain(compressed: Seq<u8>) -> Seq<u8>;

/// Relies on zstd::stream::decode_all: decompresses one zstd frame
/// sequence; the result depends on the compressed bytes alone.
#[verifier::external_body]
pub fn zstd_decode_all(data: &Vec<u8>) -> (r: Option<Vec<u8>>)
    ensures
        r matches Some(v) ==> v@ == zstd_plain(data@),
{
    zstd::stream::decode_all(data.as_slice()).ok()
}

/// Name for what lossy UTF-8 decoding yields: a function of the bytes
/// alone.
pub uninterp spec fn utf8_lossy(bytes: Seq<u8>) -> Seq<char>;

/// Relies on String::from_utf8_lossy: replaces invalid sequences with the
/// replacement character and keeps valid ones; the result depends on the
/// bytes alone.
#[verifier::external_body]
pub fn bytes_to_string_lossy(b: &Vec<u8>) -> (r: String)
    ensures
        r@ == utf8_lossy(b@),
        vstd::utf8::valid_utf8(b@) ==> vstd::utf8::encode_utf8(r@) == b@,
{
    String::from_utf8_lossy(b.as_slice()).into_owned()
}

/// Tracks the split position persisted to object storage: the checkpoint
/// never runs ahead of the records produced, and never moves backwards.
pub struct SplitProgress {
    pub games_produced: u64,
    pub checkpoint: u64,
}

/// The checkpoint is covered by what was produced.
pub open spec fn split_progress_wf(p: SplitProgress) -> bool {
    p.checkpoint <= p.games_produced
}

impl SplitProgress {
    /// A resumed run: the persisted checkpoint's games count as already
    /// produced.
    pub fn resume(games_to_skip: u64) -> (r: SplitProgress)
        ensures
            split_progress_wf(r),
            r.games_produced == games_to_skip,
            r.checkpoint == games_to_skip,
    {
        SplitProgress { games_produced: games_to_skip, checkpoint: games_to_skip }
    }

    /// Counts one produced record.
    pub fn record_produced(&mut self)
        requires
            split_progress_wf(*old(self)),
            old(self).games_produced < u64::MAX,
        ensures
            split_progress_wf(*final(self)),
            final(self).games_produced == old(self).games_produced + 1,
            final(self).checkpoint == old(self).checkpoint,
    {
        self.games_produced = self.games_produced + 1;
    }

    /// Takes the value to persist as the new checkpoint. The value never
    /// decreases from one persist to the next: `get_split_checkpoint` is
    /// non-decreasing over wall time.
    pub fn persist_checkpoint(&mut self) -> (r: u64)
        requires
            split_progress_wf(*old(self)),
        ensures
            split_progress_wf(*final(self)),
            r == final(self).checkpoint == old(self).games_produced,
            final(self).checkpoint >= old(self).checkpoint,
            final(self).games_produced == old(self).games_produced,
    {
        self.checkpoint = self.games_produced;
        self.checkpoint
    }
}

} // verus!
