//! Core of a chess-game data pipeline: it turns raw PGN (Portable Game
//! Notation) records into a structured, move-indexed game model and prepares
//! that model for a relational sink, a CSV sink and a filesystem import.
//!
//! The verified library holds the pipeline's logic: PGN record splitting,
//! the PGN visitor state machine, the wire codec, entity projections and the
//! commit/checkpoint discipline. Broker, object-storage and database I/O
//! live outside, in the surrounding application.

pub mod codec;
pub mod config;
pub mod csv;
pub mod entity;
pub mod fetcher;
pub mod hdfs;
pub mod dates;
pub mod pgn;
pub mod reader;
pub mod san;
pub mod sink;
pub mod splitter;
pub mod lichess;
pub mod model;
pub mod progress;
pub mod queue;
pub mod text;

use vstd::prelude::*;

verus! {

/// Width in bytes at which an archive chunk is cut; the last chunk of a
/// file may be smaller.
pub const CHUNK_TARGET_SIZE: u64 = 104857600;

/// Number of whole chunks of `CHUNK_TARGET_SIZE` bytes needed to hold
/// `content_length` bytes, rounding up.
pub open spec fn spec_total_chunks(content_length: u64) -> u64 {
    ((content_length + CHUNK_TARGET_SIZE - 1) as int / CHUNK_TARGET_SIZE as int) as u64
}

/// Chunk count for a download of `content_length` bytes: the least number
/// of 100 MiB chunks that cover it.
pub fn total_chunks_for_length(content_length: u64) -> (r: u64)
    ensures
        r == spec_total_chunks(content_length),
        content_length <= r * CHUNK_TARGET_SIZE,
        content_length > 0 ==> (r - 1) * CHUNK_TARGET_SIZE < content_length,
{
    let whole = content_length / CHUNK_TARGET_SIZE;
    let rem = content_length % CHUNK_TARGET_SIZE;
    if rem == 0 {
        whole
    } else {
        whole + 1
    }
}

} // verus!
