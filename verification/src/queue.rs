//! Broker-facing records and names: the stable topic names, the
//! synced-file event record, random message keys, and the per-message
//! compute of the splitter and parser stages.

use vstd::prelude::*;
use vstd::string::*;
use crate::model::RawChessGame;
use crate::reader::ParseFailure;

verus! {

/// Topic of archive URLs to fetch.
pub const TOPIC_LICHESS_DATA_FILES: &'static str = "chess-lichess-data-files";

/// Topic of fully ingested archives.
pub const TOPIC_LICHESS_DATA_FILES_SYNCED: &'static str = "chess-lichess-data-files-synced";

/// Topic of raw game records.
pub const TOPIC_LICHESS_RAW_GAMES: &'static str = "chess-lichess-raw-games";

/// Topic of parsed games.
pub const TOPIC_CHESS_GAMES: &'static str = "chess-games";

/// Topic of recoverable parser errors.
pub const TOPIC_CHESS_GAME_PARSER_ERRORS: &'static str = "chess-game-parser-errors";

/// Topic of operational log records.
pub const TOPIC_CHESS_LOGS: &'static str = "chess-logs";

/// Marker for the streaming consumer context the application installs.
pub struct StreamingContext;

/// The `archive-file-synced` event: a fully ingested archive under its
/// logical path, cut into this many chunks.
pub struct SyncedFileMessage {
    pub path: String,
    pub total_chunks: u64,
}

impl SyncedFileMessage {
    /// An event for the archive at `path` with `total_chunks` chunks.
    pub fn new(path: String, total_chunks: u64) -> (r: Self)
        ensures
            r.path@ == path@,
            r.total_chunks == total_chunks,
    {
        SyncedFileMessage { path, total_chunks }
    }

    /// The archive's logical path.
    pub fn path(&self) -> (r: &str)
        ensures
            r@ == self.path@,
    {
        self.path.as_str()
    }

    /// How many chunks the archive was cut into.
    pub fn total_chunks(&self) -> (r: u64)
        ensures
            r == self.total_chunks,
    {
        self.total_chunks
    }
}

/// Relies on rand::Rng::fill via rand::thread_rng: twelve random bytes, a
/// fresh key for a published game or error.
#[verifier::external_body]
pub fn random_key() -> (r: Vec<u8>)
    ensures
        r@.len() == 12,
{
    let mut id = [0u8; 12];
    rand::Rng::fill(&mut rand::thread_rng(), &mut id);
    id.to_vec()
}

/// Relies on rand's Alphanumeric distribution: sixteen random
/// alphanumeric characters, a file key or a transactional id suffix.
#[verifier::external_body]
pub fn random_alphanumeric_key() -> (r: String)
    ensures
        r@.len() == 16,
{
    rand::Rng::sample_iter(rand::thread_rng(), &rand::distributions::Alphanumeric).take(
        16,
    ).map(char::from).collect()
}

/// One parser-stage step on one raw-games payload: decode the record,
/// read the game, and encode the parsed game for the wire; a rejected
/// game yields its errors to publish instead, and a fatal failure stops
/// the stage. The contract pins the outcome for every payload that is
/// the encoding of a record.
pub fn process_raw_game(payload: &Vec<u8>) -> (r: Result<Vec<u8>, ParseFailure>)
    ensures
        forall|raw: crate::model::RawChessGameSpec|
            payload@ == #[trigger] crate::codec::spec_enc_raw_game(raw) ==> match
                crate::reader::spec_parse_game(raw.metadata, raw.moves) {
                None => r matches Err(f) && f is Fatal,
                Some(Ok(g)) => r matches Ok(enc) && enc@ == crate::codec::spec_enc_game(g),
                Some(Err(errs)) => r matches Err(f) && (f matches ParseFailure::Rejected(es)
                    && es.deep_view() == errs),
            },
{
    let raw = match crate::codec::decode_raw_game(payload) {
        Some(raw) => raw,
        None => {
            proof {
                reveal_strlit("Undecodable raw game payload");
            }
            return Err(ParseFailure::Fatal(String::from_str("Undecodable raw game payload")));
        },
    };
    match crate::reader::parse_game(&raw) {
        Ok(game) => Ok(crate::codec::encode_game(&game)),
        Err(f) => Err(f),
    }
}

/// The key and payload under which the splitter publishes one record:
/// the encoded record, keyed by the varint of its content hash.
pub fn prepare_game_message(rec: &RawChessGame) -> (r: (Vec<u8>, Vec<u8>))
    ensures
        r.1@ == crate::codec::spec_enc_raw_game(rec@),
        r.0@ == crate::codec::spec_varint(
            crate::splitter::fnv1a(crate::codec::spec_enc_raw_game(rec@)),
        ),
{
    let payload = crate::codec::encode_raw_game(rec);
    let hash = crate::splitter::content_hash(&payload);
    let mut key: Vec<u8> = Vec::new();
    crate::codec::enc_u64(&mut key, hash);
    proof {
        assert(key@ =~= crate::codec::spec_varint(
            crate::splitter::fnv1a(crate::codec::spec_enc_raw_game(rec@)),
        ));
    }
    (key, payload)
}

} // verus!
