//! The relational sink's compute and its idempotence: the game id from
//! the message key, the per-move row keys, the rows to insert, and the
//! law that inserting the same game twice leaves the tables as one
//! insert does — every write is insert-if-absent, as the database's
//! conflict clause makes it.

use vstd::prelude::*;
use vstd::string::*;
use crate::entity::{ChessGameMoveEntity, MoveRowSpec, game_move_entities, spec_move_rows};
use crate::model::{ChessGame, ChessGameSpec};
use crate::text::{dec_str, push_dec_u64};

verus! {

/// Name for the standard base64 text of a byte string: a function of the
/// bytes alone.
pub uninterp spec fn base64_of(bytes: Seq<u8>) -> Seq<char>;

/// Relies on base64::encode: the standard alphabet with padding, four
/// characters for every started group of three bytes; the result depends
/// on the bytes alone.
#[verifier::external_body]
pub fn base64_key(bytes: &Vec<u8>) -> (r: String)
    ensures
        r@ == base64_of(bytes@),
        r@.len() == 4 * ((bytes@.len() + 2) / 3),
{
    base64::encode(bytes.as_slice())
}

/// The primary key of a move row: the game id, a colon, and the 1-based
/// entry index.
pub open spec fn move_row_key(game_id: Seq<char>, move_id: u32) -> Seq<char> {
    game_id + seq![':'] + dec_str(move_id as nat)
}

/// Builds a move row's primary key.
pub fn move_row_key_text(game_id: &str, move_id: u32) -> (r: String)
    ensures
        r@ == move_row_key(game_id@, move_id),
{
    proof {
        reveal_strlit(":");
    }
    let mut out = game_id.to_owned();
    out.append(":");
    push_dec_u64(&mut out, move_id as u64);
    out
}

/// The rows the relational sink writes for one consumed message: the
/// game id derived from the message key, and one move row per entry
/// holding a normal move, under its 1-based entry index.
pub fn relational_rows(key: &Vec<u8>, game: &ChessGame) -> (r: (String, Vec<ChessGameMoveEntity>))
    requires
        game.game_entries@.len() <= u32::MAX,
    ensures
        r.0@ == base64_of(key@),
        r.1.deep_view() == spec_move_rows(base64_of(key@), game@.game_entries),
{
    let game_id = base64_key(key);
    let rows = game_move_entities(game_id.as_str(), game);
    (game_id, rows)
}

/// The relational tables, abstractly: each keyed row maps its primary
/// key to its content.
pub ghost struct RelationalDbSpec {
    pub games: Map<Seq<char>, ChessGameSpec>,
    pub moves: Map<Seq<char>, MoveRowSpec>,
}

/// Inserts a game row unless its key is taken: the database's conflict
/// clause drops the duplicate.
pub open spec fn put_game_row(
    m: Map<Seq<char>, ChessGameSpec>,
    k: Seq<char>,
    v: ChessGameSpec,
) -> Map<Seq<char>, ChessGameSpec> {
    if m.dom().contains(k) {
        m
    } else {
        m.insert(k, v)
    }
}

/// Inserts a move row unless its key is taken.
pub open spec fn put_move_row(
    m: Map<Seq<char>, MoveRowSpec>,
    k: Seq<char>,
    v: MoveRowSpec,
) -> Map<Seq<char>, MoveRowSpec> {
    if m.dom().contains(k) {
        m
    } else {
        m.insert(k, v)
    }
}

/// Applies a run of move rows in order, each under its primary key.
pub open spec fn apply_move_rows(
    m: Map<Seq<char>, MoveRowSpec>,
    game_id: Seq<char>,
    rows: Seq<MoveRowSpec>,
) -> Map<Seq<char>, MoveRowSpec>
    decreases rows.len(),
{
    if rows.len() == 0 {
        m
    } else {
        put_move_row(
            apply_move_rows(m, game_id, rows.drop_last()),
            move_row_key(game_id, rows.last().move_id),
            rows.last(),
        )
    }
}

/// What one consumed message does to the tables: its move rows, then its
/// game row, every write insert-if-absent.
pub open spec fn apply_parsed_game(
    db: RelationalDbSpec,
    game_id: Seq<char>,
    g: ChessGameSpec,
) -> RelationalDbSpec {
    RelationalDbSpec {
        games: put_game_row(db.games, game_id, g),
        moves: apply_move_rows(db.moves, game_id, spec_move_rows(game_id, g.game_entries)),
    }
}

/// Applying move rows never removes a binding and never overwrites one.
proof fn lemma_apply_moves_preserves(
    m: Map<Seq<char>, MoveRowSpec>,
    game_id: Seq<char>,
    rows: Seq<MoveRowSpec>,
    k: Seq<char>,
)
    requires
        m.dom().contains(k),
    ensures
        apply_move_rows(m, game_id, rows).dom().contains(k),
        apply_move_rows(m, game_id, rows)[k] == m[k],
    decreases rows.len(),
{
    if rows.len() == 0 {
    } else {
        lemma_apply_moves_preserves(m, game_id, rows.drop_last(), k);
    }
}

/// After applying a run of move rows, every row's key is bound.
proof fn lemma_apply_moves_covers(
    m: Map<Seq<char>, MoveRowSpec>,
    game_id: Seq<char>,
    rows: Seq<MoveRowSpec>,
    i: int,
)
    requires
        0 <= i < rows.len(),
    ensures
        apply_move_rows(m, game_id, rows).dom().contains(
            move_row_key(game_id, rows[i].move_id),
        ),
    decreases rows.len(),
{
    if i == rows.len() - 1 {
        assert(rows.last() == rows[i]);
    } else {
        lemma_apply_moves_covers(m, game_id, rows.drop_last(), i);
        assert(rows.drop_last()[i] == rows[i]);
    }
}

/// Applying move rows whose keys are all bound already changes nothing.
proof fn lemma_apply_moves_noop(
    m: Map<Seq<char>, MoveRowSpec>,
    game_id: Seq<char>,
    rows: Seq<MoveRowSpec>,
)
    requires
        forall|i: int|
            0 <= i < rows.len() ==> m.dom().contains(
                #[trigger] move_row_key(game_id, rows[i].move_id),
            ),
    ensures
        apply_move_rows(m, game_id, rows) == m,
    decreases rows.len(),
{
    if rows.len() == 0 {
    } else {
        assert forall|i: int|
            0 <= i < rows.drop_last().len() implies m.dom().contains(
            #[trigger] move_row_key(game_id, rows.drop_last()[i].move_id),
        ) by {
            assert(rows.drop_last()[i] == rows[i]);
        }
        lemma_apply_moves_noop(m, game_id, rows.drop_last());
        assert(rows[rows.len() - 1] == rows.last());
    }
}

/// Law: the relational sink is idempotent. Consuming the same parsed
/// game twice, under the same key, leaves the tables exactly as one
/// consumption does: the second pass finds every row's key taken and
/// writes nothing.
pub proof fn lemma_sink_idempotent(db: RelationalDbSpec, game_id: Seq<char>, g: ChessGameSpec)
    ensures
        apply_parsed_game(apply_parsed_game(db, game_id, g), game_id, g) == apply_parsed_game(
            db,
            game_id,
            g,
        ),
{
    let once = apply_parsed_game(db, game_id, g);
    let rows = spec_move_rows(game_id, g.game_entries);
    assert(once.games.dom().contains(game_id));
    assert(put_game_row(once.games, game_id, g) == once.games);
    assert forall|i: int|
        0 <= i < rows.len() implies once.moves.dom().contains(
        #[trigger] move_row_key(game_id, rows[i].move_id),
    ) by {
        lemma_apply_moves_covers(db.moves, game_id, rows, i);
    }
    lemma_apply_moves_noop(once.moves, game_id, rows);
}

} // verus!
