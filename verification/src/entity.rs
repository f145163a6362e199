//! Flat projections of a parsed game for the sinks: the game row, the
//! move rows and the evaluation rows, with the 1-based move indexing that
//! ties a row back to its entry.

use vstd::prelude::*;
use vstd::string::*;
use crate::model::{
    ChessGame, GameEntry, NormalSan, PlayerTitle, file_code, file_code_exec, rank_code,
    rank_code_exec, result_code, result_code_exec, role_code, role_code_exec, termination_code,
    termination_code_exec, title_code,
};
use crate::dates::{
    Date, MAX_EPOCH_SECONDS, MIN_EPOCH_SECONDS, civil_from_days_exec, day_of_epoch,
    day_of_epoch_exec, day_string, day_string_of, days_from_civil, valid_date,
};

verus! {

/// One row of the games table.
#[derive(Clone, Debug)]
pub struct ChessGameEntity {
    pub id: String,
    pub event_name: String,
    pub link: String,
    pub date: Option<i64>,
    pub black_player_name: String,
    pub black_player_elo: u32,
    pub black_player_title: Option<String>,
    pub white_player_name: String,
    pub white_player_elo: u32,
    pub white_player_title: Option<String>,
    pub result: u8,
    pub rating_outcome_for_white: Option<i32>,
    pub rating_outcome_for_black: Option<i32>,
    pub eco: String,
    pub opening: String,
    pub timecontrol_duration: Option<u32>,
    pub timecontrol_increment: Option<u32>,
    pub termination: u32,
    pub day: String,
}

/// One row of the moves table.
#[derive(Clone, Debug)]
pub struct ChessGameMoveEntity {
    pub game_id: String,
    pub move_id: u32,
    pub from_file: Option<u8>,
    pub from_rank: Option<u8>,
    pub to_file: Option<u8>,
    pub to_rank: Option<u8>,
    pub capture: bool,
    pub promotion: Option<u8>,
    pub is_check: bool,
    pub is_checkmate: bool,
}

/// One row of the evaluation table, in centipawns.
#[derive(Clone, Debug)]
pub struct ChessGameCommentEval {
    pub game_id: String,
    pub move_id: u32,
    pub eval_centipawns: i64,
}

impl ChessGameEntity {
    /// The row's key.
    pub fn id(&self) -> (r: &str)
        ensures
            r@ == self.id@,
    {
        self.id.as_str()
    }

    /// The opening's name.
    pub fn opening(&self) -> (r: &str)
        ensures
            r@ == self.opening@,
    {
        self.opening.as_str()
    }

    /// White's rating.
    pub fn white_player_elo(&self) -> (r: u32)
        ensures
            r == self.white_player_elo,
    {
        self.white_player_elo
    }
}

impl ChessGameMoveEntity {
    /// The owning game's key.
    pub fn game_id(&self) -> (r: &str)
        ensures
            r@ == self.game_id@,
    {
        self.game_id.as_str()
    }

    /// The 1-based index of this move's entry in the game.
    pub fn move_id(&self) -> (r: u32)
        ensures
            r == self.move_id,
    {
        self.move_id
    }

    /// Source file code, when disambiguated.
    pub fn from_file(&self) -> (r: Option<u8>)
        ensures
            r == self.from_file,
    {
        self.from_file
    }

    /// Source rank code, when disambiguated.
    pub fn from_rank(&self) -> (r: Option<u8>)
        ensures
            r == self.from_rank,
    {
        self.from_rank
    }

    /// Target file code.
    pub fn to_file(&self) -> (r: Option<u8>)
        ensures
            r == self.to_file,
    {
        self.to_file
    }

    /// Target rank code.
    pub fn to_rank(&self) -> (r: Option<u8>)
        ensures
            r == self.to_rank,
    {
        self.to_rank
    }
}

/// Short title text of a title code, the table of the glossary; codes
/// outside the table are rejected by the caller.
pub open spec fn spec_title_name(id: int) -> Seq<char> {
    if id == 0 {
        "FM"@
    } else if id == 1 {
        "IM"@
    } else if id == 2 {
        "NM"@
    } else if id == 3 {
        "BOT"@
    } else if id == 4 {
        "CM"@
    } else if id == 5 {
        "GM"@
    } else if id == 6 {
        "WIM"@
    } else if id == 7 {
        "WFM"@
    } else if id == 8 {
        "LM"@
    } else if id == 9 {
        "WGM"@
    } else {
        "WCM"@
    }
}

/// Title text of a numeric title code.
pub fn title_name_from_id(id: i32) -> (r: String)
    requires
        0 <= id <= 10,
    ensures
        r@ == spec_title_name(id as int),
{
    let s: &str = if id == 0 {
        "FM"
    } else if id == 1 {
        "IM"
    } else if id == 2 {
        "NM"
    } else if id == 3 {
        "BOT"
    } else if id == 4 {
        "CM"
    } else if id == 5 {
        "GM"
    } else if id == 6 {
        "WIM"
    } else if id == 7 {
        "WFM"
    } else if id == 8 {
        "LM"
    } else if id == 9 {
        "WGM"
    } else {
        "WCM"
    };
    String::from_str(s)
}

/// The day partition key names the civil date holding the game's epoch
/// second: the day string of the valid date whose day count is the
/// date's, or the all-zero day when the game has none.
pub open spec fn is_day_field(date: Option<i64>, day: Seq<char>) -> bool {
    match date {
        Some(s) => exists|d: Date|
            valid_date(d) && #[trigger] days_from_civil(d) == day_of_epoch(s as int) && day
                == day_string_of(d),
        None => day == "0000-00-00"@,
    }
}

/// Projects a parsed game onto its game row.
pub fn into_chess_game_entity(id: String, game: ChessGame) -> (r: ChessGameEntity)
    requires
        game@.date matches Some(d) ==> MIN_EPOCH_SECONDS <= d <= MAX_EPOCH_SECONDS,
    ensures
        r.id@ == id@,
        r.event_name@ == game@.event_name,
        r.link@ == game@.link,
        r.date == game@.date,
        r.black_player_name@ == game@.black_player.name,
        r.black_player_elo == game@.black_player.elo,
        (r.black_player_title matches Some(t) <==> game@.black_player.title is Some),
        r.black_player_title matches Some(t) ==> t@ == spec_title_name(
            title_code(game@.black_player.title.unwrap()) as int,
        ),
        r.white_player_name@ == game@.white_player.name,
        r.white_player_elo == game@.white_player.elo,
        (r.white_player_title matches Some(t) <==> game@.white_player.title is Some),
        r.white_player_title matches Some(t) ==> t@ == spec_title_name(
            title_code(game@.white_player.title.unwrap()) as int,
        ),
        r.result == result_code(game@.result),
        r.rating_outcome_for_white == game@.rating_outcome_for_white,
        r.rating_outcome_for_black == game@.rating_outcome_for_black,
        r.eco@ == game@.eco,
        r.opening@ == game@.opening,
        (r.timecontrol_duration matches Some(d) <==> game@.timecontrol is Some),
        game@.timecontrol matches Some(tc) ==> r.timecontrol_duration == Some(tc.duration)
            && r.timecontrol_increment == Some(tc.increment),
        r.termination == termination_code(game@.termination) as u32,
        is_day_field(game@.date, r.day@),
{
    let day = match game.date {
        Some(s) => {
            let d = civil_from_days_exec(day_of_epoch_exec(s));
            day_string(&d)
        },
        None => {
            proof {
                reveal_strlit("0000-00-00");
            }
            String::from_str("0000-00-00")
        },
    };
    ChessGameEntity {
        id,
        event_name: game.event_name,
        link: game.link,
        date: game.date,
        black_player_name: game.black_player.name,
        black_player_elo: game.black_player.elo,
        black_player_title: match game.black_player.title {
            Some(t) => Some(title_name_from_id(title_code_as_i32(t))),
            None => None,
        },
        white_player_name: game.white_player.name,
        white_player_elo: game.white_player.elo,
        white_player_title: match game.white_player.title {
            Some(t) => Some(title_name_from_id(title_code_as_i32(t))),
            None => None,
        },
        result: result_code_exec(game.result),
        rating_outcome_for_white: game.rating_outcome_for_white,
        rating_outcome_for_black: game.rating_outcome_for_black,
        eco: game.eco,
        opening: game.opening,
        timecontrol_duration: match game.timecontrol {
            Some(tc) => Some(tc.duration),
            None => None,
        },
        timecontrol_increment: match game.timecontrol {
            Some(tc) => Some(tc.increment),
            None => None,
        },
        termination: termination_code_exec(game.termination) as u32,
        day,
    }
}

/// Title code as the signed integer the title table speaks.
fn title_code_as_i32(t: PlayerTitle) -> (r: i32)
    ensures
        r == title_code(t) as i32,
        0 <= r <= 10,
{
    crate::model::title_code_exec(t) as i32
}

/// Projects one normal move onto its move row, under its 1-based entry
/// index.
pub fn into_chess_game_move_entity(
    game_id: &str,
    move_id: u32,
    san: &NormalSan,
    is_check: bool,
    is_checkmate: bool,
) -> (r: ChessGameMoveEntity)
    ensures
        r@ == spec_move_row(game_id@, move_id, *san, is_check, is_checkmate),
{
    let r = ChessGameMoveEntity {
        game_id: game_id.to_owned(),
        move_id,
        from_file: match san.file {
            Some(f) => Some(file_code_exec(f)),
            None => None,
        },
        from_rank: match san.rank {
            Some(k) => Some(rank_code_exec(k)),
            None => None,
        },
        to_file: Some(file_code_exec(san.to.file)),
        to_rank: Some(rank_code_exec(san.to.rank)),
        capture: san.capture,
        promotion: match san.promotion {
            Some(p) => Some(role_code_exec(p)),
            None => None,
        },
        is_check,
        is_checkmate,
    };
    r
}

/// The move row of a normal move.
pub open spec fn spec_move_row(
    game_id: Seq<char>,
    move_id: u32,
    san: NormalSan,
    is_check: bool,
    is_checkmate: bool,
) -> MoveRowSpec {
    MoveRowSpec {
        game_id,
        move_id,
        from_file: match san.file {
            Some(f) => Some(file_code(f)),
            None => None,
        },
        from_rank: match san.rank {
            Some(k) => Some(rank_code(k)),
            None => None,
        },
        to_file: Some(file_code(san.to.file)),
        to_rank: Some(rank_code(san.to.rank)),
        capture: san.capture,
        promotion: match san.promotion {
            Some(p) => Some(role_code(p)),
            None => None,
        },
        is_check,
        is_checkmate,
    }
}

/// Mathematical value of a move row.
pub ghost struct MoveRowSpec {
    pub game_id: Seq<char>,
    pub move_id: u32,
    pub from_file: Option<u8>,
    pub from_rank: Option<u8>,
    pub to_file: Option<u8>,
    pub to_rank: Option<u8>,
    pub capture: bool,
    pub promotion: Option<u8>,
    pub is_check: bool,
    pub is_checkmate: bool,
}

impl DeepView for ChessGameMoveEntity {
    type V = MoveRowSpec;

    open spec fn deep_view(&self) -> MoveRowSpec {
        self@
    }
}

impl View for ChessGameMoveEntity {
    type V = MoveRowSpec;

    open spec fn view(&self) -> MoveRowSpec {
        MoveRowSpec {
            game_id: self.game_id@,
            move_id: self.move_id,
            from_file: self.from_file,
            from_rank: self.from_rank,
            to_file: self.to_file,
            to_rank: self.to_rank,
            capture: self.capture,
            promotion: self.promotion,
            is_check: self.is_check,
            is_checkmate: self.is_checkmate,
        }
    }
}

/// Projects one evaluation comment onto its row.
pub fn into_chess_game_comment_eval_entity(game_id: &str, move_id: u32, eval_centipawns: i64) -> (r:
    ChessGameCommentEval)
    ensures
        r.game_id@ == game_id@,
        r.move_id == move_id,
        r.eval_centipawns == eval_centipawns,
{
    ChessGameCommentEval { game_id: game_id.to_owned(), move_id, eval_centipawns }
}

/// The move rows of a game's entries: one per entry holding a normal
/// move, under the 1-based index of that entry — comments, glyphs and
/// other SAN shapes advance the index without a row.
pub open spec fn spec_move_rows(game_id: Seq<char>, entries: Seq<GameEntry>) -> Seq<MoveRowSpec>
    decreases entries.len(),
{
    if entries.len() == 0 {
        Seq::empty()
    } else {
        spec_move_rows(game_id, entries.drop_last()) + (match entries.last().san {
            Some(s) => match s.normal {
                Some(nm) => seq![
                    spec_move_row(
                        game_id,
                        entries.len() as u32,
                        nm,
                        flag_of(s.is_check),
                        flag_of(s.is_checkmate),
                    ),
                ],
                None => Seq::empty(),
            },
            None => Seq::empty(),
        })
    }
}

/// A flag that defaults to false when the suffix was absent.
pub open spec fn flag_of(b: Option<bool>) -> bool {
    match b {
        Some(v) => v,
        None => false,
    }
}

/// Law: every emitted move row carries as `move_id` the 1-based index of
/// the entry its move came from, and that entry holds exactly that move —
/// comments and glyphs advance the index too.
pub proof fn lemma_move_indexing(game_id: Seq<char>, entries: Seq<GameEntry>, j: int)
    requires
        entries.len() <= u32::MAX,
        0 <= j < spec_move_rows(game_id, entries).len(),
    ensures
        ({
            let row = spec_move_rows(game_id, entries)[j];
            &&& 1 <= row.move_id <= entries.len()
            &&& entries[row.move_id - 1].san matches Some(s) && s.normal matches Some(nm) && row
                == spec_move_row(
                game_id,
                row.move_id,
                nm,
                flag_of(s.is_check),
                flag_of(s.is_checkmate),
            )
        }),
    decreases entries.len(),
{
    let rows = spec_move_rows(game_id, entries);
    let prev = spec_move_rows(game_id, entries.drop_last());
    if j < prev.len() {
        lemma_move_indexing(game_id, entries.drop_last(), j);
        let row = prev[j];
        assert(entries.drop_last()[row.move_id - 1] == entries[row.move_id - 1]);
        assert(rows[j] == prev[j]);
    } else {
        assert(entries.last().san is Some);
        let s = entries.last().san.unwrap();
        assert(s.normal is Some);
        let i = entries.len() as int;
        assert(entries[i - 1] == entries.last());
        assert(rows[j] == spec_move_row(
            game_id,
            i as u32,
            s.normal.unwrap(),
            flag_of(s.is_check),
            flag_of(s.is_checkmate),
        ));
    }
}

/// Builds the move rows of a game, in entry order.
pub fn game_move_entities(game_id: &str, game: &ChessGame) -> (r: Vec<ChessGameMoveEntity>)
    requires
        game.game_entries@.len() <= u32::MAX,
    ensures
        r.deep_view() == spec_move_rows(game_id@, game@.game_entries),
{
    let n = game.game_entries.len();
    let mut r: Vec<ChessGameMoveEntity> = Vec::new();
    let mut i: usize = 0;
    proof {
        assert(r.deep_view() =~= spec_move_rows(game_id@, game@.game_entries.subrange(0, 0)));
    }
    while i < n
        invariant
            i <= n == game.game_entries@.len() <= u32::MAX,
            r.deep_view() == spec_move_rows(game_id@, game@.game_entries.subrange(0, i as int)),
        decreases n - i,
    {
        let entry = game.game_entries[i];
        let ghost pre = game@.game_entries.subrange(0, i as int);
        let ghost post = game@.game_entries.subrange(0, i as int + 1);
        proof {
            assert(post.drop_last() =~= pre);
            assert(post.last() == game@.game_entries[i as int]);
        }
        match entry.san {
            Some(s) => match s.normal {
                Some(nm) => {
                    let chk = match s.is_check {
                        Some(b) => b,
                        None => false,
                    };
                    let mate = match s.is_checkmate {
                        Some(b) => b,
                        None => false,
                    };
                    let row = into_chess_game_move_entity(game_id, (i + 1) as u32, &nm, chk, mate);
                    r.push(row);
                    proof {
                        assert(r.deep_view() =~= spec_move_rows(game_id@, post));
                    }
                },
                None => {
                    proof {
                        assert(r.deep_view() =~= spec_move_rows(game_id@, post));
                    }
                },
            },
            None => {
                proof {
                    assert(r.deep_view() =~= spec_move_rows(game_id@, post));
                }
            },
        }
        i = i + 1;
    }
    proof {
        assert(game@.game_entries.subrange(0, n as int) =~= game@.game_entries);
    }
    r
}


/// Mathematical value of an evaluation row.
pub ghost struct EvalRowSpec {
    pub game_id: Seq<char>,
    pub move_id: u32,
    pub eval_centipawns: i64,
}

impl View for ChessGameCommentEval {
    type V = EvalRowSpec;

    open spec fn view(&self) -> EvalRowSpec {
        EvalRowSpec {
            game_id: self.game_id@,
            move_id: self.move_id,
            eval_centipawns: self.eval_centipawns,
        }
    }
}

impl DeepView for ChessGameCommentEval {
    type V = EvalRowSpec;

    open spec fn deep_view(&self) -> EvalRowSpec {
        self@
    }
}

/// The evaluation rows of a game's entries: one per entry holding an
/// evaluation comment, under the 1-based index of that entry.
pub open spec fn spec_eval_rows(game_id: Seq<char>, entries: Seq<GameEntry>) -> Seq<EvalRowSpec>
    decreases entries.len(),
{
    if entries.len() == 0 {
        Seq::empty()
    } else {
        spec_eval_rows(game_id, entries.drop_last()) + (match entries.last().comment {
            Some(c) => match c.eval_centipawns {
                Some(v) => seq![
                    EvalRowSpec {
                        game_id,
                        move_id: entries.len() as u32,
                        eval_centipawns: v,
                    },
                ],
                None => Seq::empty(),
            },
            None => Seq::empty(),
        })
    }
}

/// Builds the evaluation rows of a game, in entry order.
pub fn game_eval_entities(game_id: &str, game: &ChessGame) -> (r: Vec<ChessGameCommentEval>)
    requires
        game.game_entries@.len() <= u32::MAX,
    ensures
        r.deep_view() == spec_eval_rows(game_id@, game@.game_entries),
{
    let n = game.game_entries.len();
    let mut r: Vec<ChessGameCommentEval> = Vec::new();
    let mut i: usize = 0;
    proof {
        assert(r.deep_view() =~= spec_eval_rows(game_id@, game@.game_entries.subrange(0, 0)));
    }
    while i < n
        invariant
            i <= n == game.game_entries@.len() <= u32::MAX,
            r.deep_view() == spec_eval_rows(game_id@, game@.game_entries.subrange(0, i as int)),
        decreases n - i,
    {
        let entry = game.game_entries[i];
        let ghost pre = game@.game_entries.subrange(0, i as int);
        let ghost post = game@.game_entries.subrange(0, i as int + 1);
        proof {
            assert(post.drop_last() =~= pre);
            assert(post.last() == game@.game_entries[i as int]);
        }
        match entry.comment {
            Some(c) => match c.eval_centipawns {
                Some(v) => {
                    let row = into_chess_game_comment_eval_entity(game_id, (i + 1) as u32, v);
                    r.push(row);
                    proof {
                        assert(r.deep_view() =~= spec_eval_rows(game_id@, post));
                    }
                },
                None => {
                    proof {
                        assert(r.deep_view() =~= spec_eval_rows(game_id@, post));
                    }
                },
            },
            None => {
                proof {
                    assert(r.deep_view() =~= spec_eval_rows(game_id@, post));
                }
            },
        }
        i = i + 1;
    }
    proof {
        assert(game@.game_entries.subrange(0, n as int) =~= game@.game_entries);
    }
    r
}

} // verus!
