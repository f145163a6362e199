//! The CSV sink's compute: encoding rows in the schema's field order,
//! and the in-memory batches that flush at the configured thresholds.

use vstd::prelude::*;
use vstd::string::*;
use crate::entity::{
    ChessGameCommentEval, ChessGameEntity, ChessGameMoveEntity, game_eval_entities,
    game_move_entities, into_chess_game_entity, is_day_field, spec_eval_rows, spec_move_rows,
};
use crate::model::{ChessGame, result_code, termination_code};
use crate::dates::{MAX_EPOCH_SECONDS, MIN_EPOCH_SECONDS};
use crate::text::{chars_of, dec_str, push_dec_u64};

verus! {

/// Games buffered before a games file is cut.
pub const GAMES_PER_FILE: usize = 20000;

/// Move rows buffered before a moves file (and the evaluation file that
/// accompanies it) is cut.
pub const MOVES_PER_FILE: usize = 1000000;

/// True when a field must be quoted: it holds a comma, a quote or a line
/// break.
pub open spec fn needs_quote(s: Seq<char>) -> bool {
    exists|i: int|
        0 <= i < s.len() && (#[trigger] s[i] == ',' || s[i] == '"' || s[i] == '\n' || s[i] == '\r')
}

/// The field's characters with every quote doubled.
pub open spec fn csv_escaped(s: Seq<char>) -> Seq<char>
    decreases s.len(),
{
    if s.len() == 0 {
        Seq::empty()
    } else if s[0] == '"' {
        seq!['"', '"'] + csv_escaped(s.drop_first())
    } else {
        seq![s[0]] + csv_escaped(s.drop_first())
    }
}

/// One CSV field: quoted with doubled inner quotes when needed, verbatim
/// otherwise.
pub open spec fn csv_field(s: Seq<char>) -> Seq<char> {
    if needs_quote(s) {
        seq!['"'] + csv_escaped(s) + seq!['"']
    } else {
        s
    }
}

/// One CSV line: the fields joined by commas, ended by a line break.
pub open spec fn csv_line(fields: Seq<Seq<char>>) -> Seq<char>
    decreases fields.len(),
{
    if fields.len() == 0 {
        seq!['\n']
    } else if fields.len() == 1 {
        csv_field(fields[0]) + seq!['\n']
    } else {
        csv_field(fields[0]) + seq![','] + csv_line(fields.drop_first())
    }
}

/// Quote test, executable form.
fn needs_quote_exec(cs: &Vec<char>) -> (r: bool)
    ensures
        r == needs_quote(cs@),
{
    let n = cs.len();
    let mut i: usize = 0;
    while i < n
        invariant
            i <= n == cs@.len(),
            forall|j: int|
                0 <= j < i ==> !(#[trigger] cs@[j] == ',' || cs@[j] == '"' || cs@[j] == '\n'
                    || cs@[j] == '\r'),
        decreases n - i,
    {
        let c = cs[i];
        if c == ',' || c == '"' || c == '\n' || c == '\r' {
            return true;
        }
        i = i + 1;
    }
    false
}

/// Encodes one field.
pub fn csv_field_text(s: &str) -> (r: String)
    ensures
        r@ == csv_field(s@),
{
    let cs = chars_of(s);
    let n = cs.len();
    if !needs_quote_exec(&cs) {
        return s.to_owned();
    }
    proof {
        reveal_strlit("\"");
        reveal_strlit("\"\"");
    }
    let mut out = String::from_str("\"");
    let mut k: usize = 0;
    while k < n
        invariant
            k <= n == s@.len(),
            cs@ == s@,
            out@ == seq!['"'] + csv_escaped(s@.subrange(0, k as int)),
        decreases n - k,
    {
        proof {
            reveal_strlit("\"");
            reveal_strlit("\"\"");
        }
        let ghost pre = s@.subrange(0, k as int);
        let ghost post = s@.subrange(0, k as int + 1);
        proof {
            lemma_csv_escaped_snoc(pre, s@[k as int]);
            assert(post =~= pre.push(s@[k as int]));
        }
        if cs[k] == '"' {
            out.append("\"\"");
            proof {
                assert(out@ =~= seq!['"'] + csv_escaped(post));
            }
        } else {
            let piece = s.substring_char(k, k + 1);
            out.append(piece);
            proof {
                assert(piece@ =~= seq![s@[k as int]]);
                assert(out@ =~= seq!['"'] + csv_escaped(post));
            }
        }
        k = k + 1;
    }
    proof {
        reveal_strlit("\"");
    }
    out.append("\"");
    proof {
        assert(s@.subrange(0, n as int) =~= s@);
        assert(out@ =~= csv_field(s@));
    }
    out
}

/// Escaping one more character appends its escape.
proof fn lemma_csv_escaped_snoc(s: Seq<char>, c: char)
    ensures
        csv_escaped(s.push(c)) == csv_escaped(s) + (if c == '"' {
            seq!['"', '"']
        } else {
            seq![c]
        }),
    decreases s.len(),
{
    let tail: Seq<char> = if c == '"' {
        seq!['"', '"']
    } else {
        seq![c]
    };
    if s.len() == 0 {
        assert(s.push(c)[0] == c);
        assert(s.push(c).drop_first() =~= Seq::<char>::empty());
        assert(csv_escaped(Seq::<char>::empty()) == Seq::<char>::empty());
        assert(csv_escaped(s.push(c)) =~= tail);
        assert(csv_escaped(s) + tail =~= tail);
    } else {
        assert(s.push(c).drop_first() =~= s.drop_first().push(c));
        lemma_csv_escaped_snoc(s.drop_first(), c);
        assert(s.push(c)[0] == s[0]);
        if s[0] == '"' {
            assert((seq!['"', '"'] + (csv_escaped(s.drop_first()) + tail)) =~= ((seq!['"', '"']
                + csv_escaped(s.drop_first())) + tail));
        } else {
            assert((seq![s[0]] + (csv_escaped(s.drop_first()) + tail)) =~= ((seq![s[0]]
                + csv_escaped(s.drop_first())) + tail));
        }
    }
}

/// Encodes one line from its fields.
pub fn csv_line_text(fields: &Vec<String>) -> (r: String)
    ensures
        r@ == csv_line(fields.deep_view()),
{
    let n = fields.len();
    let mut out = String::new();
    if n == 0 {
        proof {
            reveal_strlit("\n");
        }
        out.append("\n");
        proof {
            assert(out@ =~= csv_line(fields.deep_view()));
        }
        return out;
    }
    let mut i: usize = 0;
    proof {
        assert(fields.deep_view().skip(0) =~= fields.deep_view());
        assert(out@ + csv_line(fields.deep_view()) =~= csv_line(fields.deep_view()));
    }
    loop
        invariant
            i < n == fields@.len(),
            csv_line(fields.deep_view()) == out@ + csv_line(fields.deep_view().skip(i as int)),
        decreases n - i,
    {
        proof {
            reveal_strlit(",");
            reveal_strlit("\n");
        }
        let ghost rest = fields.deep_view().skip(i as int);
        let ghost prev = out@;
        proof {
            assert(rest[0] == fields.deep_view()[i as int]);
            assert(rest.drop_first() =~= fields.deep_view().skip(i as int + 1));
        }
        let field = csv_field_text(fields[i].as_str());
        out.append(field.as_str());
        if i + 1 < n {
            out.append(",");
            proof {
                assert(csv_line(rest) == csv_field(rest[0]) + seq![','] + csv_line(
                    rest.drop_first(),
                ));
                assert(out@ =~= prev + (csv_field(rest[0]) + seq![',']));
                assert((prev + csv_line(rest)) =~= (out@ + csv_line(rest.drop_first())));
            }
            i = i + 1;
        } else {
            out.append("\n");
            proof {
                assert(rest.len() == 1);
                assert(csv_line(rest) == csv_field(rest[0]) + seq!['\n']);
                assert(out@ =~= prev + csv_line(rest));
            }
            return out;
        }
    }
}


/// Decimal text of a signed value, a minus sign before the magnitude.
pub open spec fn int_text(i: int) -> Seq<char> {
    if i < 0 {
        seq!['-'] + dec_str((-i) as nat)
    } else {
        dec_str(i as nat)
    }
}

/// Text of an optional unsigned value; absent is the empty field.
pub open spec fn u8_opt_text(o: Option<u8>) -> Seq<char> {
    match o {
        Some(v) => dec_str(v as nat),
        None => Seq::empty(),
    }
}

/// Text of an optional unsigned value; absent is the empty field.
pub open spec fn u32_opt_text(o: Option<u32>) -> Seq<char> {
    match o {
        Some(v) => dec_str(v as nat),
        None => Seq::empty(),
    }
}

/// Text of an optional signed value; absent is the empty field.
pub open spec fn i32_opt_text(o: Option<i32>) -> Seq<char> {
    match o {
        Some(v) => int_text(v as int),
        None => Seq::empty(),
    }
}

/// Text of an optional signed value; absent is the empty field.
pub open spec fn i64_opt_text(o: Option<i64>) -> Seq<char> {
    match o {
        Some(v) => int_text(v as int),
        None => Seq::empty(),
    }
}

/// Text of an optional string; absent is the empty field.
pub open spec fn string_opt_text(o: Option<String>) -> Seq<char> {
    match o {
        Some(s) => s@,
        None => Seq::empty(),
    }
}

/// Text of a boolean, as the sink's file format writes it.
pub open spec fn bool_text(b: bool) -> Seq<char> {
    if b {
        "true"@
    } else {
        "false"@
    }
}

/// Signed decimal text, executable form.
pub fn int_text_exec(i: i64) -> (r: String)
    ensures
        r@ == int_text(i as int),
{
    if i >= 0 {
        crate::text::u64_to_string(i as u64)
    } else {
        proof {
            reveal_strlit("-");
        }
        let mut out = String::from_str("-");
        let magnitude: u64 = if i == i64::MIN {
            9223372036854775808u64
        } else {
            (-i) as u64
        };
        push_dec_u64(&mut out, magnitude);
        out
    }
}

/// Text of a boolean, executable form.
pub fn bool_text_exec(b: bool) -> (r: String)
    ensures
        r@ == bool_text(b),
{
    if b {
        String::from_str("true")
    } else {
        String::from_str("false")
    }
}

/// The empty field.
fn empty_field() -> (r: String)
    ensures
        r@ == Seq::<char>::empty(),
{
    String::new()
}

/// The game row's fields, in the schema's declaration order, the day
/// partition key last.
pub open spec fn spec_game_row_fields(e: ChessGameEntity) -> Seq<Seq<char>> {
    seq![
        e.id@,
        e.event_name@,
        e.link@,
        i64_opt_text(e.date),
        e.black_player_name@,
        dec_str(e.black_player_elo as nat),
        string_opt_text(e.black_player_title),
        e.white_player_name@,
        dec_str(e.white_player_elo as nat),
        string_opt_text(e.white_player_title),
        dec_str(e.result as nat),
        i32_opt_text(e.rating_outcome_for_white),
        i32_opt_text(e.rating_outcome_for_black),
        e.eco@,
        e.opening@,
        u32_opt_text(e.timecontrol_duration),
        u32_opt_text(e.timecontrol_increment),
        dec_str(e.termination as nat),
        e.day@,
    ]
}

/// Builds the game row's fields.
pub fn game_row_fields(e: &ChessGameEntity) -> (r: Vec<String>)
    ensures
        r.deep_view() == spec_game_row_fields(*e),
{
    let mut r: Vec<String> = Vec::new();
    r.push(e.id.clone());
    r.push(e.event_name.clone());
    r.push(e.link.clone());
    r.push(
        match e.date {
            Some(v) => int_text_exec(v),
            None => empty_field(),
        },
    );
    r.push(e.black_player_name.clone());
    r.push(crate::text::u64_to_string(e.black_player_elo as u64));
    r.push(
        match e.black_player_title {
            Some(ref t) => t.clone(),
            None => empty_field(),
        },
    );
    r.push(e.white_player_name.clone());
    r.push(crate::text::u64_to_string(e.white_player_elo as u64));
    r.push(
        match e.white_player_title {
            Some(ref t) => t.clone(),
            None => empty_field(),
        },
    );
    r.push(crate::text::u64_to_string(e.result as u64));
    r.push(
        match e.rating_outcome_for_white {
            Some(v) => int_text_exec(v as i64),
            None => empty_field(),
        },
    );
    r.push(
        match e.rating_outcome_for_black {
            Some(v) => int_text_exec(v as i64),
            None => empty_field(),
        },
    );
    r.push(e.eco.clone());
    r.push(e.opening.clone());
    r.push(
        match e.timecontrol_duration {
            Some(v) => crate::text::u64_to_string(v as u64),
            None => empty_field(),
        },
    );
    r.push(
        match e.timecontrol_increment {
            Some(v) => crate::text::u64_to_string(v as u64),
            None => empty_field(),
        },
    );
    r.push(crate::text::u64_to_string(e.termination as u64));
    r.push(e.day.clone());
    proof {
        assert(r.deep_view() =~= spec_game_row_fields(*e));
    }
    r
}

/// The move row's fields, in the schema's declaration order.
pub open spec fn spec_move_row_fields(e: ChessGameMoveEntity) -> Seq<Seq<char>> {
    seq![
        e.game_id@,
        dec_str(e.move_id as nat),
        u8_opt_text(e.from_file),
        u8_opt_text(e.from_rank),
        u8_opt_text(e.to_file),
        u8_opt_text(e.to_rank),
        bool_text(e.capture),
        u8_opt_text(e.promotion),
        bool_text(e.is_check),
        bool_text(e.is_checkmate),
    ]
}

/// Builds the move row's fields.
pub fn move_row_fields(e: &ChessGameMoveEntity) -> (r: Vec<String>)
    ensures
        r.deep_view() == spec_move_row_fields(*e),
{
    let mut r: Vec<String> = Vec::new();
    r.push(e.game_id.clone());
    r.push(crate::text::u64_to_string(e.move_id as u64));
    r.push(
        match e.from_file {
            Some(v) => crate::text::u64_to_string(v as u64),
            None => empty_field(),
        },
    );
    r.push(
        match e.from_rank {
            Some(v) => crate::text::u64_to_string(v as u64),
            None => empty_field(),
        },
    );
    r.push(
        match e.to_file {
            Some(v) => crate::text::u64_to_string(v as u64),
            None => empty_field(),
        },
    );
    r.push(
        match e.to_rank {
            Some(v) => crate::text::u64_to_string(v as u64),
            None => empty_field(),
        },
    );
    r.push(bool_text_exec(e.capture));
    r.push(
        match e.promotion {
            Some(v) => crate::text::u64_to_string(v as u64),
            None => empty_field(),
        },
    );
    r.push(bool_text_exec(e.is_check));
    r.push(bool_text_exec(e.is_checkmate));
    proof {
        assert(r.deep_view() =~= spec_move_row_fields(*e));
    }
    r
}

/// The evaluation row's fields: the game, the move index, and the
/// centipawn value.
pub open spec fn spec_eval_row_fields(e: ChessGameCommentEval) -> Seq<Seq<char>> {
    seq![e.game_id@, dec_str(e.move_id as nat), int_text(e.eval_centipawns as int)]
}

/// Builds the evaluation row's fields.
pub fn eval_row_fields(e: &ChessGameCommentEval) -> (r: Vec<String>)
    ensures
        r.deep_view() == spec_eval_row_fields(*e),
{
    let mut r: Vec<String> = Vec::new();
    r.push(e.game_id.clone());
    r.push(crate::text::u64_to_string(e.move_id as u64));
    r.push(int_text_exec(e.eval_centipawns));
    proof {
        assert(r.deep_view() =~= spec_eval_row_fields(*e));
    }
    r
}

/// A whole games file: one line per buffered row, in order.
pub open spec fn spec_csv_games(rows: Seq<ChessGameEntity>) -> Seq<char>
    decreases rows.len(),
{
    if rows.len() == 0 {
        Seq::empty()
    } else {
        spec_csv_games(rows.drop_last()) + csv_line(spec_game_row_fields(rows.last()))
    }
}

/// A whole moves file.
pub open spec fn spec_csv_moves(rows: Seq<ChessGameMoveEntity>) -> Seq<char>
    decreases rows.len(),
{
    if rows.len() == 0 {
        Seq::empty()
    } else {
        spec_csv_moves(rows.drop_last()) + csv_line(spec_move_row_fields(rows.last()))
    }
}

/// A whole evaluation file.
pub open spec fn spec_csv_evals(rows: Seq<ChessGameCommentEval>) -> Seq<char>
    decreases rows.len(),
{
    if rows.len() == 0 {
        Seq::empty()
    } else {
        spec_csv_evals(rows.drop_last()) + csv_line(spec_eval_row_fields(rows.last()))
    }
}

/// Encodes the buffered game rows.
pub fn csv_games_text(rows: &Vec<ChessGameEntity>) -> (r: String)
    ensures
        r@ == spec_csv_games(rows@),
{
    let n = rows.len();
    let mut out = String::new();
    let mut i: usize = 0;
    proof {
        assert(out@ =~= spec_csv_games(rows@.subrange(0, 0)));
    }
    while i < n
        invariant
            i <= n == rows@.len(),
            out@ == spec_csv_games(rows@.subrange(0, i as int)),
        decreases n - i,
    {
        let fields = game_row_fields(&rows[i]);
        let line = csv_line_text(&fields);
        out.append(line.as_str());
        proof {
            let post = rows@.subrange(0, i as int + 1);
            assert(post.drop_last() =~= rows@.subrange(0, i as int));
            assert(post.last() == rows@[i as int]);
            assert(out@ =~= spec_csv_games(post));
        }
        i = i + 1;
    }
    proof {
        assert(rows@.subrange(0, n as int) =~= rows@);
    }
    out
}

/// Encodes the buffered move rows.
pub fn csv_moves_text(rows: &Vec<ChessGameMoveEntity>) -> (r: String)
    ensures
        r@ == spec_csv_moves(rows@),
{
    let n = rows.len();
    let mut out = String::new();
    let mut i: usize = 0;
    proof {
        assert(out@ =~= spec_csv_moves(rows@.subrange(0, 0)));
    }
    while i < n
        invariant
            i <= n == rows@.len(),
            out@ == spec_csv_moves(rows@.subrange(0, i as int)),
        decreases n - i,
    {
        let fields = move_row_fields(&rows[i]);
        let line = csv_line_text(&fields);
        out.append(line.as_str());
        proof {
            let post = rows@.subrange(0, i as int + 1);
            assert(post.drop_last() =~= rows@.subrange(0, i as int));
            assert(post.last() == rows@[i as int]);
            assert(out@ =~= spec_csv_moves(post));
        }
        i = i + 1;
    }
    proof {
        assert(rows@.subrange(0, n as int) =~= rows@);
    }
    out
}

/// Encodes the buffered evaluation rows.
pub fn csv_evals_text(rows: &Vec<ChessGameCommentEval>) -> (r: String)
    ensures
        r@ == spec_csv_evals(rows@),
{
    let n = rows.len();
    let mut out = String::new();
    let mut i: usize = 0;
    proof {
        assert(out@ =~= spec_csv_evals(rows@.subrange(0, 0)));
    }
    while i < n
        invariant
            i <= n == rows@.len(),
            out@ == spec_csv_evals(rows@.subrange(0, i as int)),
        decreases n - i,
    {
        let fields = eval_row_fields(&rows[i]);
        let line = csv_line_text(&fields);
        out.append(line.as_str());
        proof {
            let post = rows@.subrange(0, i as int + 1);
            assert(post.drop_last() =~= rows@.subrange(0, i as int));
            assert(post.last() == rows@[i as int]);
            assert(out@ =~= spec_csv_evals(post));
        }
        i = i + 1;
    }
    proof {
        assert(rows@.subrange(0, n as int) =~= rows@);
    }
    out
}

/// The CSV sink's in-memory batches: game, move and evaluation rows,
/// accumulated per consumed game and cut into files at the thresholds.
pub struct SinkBuffers {
    pub games: Vec<ChessGameEntity>,
    pub moves: Vec<ChessGameMoveEntity>,
    pub comment_evals: Vec<ChessGameCommentEval>,
}

impl SinkBuffers {
    /// Empty batches.
    pub fn new() -> (r: SinkBuffers)
        ensures
            r.games@.len() == 0,
            r.moves@.len() == 0,
            r.comment_evals@.len() == 0,
    {
        SinkBuffers { games: Vec::new(), moves: Vec::new(), comment_evals: Vec::new() }
    }

    /// Buffers one consumed game: its move rows and evaluation rows under
    /// their 1-based entry indices, and its game row, each appended in
    /// order.
    pub fn buffer_parsed_game(&mut self, game_id: &str, game: ChessGame)
        requires
            game.game_entries@.len() <= u32::MAX,
            game@.date matches Some(d) ==> MIN_EPOCH_SECONDS <= d <= MAX_EPOCH_SECONDS,
        ensures
            final(self).moves.deep_view() == old(self).moves.deep_view() + spec_move_rows(
                game_id@,
                game@.game_entries,
            ),
            final(self).comment_evals.deep_view() == old(self).comment_evals.deep_view()
                + spec_eval_rows(game_id@, game@.game_entries),
            final(self).games@.len() == old(self).games@.len() + 1,
            final(self).games@.subrange(0, old(self).games@.len() as int) == old(self).games@,
            ({
                let e = final(self).games@.last();
                &&& e.id@ == game_id@
                &&& e.event_name@ == game@.event_name
                &&& e.link@ == game@.link
                &&& e.date == game@.date
                &&& e.white_player_name@ == game@.white_player.name
                &&& e.white_player_elo == game@.white_player.elo
                &&& e.black_player_name@ == game@.black_player.name
                &&& e.black_player_elo == game@.black_player.elo
                &&& e.result == result_code(game@.result)
                &&& e.eco@ == game@.eco
                &&& e.opening@ == game@.opening
                &&& e.termination == termination_code(game@.termination) as u32
                &&& is_day_field(game@.date, e.day@)
            }),
    {
        let mut new_moves = game_move_entities(game_id, &game);
        let ghost added_moves = new_moves.deep_view();
        self.moves.append(&mut new_moves);
        let mut new_evals = game_eval_entities(game_id, &game);
        let ghost added_evals = new_evals.deep_view();
        self.comment_evals.append(&mut new_evals);
        let row = into_chess_game_entity(game_id.to_owned(), game);
        self.games.push(row);
        proof {
            assert(self.moves.deep_view() =~= old(self).moves.deep_view() + added_moves);
            assert(self.comment_evals.deep_view() =~= old(self).comment_evals.deep_view()
                + added_evals);
            assert(self.games@.subrange(0, old(self).games@.len() as int) =~= old(self).games@);
        }
    }

    /// Cuts a games file when the batch has outgrown the threshold: the
    /// file's text, with the games batch emptied; otherwise nothing
    /// changes.
    pub fn flush_games(&mut self) -> (r: Option<String>)
        ensures
            r is Some <==> old(self).games@.len() > GAMES_PER_FILE,
            r matches Some(text) ==> (text@ == spec_csv_games(old(self).games@) && final(self).games@.len() == 0),
            r is None ==> final(self).games@ == old(self).games@,
            final(self).moves@ == old(self).moves@,
            final(self).comment_evals@ == old(self).comment_evals@,
    {
        if self.games.len() > GAMES_PER_FILE {
            let text = csv_games_text(&self.games);
            self.games.clear();
            Some(text)
        } else {
            None
        }
    }

    /// Cuts a moves file and the evaluation file that accompanies it when
    /// the moves batch has outgrown the threshold: both files' texts,
    /// with both batches emptied; otherwise nothing changes.
    pub fn flush_moves(&mut self) -> (r: Option<(String, String)>)
        ensures
            r is Some <==> old(self).moves@.len() > MOVES_PER_FILE,
            r matches Some(texts) ==> texts.0@ == spec_csv_moves(old(self).moves@) && texts.1@
                == spec_csv_evals(old(self).comment_evals@) && final(self).moves@.len() == 0
                && final(self).comment_evals@.len() == 0,
            r is None ==> final(self).moves@ == old(self).moves@ && final(self).comment_evals@
                == old(self).comment_evals@,
            final(self).games@ == old(self).games@,
    {
        if self.moves.len() > MOVES_PER_FILE {
            let moves_text = csv_moves_text(&self.moves);
            let evals_text = csv_evals_text(&self.comment_evals);
            self.moves.clear();
            self.comment_evals.clear();
            Some((moves_text, evals_text))
        } else {
            None
        }
    }
}

} // verus!
