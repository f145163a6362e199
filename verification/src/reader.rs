//! The PGN reader: header lines, move-text tokens and bracketed comment
//! fragments, folded through the `GameVisitor` into a `ChessGame`.

use vstd::prelude::*;
use vstd::string::*;
use crate::model::{ChessGame, ChessGameSpec, Comment, GameEntry, GameResult, Nag, RawChessGame, Termination};
use crate::dates::{is_time_text, parse_time, time_of_text};
use crate::pgn::{
    GameVisitor, GameVisitorSpec, PlayerBuilderSpec, built_player, initial_visitor, spec_header,
    visitor_wf,
};
use crate::text::{
    all_digits, chars_of, dec_val, digits_only, find_char_from, find_char_in, find_idx,
    find_ws_from, find_ws_idx, is_digit, is_ws, lemma_find_idx, lemma_find_ws_idx,
    parse_digits_range, spec_parse_i32, parse_i32_str,
};

verus! {

broadcast use lemma_find_idx, lemma_find_ws_idx;

/// How parsing one raw game can fail: a rejected game carries the
/// recoverable errors to publish; a fatal error stops the stage.
#[derive(Debug)]
pub enum ParseFailure {
    Rejected(Vec<String>),
    Fatal(String),
}

/// The annotation glyph of a NAG code; only `1` through `6` are known.
pub open spec fn nag_of_code(n: nat) -> Option<Nag> {
    if n == 1 {
        Some(Nag::GoodMove)
    } else if n == 2 {
        Some(Nag::Mistake)
    } else if n == 3 {
        Some(Nag::BrilliantMove)
    } else if n == 4 {
        Some(Nag::Blunder)
    } else if n == 5 {
        Some(Nag::SpeculativeMove)
    } else if n == 6 {
        Some(Nag::DubiousMove)
    } else {
        None
    }
}

/// Centipawn value of an engine evaluation written as a decimal number:
/// an optional minus sign, an integer part, and an optional fraction of
/// which the first two digits count.
pub open spec fn spec_eval_centipawns(s: Seq<char>) -> Option<i64> {
    let d = if s.len() > 0 && s[0] == '-' {
        s.drop_first()
    } else {
        s
    };
    let neg = s.len() > 0 && s[0] == '-';
    let dot = find_idx(d, '.');
    let ip = d.subrange(0, dot);
    if !(ip.len() > 0 && all_digits(ip) && dec_val(ip) <= 92233720368547757) {
        None
    } else if dot == d.len() {
        Some(
            if neg {
                (-(dec_val(ip) * 100)) as i64
            } else {
                (dec_val(ip) * 100) as i64
            },
        )
    } else {
        let fp = d.subrange(dot + 1, d.len() as int);
        if fp.len() > 0 && all_digits(fp) {
            let cents = dec_val(ip) * 100 + frac_cents(fp);
            Some(
                if neg {
                    (-cents) as i64
                } else {
                    cents as i64
                },
            )
        } else {
            None
        }
    }
}

/// Centipawns named by the fraction digits: the first counts tens, the
/// second units, further digits are beyond centipawn precision.
pub open spec fn frac_cents(fp: Seq<char>) -> nat
    recommends
        fp.len() > 0,
{
    if fp.len() == 1 {
        crate::text::digit_val(fp[0]) * 10
    } else {
        crate::text::digit_val(fp[0]) * 10 + crate::text::digit_val(fp[1])
    }
}

/// The entry of one bracketed fragment `key value`: a clock reading or an
/// evaluation; any other key is fatal.
#[verifier::opaque]
pub open spec fn spec_fragment(part: Seq<char>) -> Option<GameEntry> {
    let sp = find_idx(part, ' ');
    if sp == part.len() {
        None
    } else {
        let key = part.subrange(0, sp);
        let val = part.subrange(sp + 1, part.len() as int);
        if key == "%clk"@ {
            if is_time_text(val) {
                Some(
                    GameEntry {
                        san: None,
                        nag: None,
                        comment: Some(
                            Comment {
                                clock: Some(time_of_text(val) as u32),
                                eval_centipawns: None,
                                getting_mated_in: None,
                            },
                        ),
                    },
                )
            } else {
                None
            }
        } else if key == "%eval"@ {
            if val.len() > 0 && val[0] == '#' {
                match spec_parse_i32(val.drop_first()) {
                    Some(m) => Some(
                        GameEntry {
                            san: None,
                            nag: None,
                            comment: Some(
                                Comment {
                                    clock: None,
                                    eval_centipawns: None,
                                    getting_mated_in: Some(m),
                                },
                            ),
                        },
                    ),
                    None => None,
                }
            } else {
                match spec_eval_centipawns(val) {
                    Some(cp) => Some(
                        GameEntry {
                            san: None,
                            nag: None,
                            comment: Some(
                                Comment {
                                    clock: None,
                                    eval_centipawns: Some(cp),
                                    getting_mated_in: None,
                                },
                            ),
                        },
                    ),
                    None => None,
                }
            }
        } else {
            None
        }
    }
}

/// Entries of a whole comment: one per bracketed fragment, in order. The
/// first `]` must not precede the first `[`, and each opened fragment
/// must close.
pub open spec fn spec_comment_entries(s: Seq<char>) -> Option<Seq<GameEntry>>
    decreases s.len(),
{
    let b = find_idx(s, '[');
    if b == s.len() {
        Some(Seq::empty())
    } else {
        let e = find_idx(s, ']');
        if e < b || e == s.len() {
            None
        } else {
            match spec_fragment(s.subrange(b + 1, e)) {
                None => None,
                Some(entry) => match spec_comment_entries(s.subrange(e + 1, s.len() as int)) {
                    None => None,
                    Some(tail) => Some(seq![entry] + tail),
                },
            }
        }
    }
}

/// A game-ending result token, which the visitor ignores.
pub open spec fn is_result_token(t: Seq<char>) -> bool {
    t == "1-0"@ || t == "0-1"@ || t == "1/2-1/2"@ || t == "*"@
}

/// A move-number token: digits followed by dots.
pub open spec fn is_move_number(t: Seq<char>) -> bool {
    &&& t.len() > 0
    &&& is_digit(t[0])
    &&& forall|j: int| 0 <= j < t.len() ==> is_digit(#[trigger] t[j]) || t[j] == '.'
}

/// The entry of a `$n` annotation token; a code outside the known table
/// is fatal.
pub open spec fn spec_nag_token(t: Seq<char>) -> Option<GameEntry> {
    let d = t.drop_first();
    if d.len() > 0 && all_digits(d) {
        match nag_of_code(dec_val(d)) {
            Some(n) => Some(GameEntry { san: None, nag: Some(n), comment: None }),
            None => None,
        }
    } else {
        None
    }
}

/// Entries of a move-text: comments contribute one entry per fragment,
/// `$n` tokens one glyph entry, SAN tokens one move entry; move numbers
/// and result tokens contribute nothing. A malformed token is fatal.
pub open spec fn spec_movetext_entries(s: Seq<char>) -> Option<Seq<GameEntry>>
    decreases s.len(),
{
    if s.len() == 0 {
        Some(Seq::empty())
    } else if is_ws(s[0]) {
        spec_movetext_entries(s.drop_first())
    } else if s[0] == '{' {
        let e = find_idx(s, '}');
        if e == s.len() {
            None
        } else {
            match spec_comment_entries(s.subrange(1, e)) {
                None => None,
                Some(es) => match spec_movetext_entries(s.subrange(e + 1, s.len() as int)) {
                    None => None,
                    Some(tail) => Some(es + tail),
                },
            }
        }
    } else {
        let e = if find_ws_idx(s) < 1 {
            1
        } else {
            find_ws_idx(s)
        };
        let tok = s.subrange(0, e);
        let rest = s.subrange(e, s.len() as int);
        match spec_token(tok) {
            None => None,
            Some(None) => spec_movetext_entries(rest),
            Some(Some(entry)) => match spec_movetext_entries(rest) {
                None => None,
                Some(tail) => Some(seq![entry] + tail),
            },
        }
    }
}

/// What one plain token contributes: nothing for a move number or result
/// token, one entry for a glyph or SAN token, and `None` for a malformed
/// one, which is fatal.
#[verifier::opaque]
pub open spec fn spec_token(tok: Seq<char>) -> Option<Option<GameEntry>> {
    if is_result_token(tok) || is_move_number(tok) {
        Some(None)
    } else if tok.len() > 0 && tok[0] == '$' {
        match spec_nag_token(tok) {
            Some(entry) => Some(Some(entry)),
            None => None,
        }
    } else {
        match crate::san::spec_san_token(tok) {
            Some(san) => Some(Some(GameEntry { san: Some(san), nag: None, comment: None })),
            None => None,
        }
    }
}

/// A header line `[Tag "value"]`: the tag and the quoted value. Anything
/// else is fatal.
pub open spec fn spec_header_line(line: Seq<char>) -> Option<(Seq<char>, Seq<char>)> {
    let sp = find_idx(line, ' ');
    if line.len() == 0 || line[0] != '[' {
        None
    } else if sp == line.len() || sp < 2 {
        None
    } else if sp + 1 >= line.len() || line[sp + 1] != '"' {
        None
    } else {
        let q = sp + 2 + find_idx(line.subrange(sp + 2, line.len() as int), '"');
        if q >= line.len() {
            None
        } else if q + 2 != line.len() || line[q + 1] != ']' {
            None
        } else {
            Some((line.subrange(1, sp), line.subrange(sp + 2, q)))
        }
    }
}

/// The visitor after all header lines of a metadata block, line by line;
/// empty lines are skipped, a malformed line or fatal header value stops
/// everything.
pub open spec fn spec_headers(v: GameVisitorSpec, s: Seq<char>) -> Option<GameVisitorSpec>
    decreases s.len(),
{
    if s.len() == 0 {
        Some(v)
    } else {
        let e = find_idx(s, '\n');
        let line = s.subrange(0, e);
        let rest = if e == s.len() {
            Seq::<char>::empty()
        } else {
            s.subrange(e + 1, s.len() as int)
        };
        if line.len() == 0 {
            spec_headers(v, rest)
        } else {
            match spec_header_line(line) {
                None => None,
                Some((key, value)) => match spec_header(v, key, value) {
                    None => None,
                    Some(v2) => spec_headers(v2, rest),
                },
            }
        }
    }
}

/// The game a visitor finalizes to: strings default to empty, the result
/// to `Star`, the termination to `Unterminated`.
pub open spec fn built_game(v: GameVisitorSpec) -> ChessGameSpec {
    ChessGameSpec {
        event_name: or_empty(v.event_name),
        link: or_empty(v.link),
        date: v.game_date,
        white_player: built_player(v.white_player),
        black_player: built_player(v.black_player),
        result: match v.result {
            Some(r) => r,
            None => GameResult::Star,
        },
        rating_outcome_for_white: v.rating_outcome_for_white,
        rating_outcome_for_black: v.rating_outcome_for_black,
        eco: or_empty(v.eco),
        opening: or_empty(v.opening),
        timecontrol: v.timecontrol,
        termination: match v.termination {
            Some(t) => t,
            None => Termination::Unterminated,
        },
        game_entries: v.game_entries,
    }
}

/// An optional text, or the empty text.
pub open spec fn or_empty(s: Option<Seq<char>>) -> Seq<char> {
    match s {
        Some(s) => s,
        None => Seq::empty(),
    }
}

/// What `end_game` yields: the finalized game, unless recoverable errors
/// were collected, which reject the game.
pub open spec fn spec_end_game(v: GameVisitorSpec) -> Result<ChessGameSpec, Seq<Seq<char>>> {
    if v.errors.len() > 0 {
        Err(v.errors)
    } else {
        Ok(built_game(v))
    }
}

/// What parsing one raw game yields: `None` for a fatal error, otherwise
/// the finalized game or the rejected game's errors.
pub open spec fn spec_parse_game(metadata: Seq<char>, moves: Seq<char>) -> Option<
    Result<ChessGameSpec, Seq<Seq<char>>>,
> {
    match spec_headers(initial_visitor(), metadata) {
        None => None,
        Some(v) => match spec_movetext_entries(moves) {
            None => None,
            Some(es) => Some(
                spec_end_game(GameVisitorSpec { game_entries: v.game_entries + es, ..v }),
            ),
        },
    }
}

impl GameVisitor {
    /// Appends the entry of one SAN move.
    pub fn san(&mut self, san: crate::model::San)
        ensures
            final(self)@ == (GameVisitorSpec {
                game_entries: old(self)@.game_entries.push(
                    GameEntry { san: Some(san), nag: None, comment: None },
                ),
                ..old(self)@
            }),
    {
        self.game_entries.push(GameEntry { san: Some(san), nag: None, comment: None });
    }

    /// Appends the entry of one annotation glyph.
    pub fn nag(&mut self, nag: Nag)
        ensures
            final(self)@ == (GameVisitorSpec {
                game_entries: old(self)@.game_entries.push(
                    GameEntry { san: None, nag: Some(nag), comment: None },
                ),
                ..old(self)@
            }),
    {
        self.game_entries.push(GameEntry { san: None, nag: Some(nag), comment: None });
    }

    /// Folds the bracketed fragments of one comment into entries; `Err`
    /// carries the message of a malformed fragment.
    #[verifier::rlimit(100)]
    pub fn comment(&mut self, text: &str) -> (r: Result<(), String>)
        ensures
            r is Ok <==> spec_comment_entries(text@) is Some,
            r is Ok ==> final(self)@ == (GameVisitorSpec {
                game_entries: old(self)@.game_entries + spec_comment_entries(text@).unwrap(),
                ..old(self)@
            }),
            final(self)@ == (GameVisitorSpec {
                game_entries: final(self)@.game_entries,
                ..old(self)@
            }),
            old(self)@.game_entries.len() <= final(self)@.game_entries.len(),
    {
        let ghost whole = text@;
        let ghost base = old(self)@.game_entries;
        let cs = chars_of(text);
        let n = cs.len();
        let mut i: usize = 0;
        proof {
            assert(self.game_entries@.skip(base.len() as int) =~= Seq::<GameEntry>::empty());
            if spec_comment_entries(whole) is Some {
                let t = spec_comment_entries(whole).unwrap();
                assert(self.game_entries@.skip(base.len() as int) + t =~= t);
            }
            assert(base =~= self.game_entries@.subrange(0, base.len() as int));
            assert(text@.subrange(0, n as int) =~= whole);
        }
        loop
            invariant
                whole == text@,
                base == old(self)@.game_entries,
                i <= n == text@.len(),
                cs@ == text@,
                base.len() <= self.game_entries@.len(),
                self@ == (GameVisitorSpec { game_entries: self.game_entries@, ..old(self)@ }),
                base == self.game_entries@.subrange(0, base.len() as int),
                spec_comment_entries(whole) == (match spec_comment_entries(
                    text@.subrange(i as int, n as int),
                ) {
                    None => None::<Seq<GameEntry>>,
                    Some(t) => Some(self.game_entries@.skip(base.len() as int) + t),
                }),
            decreases n - i,
        {
            let ghost tail = text@.subrange(i as int, n as int);
            let ghost done = self.game_entries@.skip(base.len() as int);
            let b = find_char_from(&cs, '[', i);
            proof {
                crate::text::lemma_find_idx_from(text@, '[', i as int, b as int);
            }
            if b == n {
                proof {
                    assert(spec_comment_entries(tail) == Some(Seq::<GameEntry>::empty()));
                    assert(done + Seq::<GameEntry>::empty() =~= done);
                    assert(spec_comment_entries(whole) == Some(done));
                    assert(self.game_entries@ =~= base + done);
                }
                return Ok(());
            }
            let e = find_char_from(&cs, ']', i);
            proof {
                crate::text::lemma_find_idx_from(text@, ']', i as int, e as int);
            }
            if e < b || e == n {
                return Err(comment_error(text));
            }
            proof {
                assert(tail.subrange(b - i + 1, e - i) =~= text@.subrange(b as int + 1, e as int));
            }
            let entry = match parse_fragment(text, &cs, b + 1, e) {
                Some(entry) => entry,
                None => {
                    return Err(comment_error(text));
                },
            };
            self.game_entries.push(entry);
            proof {
                assert(tail.subrange(e - i + 1, tail.len() as int) =~= text@.subrange(
                    e + 1,
                    n as int,
                ));
                let done2 = self.game_entries@.skip(base.len() as int);
                assert(done2 =~= done.push(entry));
                if spec_comment_entries(text@.subrange(e + 1, n as int)) is Some {
                    let t = spec_comment_entries(text@.subrange(e + 1, n as int)).unwrap();
                    assert((done + (seq![entry] + t)) =~= (done2 + t));
                }
                assert(base =~= self.game_entries@.subrange(0, base.len() as int));
            }
            i = e + 1;
        }
    }
}

impl GameVisitor {
    /// Folds a whole move-text into entries; `Err` carries the message of
    /// the first malformed token.
    #[verifier::rlimit(100)]
    pub fn movetext(&mut self, moves: &str) -> (r: Result<(), String>)
        requires
            visitor_wf(old(self)@),
        ensures
            visitor_wf(final(self)@),
            r is Ok <==> spec_movetext_entries(moves@) is Some,
            r is Ok ==> final(self)@ == (GameVisitorSpec {
                game_entries: old(self)@.game_entries + spec_movetext_entries(moves@).unwrap(),
                ..old(self)@
            }),
    {
        let ghost base = old(self)@.game_entries;
        let cs = chars_of(moves);
        let n = cs.len();
        let mut i: usize = 0;
        proof {
            assert(self.game_entries@.skip(base.len() as int) =~= Seq::<GameEntry>::empty());
            if spec_movetext_entries(moves@) is Some {
                let t = spec_movetext_entries(moves@).unwrap();
                assert(self.game_entries@.skip(base.len() as int) + t =~= t);
            }
            assert(base =~= self.game_entries@.subrange(0, base.len() as int));
            assert(moves@.subrange(0, n as int) =~= moves@);
        }
        loop
            invariant
                base == old(self)@.game_entries,
                i <= n == moves@.len(),
                cs@ == moves@,
                base.len() <= self.game_entries@.len(),
                base == self.game_entries@.subrange(0, base.len() as int),
                visitor_wf(self@),
                self@ == (GameVisitorSpec { game_entries: self.game_entries@, ..old(self)@ }),
                spec_movetext_entries(moves@) == (match spec_movetext_entries(
                    moves@.subrange(i as int, n as int),
                ) {
                    None => None::<Seq<GameEntry>>,
                    Some(t) => Some(self.game_entries@.skip(base.len() as int) + t),
                }),
            decreases n - i,
        {
            let ghost tail = moves@.subrange(i as int, n as int);
            let ghost done = self.game_entries@.skip(base.len() as int);
            if i == n {
                proof {
                    assert(spec_movetext_entries(tail) == Some(Seq::<GameEntry>::empty()));
                    assert(done + Seq::<GameEntry>::empty() =~= done);
                    assert(self.game_entries@ =~= base + done);
                }
                return Ok(());
            }
            let c = cs[i];
            proof {
                assert(tail[0] == c);
            }
            if crate::text::is_ws_exec(c) {
                proof {
                    assert(tail.drop_first() =~= moves@.subrange(i as int + 1, n as int));
                }
                i = i + 1;
                continue ;
            }
            if c == '{' {
                let e = find_char_from(&cs, '}', i);
                proof {
                    crate::text::lemma_find_idx_from(moves@, '}', i as int, e as int);
                }
                if e == n {
                    return Err(token_error(moves, i, n));
                }
                let content = moves.substring_char(i + 1, e);
                proof {
                    assert(content@ =~= tail.subrange(1, e - i));
                }
                match self.comment(content) {
                    Err(m) => {
                        return Err(m);
                    },
                    Ok(()) => {},
                }
                proof {
                    let es = spec_comment_entries(content@).unwrap();
                    let done2 = self.game_entries@.skip(base.len() as int);
                    assert(done2 =~= done + es);
                    assert(base =~= self.game_entries@.subrange(0, base.len() as int));
                    assert(tail.subrange(e - i + 1, tail.len() as int) =~= moves@.subrange(
                        e + 1,
                        n as int,
                    ));
                    if spec_movetext_entries(moves@.subrange(e + 1, n as int)) is Some {
                        let t = spec_movetext_entries(moves@.subrange(e + 1, n as int)).unwrap();
                        assert((done + (es + t)) =~= (done2 + t));
                    }
                }
                i = e + 1;
                continue ;
            }
            let e = find_ws_from(&cs, i);
            proof {
                crate::text::lemma_find_ws_idx_from(moves@, i as int, e as int);
                assert(e - i >= 1);
            }
            let ghost tok = tail.subrange(0, e - i);
            let ghost rest = moves@.subrange(e as int, n as int);
            proof {
                assert(tok =~= moves@.subrange(i as int, e as int));
                assert(tail.subrange(e - i, tail.len() as int) =~= rest);
            }
            match token_step(moves, &cs, i, e) {
                Err(m) => {
                    return Err(m);
                },
                Ok(None) => {
                    i = e;
                },
                Ok(Some(entry)) => {
                    self.game_entries.push(entry);
                    proof {
                        let done2 = self.game_entries@.skip(base.len() as int);
                        assert(done2 =~= done.push(entry));
                        if spec_movetext_entries(rest) is Some {
                            let t = spec_movetext_entries(rest).unwrap();
                            assert((done + (seq![entry] + t)) =~= (done2 + t));
                        }
                        assert(base =~= self.game_entries@.subrange(0, base.len() as int));
                    }
                    i = e;
                },
            }
        }
    }

    /// Folds all header lines of a metadata block; `Err` carries the
    /// message of the first malformed line or fatal value.
    #[verifier::rlimit(100)]
    pub fn headers(&mut self, metadata: &str) -> (r: Result<(), String>)
        requires
            visitor_wf(old(self)@),
        ensures
            visitor_wf(final(self)@),
            r is Ok <==> spec_headers(old(self)@, metadata@) is Some,
            r is Ok ==> Some(final(self)@) == spec_headers(old(self)@, metadata@),
    {
        let cs = chars_of(metadata);
        let n = cs.len();
        let mut i: usize = 0;
        proof {
            assert(metadata@.subrange(0, n as int) =~= metadata@);
        }
        loop
            invariant
                i <= n == metadata@.len(),
                cs@ == metadata@,
                visitor_wf(self@),
                spec_headers(old(self)@, metadata@) == spec_headers(
                    self@,
                    metadata@.subrange(i as int, n as int),
                ),
            decreases n - i,
        {
            let ghost tail = metadata@.subrange(i as int, n as int);
            if i == n {
                proof {
                    assert(spec_headers(self@, tail) == Some(self@));
                }
                return Ok(());
            }
            let e = find_char_from(&cs, '\n', i);
            proof {
                crate::text::lemma_find_idx_from(metadata@, '\n', i as int, e as int);
            }
            let ghost line = tail.subrange(0, e - i);
            let ghost rest = if e == n {
                Seq::<char>::empty()
            } else {
                metadata@.subrange(e + 1, n as int)
            };
            proof {
                assert(line =~= metadata@.subrange(i as int, e as int));
                if e < n {
                    assert(tail.subrange(e - i + 1, tail.len() as int) =~= rest);
                }
            }
            let next_i: usize = if e == n {
                n
            } else {
                e + 1
            };
            proof {
                assert(metadata@.subrange(next_i as int, n as int) =~= rest);
            }
            if e == i {
                // an empty line separates nothing in a header block
                i = next_i;
                continue ;
            }
            // the line must be `[Tag "value"]`
            if cs[i] != '[' {
                return Err(line_error(metadata, i, e));
            }
            let sp = find_char_in(&cs, ' ', i, e);
            proof {
                assert(find_idx(line, ' ') == sp - i);
            }
            if sp == e || sp < i + 2 {
                return Err(line_error(metadata, i, e));
            }
            if sp + 1 >= e || cs[sp + 1] != '"' {
                return Err(line_error(metadata, i, e));
            }
            let q = find_char_in(&cs, '"', sp + 2, e);
            proof {
                assert(line.subrange(sp - i + 2, line.len() as int) =~= metadata@.subrange(
                    sp + 2,
                    e as int,
                ));
            }
            if q == e {
                return Err(line_error(metadata, i, e));
            }
            if e - q != 2 || cs[q + 1] != ']' {
                return Err(line_error(metadata, i, e));
            }
            let key = metadata.substring_char(i + 1, sp);
            let value = metadata.substring_char(sp + 2, q);
            proof {
                assert(key@ =~= line.subrange(1, sp - i));
                assert(value@ =~= line.subrange(sp - i + 2, q - i));
                assert(spec_header_line(line) == Some((key@, value@)));
            }
            match self.header(key, value) {
                Err(m) => {
                    return Err(m);
                },
                Ok(()) => {},
            }
            i = next_i;
        }
    }

    /// Finalizes the visitor: the built game, or the collected errors
    /// that reject it.
    pub fn end_game(self) -> (r: Result<ChessGame, Vec<String>>)
        ensures
            self@.errors.len() > 0 ==> (r matches Err(e) && e.deep_view() == self@.errors),
            self@.errors.len() == 0 ==> (r matches Ok(g) && g@ == built_game(self@)),
    {
        if self.errors.len() > 0 {
            return Err(self.errors);
        }
        let white = crate::model::Player {
            name: or_empty_string(self.white_player.name),
            elo: match self.white_player.elo {
                Some(e) => e,
                None => 0,
            },
            title: self.white_player.title,
        };
        let black = crate::model::Player {
            name: or_empty_string(self.black_player.name),
            elo: match self.black_player.elo {
                Some(e) => e,
                None => 0,
            },
            title: self.black_player.title,
        };
        let g = ChessGame {
            event_name: or_empty_string(self.event_name),
            link: or_empty_string(self.link),
            date: self.game_date,
            white_player: white,
            black_player: black,
            result: match self.result {
                Some(r) => r,
                None => GameResult::Star,
            },
            rating_outcome_for_white: self.rating_outcome_for_white,
            rating_outcome_for_black: self.rating_outcome_for_black,
            eco: or_empty_string(self.eco),
            opening: or_empty_string(self.opening),
            timecontrol: self.timecontrol,
            termination: match self.termination {
                Some(t) => t,
                None => Termination::Unterminated,
            },
            game_entries: self.game_entries,
        };
        Ok(g)
    }
}

/// An optional string, or a fresh empty one.
fn or_empty_string(s: Option<String>) -> (r: String)
    ensures
        r@ == or_empty(match s {
            Some(ref s) => Some(s@),
            None => None,
        }),
{
    match s {
        Some(s) => s,
        None => String::new(),
    }
}

/// The glyph of a known NAG code.
fn nag_from_code(v: u64) -> (r: Nag)
    requires
        1 <= v <= 6,
    ensures
        Some(r) == nag_of_code(v as nat),
{
    if v == 1 {
        Nag::GoodMove
    } else if v == 2 {
        Nag::Mistake
    } else if v == 3 {
        Nag::BrilliantMove
    } else if v == 4 {
        Nag::Blunder
    } else if v == 5 {
        Nag::SpeculativeMove
    } else {
        Nag::DubiousMove
    }
}

/// Reads one plain token held in `moves[from..to]`: nothing to add, one
/// entry to add, or the message of a malformed token.
fn token_step(moves: &str, cs: &Vec<char>, from: usize, to: usize) -> (r: Result<
    Option<GameEntry>,
    String,
>)
    requires
        cs@ == moves@,
        from <= to <= moves@.len(),
    ensures
        r matches Ok(step) ==> spec_token(moves@.subrange(from as int, to as int)) == Some(step),
        r is Err ==> spec_token(moves@.subrange(from as int, to as int)) is None,
{
    let ghost tok = moves@.subrange(from as int, to as int);
    proof {
        reveal(spec_token);
    }
    let tok_str = moves.substring_char(from, to);
    proof {
        assert(tok_str@ =~= tok);
    }
    if crate::text::str_eq(tok_str, "1-0") || crate::text::str_eq(tok_str, "0-1")
        || crate::text::str_eq(tok_str, "1/2-1/2") || crate::text::str_eq(tok_str, "*") {
        return Ok(None);
    }
    if move_number_range(cs, from, to) {
        return Ok(None);
    }
    proof {
        assert(!is_result_token(tok) && !is_move_number(tok));
    }
    if from < to && cs[from] == '$' {
        proof {
            assert(tok[0] == '$');
            assert(tok.drop_first() =~= moves@.subrange(from as int + 1, to as int));
        }
        match parse_digits_range(cs, from + 1, to) {
            Some(v) => {
                if 1 <= v && v <= 6 {
                    let nag = nag_from_code(v);
                    Ok(Some(GameEntry { san: None, nag: Some(nag), comment: None }))
                } else {
                    Err(token_error(moves, from, to))
                }
            },
            None => Err(token_error(moves, from, to)),
        }
    } else {
        proof {
            if tok.len() > 0 {
                assert(tok[0] == moves@[from as int]);
            }
        }
        match crate::san::parse_san_token(cs, from, to) {
            Some(san) => Ok(Some(GameEntry { san: Some(san), nag: None, comment: None })),
            None => Err(token_error(moves, from, to)),
        }
    }
}

/// True when `s[from..to]` is a move-number token.
fn move_number_range(s: &Vec<char>, from: usize, to: usize) -> (r: bool)
    requires
        from <= to <= s@.len(),
    ensures
        r == is_move_number(s@.subrange(from as int, to as int)),
{
    let ghost t = s@.subrange(from as int, to as int);
    if from == to {
        return false;
    }
    let c0 = s[from];
    if c0 < '0' || c0 > '9' {
        proof {
            assert(t[0] == c0);
        }
        return false;
    }
    let mut i = from;
    while i < to
        invariant
            from <= i <= to <= s@.len(),
            t == s@.subrange(from as int, to as int),
            t.len() > 0 && is_digit(t[0]),
            forall|j: int| 0 <= j < i - from ==> is_digit(#[trigger] t[j]) || t[j] == '.',
        decreases to - i,
    {
        let c = s[i];
        if (c < '0' || c > '9') && c != '.' {
            proof {
                assert(t[i - from] == c);
            }
            return false;
        }
        proof {
            assert(t[i - from] == c);
        }
        i = i + 1;
    }
    true
}

/// The message of a malformed move-text token.
fn token_error(moves: &str, from: usize, to: usize) -> (r: String)
    requires
        from <= to <= moves@.len(),
    ensures
        r@ == "Unexpected token: "@ + moves@.subrange(from as int, to as int),
{
    proof {
        reveal_strlit("Unexpected token: ");
    }
    let mut msg = String::from_str("Unexpected token: ");
    let part = moves.substring_char(from, to);
    msg.append(part);
    msg
}

/// The message of a malformed header line.
fn line_error(metadata: &str, from: usize, to: usize) -> (r: String)
    requires
        from <= to <= metadata@.len(),
    ensures
        r@ == "Unexpected header line: "@ + metadata@.subrange(from as int, to as int),
{
    proof {
        reveal_strlit("Unexpected header line: ");
    }
    let mut msg = String::from_str("Unexpected header line: ");
    let part = metadata.substring_char(from, to);
    msg.append(part);
    msg
}

/// Parses one raw game into the typed model: the parsed game, the
/// recoverable errors that reject it, or a fatal failure.
pub fn parse_game(raw: &RawChessGame) -> (r: Result<ChessGame, ParseFailure>)
    ensures
        (spec_parse_game(raw@.metadata, raw@.moves) is None) <==> (r matches Err(f) && f is Fatal),
        spec_parse_game(raw@.metadata, raw@.moves) matches Some(Ok(g)) ==> (r matches Ok(game)
            && game@ == g),
        spec_parse_game(raw@.metadata, raw@.moves) matches Some(Err(errs)) ==> (r matches Err(f)
            && f matches ParseFailure::Rejected(es) && es.deep_view() == errs),
{
    let mut visitor = GameVisitor::new();
    match visitor.headers(raw.metadata.as_str()) {
        Err(m) => {
            return Err(ParseFailure::Fatal(m));
        },
        Ok(()) => {},
    }
    match visitor.movetext(raw.moves.as_str()) {
        Err(m) => {
            return Err(ParseFailure::Fatal(m));
        },
        Ok(()) => {},
    }
    match visitor.end_game() {
        Ok(g) => Ok(g),
        Err(errs) => Err(ParseFailure::Rejected(errs)),
    }
}

/// The message of a malformed comment.
fn comment_error(text: &str) -> (r: String)
    ensures
        r@ == "Unexpected comment: "@ + text@,
{
    proof {
        reveal_strlit("Unexpected comment: ");
    }
    let mut msg = String::from_str("Unexpected comment: ");
    msg.append(text);
    msg
}

/// Parses one fragment `key value` held in `text[from..to]`.
fn parse_fragment(text: &str, cs: &Vec<char>, from: usize, to: usize) -> (r: Option<GameEntry>)
    requires
        cs@ == text@,
        from <= to <= text@.len(),
    ensures
        r == spec_fragment(text@.subrange(from as int, to as int)),
{
    let ghost part = text@.subrange(from as int, to as int);
    proof {
        reveal(spec_fragment);
    }
    let sp = find_char_in(cs, ' ', from, to);
    proof {
        assert(find_idx(part, ' ') == sp - from);
    }
    if sp == to {
        return None;
    }
    let key = text.substring_char(from, sp);
    let val = text.substring_char(sp + 1, to);
    proof {
        assert(key@ =~= part.subrange(0, sp - from));
        assert(val@ =~= part.subrange(sp - from + 1, part.len() as int));
    }
    if crate::text::str_eq(key, "%clk") {
        match parse_time(val) {
            Some(t) => Some(
                GameEntry {
                    san: None,
                    nag: None,
                    comment: Some(
                        Comment {
                            clock: Some(t),
                            eval_centipawns: None,
                            getting_mated_in: None,
                        },
                    ),
                },
            ),
            None => None,
        }
    } else if crate::text::str_eq(key, "%eval") {
        let vn = val.unicode_len();
        if vn > 0 && val.get_char(0) == '#' {
            let rest = val.substring_char(1, vn);
            proof {
                assert(rest@ =~= val@.drop_first());
            }
            match parse_i32_str(rest) {
                Some(m) => Some(
                    GameEntry {
                        san: None,
                        nag: None,
                        comment: Some(
                            Comment {
                                clock: None,
                                eval_centipawns: None,
                                getting_mated_in: Some(m),
                            },
                        ),
                    },
                ),
                None => None,
            }
        } else {
            match parse_eval_centipawns(val) {
                Some(cp) => Some(
                    GameEntry {
                        san: None,
                        nag: None,
                        comment: Some(
                            Comment {
                                clock: None,
                                eval_centipawns: Some(cp),
                                getting_mated_in: None,
                            },
                        ),
                    },
                ),
                None => None,
            }
        }
    } else {
        None
    }
}

/// Parses a decimal evaluation into centipawns.
pub fn parse_eval_centipawns(s: &str) -> (r: Option<i64>)
    ensures
        r == spec_eval_centipawns(s@),
{
    let cs = chars_of(s);
    let n = cs.len();
    let neg = n > 0 && cs[0] == '-';
    let start: usize = if neg {
        1
    } else {
        0
    };
    let ghost d = if neg {
        s@.drop_first()
    } else {
        s@
    };
    proof {
        assert(d =~= s@.subrange(start as int, n as int));
    }
    let dot = find_char_in(&cs, '.', start, n);
    proof {
        assert(find_idx(d, '.') == dot - start);
        assert(d.subrange(0, dot - start) =~= s@.subrange(start as int, dot as int));
    }
    let ip = match parse_digits_range(&cs, start, dot) {
        Some(v) => v,
        None => {
            return None;
        },
    };
    if ip > 92233720368547757 {
        return None;
    }
    if dot == n {
        let cents = ip * 100;
        if neg {
            Some(-(cents as i64))
        } else {
            Some(cents as i64)
        }
    } else {
        let ghost fp = d.subrange(dot - start + 1, d.len() as int);
        proof {
            assert(fp =~= s@.subrange(dot as int + 1, n as int));
        }
        if dot + 1 == n {
            return None;
        }
        if !digits_only(&cs, dot + 1, n) {
            return None;
        }
        let f0: u64 = (cs[dot + 1] as u32 as u64) - 48;
        let f1: u64 = if dot + 2 < n {
            (cs[dot + 2] as u32 as u64) - 48
        } else {
            0
        };
        proof {
            assert(is_digit(fp[0]));
            if dot + 2 < n {
                assert(is_digit(fp[1]));
            }
            assert(frac_cents(fp) == f0 * 10 + f1);
        }
        let cents = ip * 100 + f0 * 10 + f1;
        if neg {
            Some(-(cents as i64))
        } else {
            Some(cents as i64)
        }
    }
}

} // verus!
