//! The PGN visitor state machine: it folds header tag/value pairs and
//! move-text entries into a `ChessGame`, collecting recoverable errors and
//! stopping on fatal ones, as the header table of the pipeline's contract
//! prescribes.

use vstd::prelude::*;
use vstd::string::*;
use crate::model::{
    CastleSan, CastlingSide, ChessGame, ChessGameSpec, Comment, File, GameEntry, GameResult, Nag,
    NormalSan, Player, PlayerSpec, PlayerTitle, PutSan, Rank, Role, San, Square, Termination,
    Timecontrol,
};
use crate::dates::{
    Date, date_of_text, epoch_seconds, epoch_seconds_of, is_date_text, is_time_text, parse_date,
    parse_time, time_of_text, valid_date,
};
use crate::text::{spec_parse_i32, spec_parse_u32, parse_i32_str, parse_u32_str, str_eq};

verus! {

/// Accumulates one player's header fields.
pub struct PlayerBuilder {
    pub name: Option<String>,
    pub elo: Option<u32>,
    pub title: Option<PlayerTitle>,
}

/// Mathematical value of a `PlayerBuilder`.
pub ghost struct PlayerBuilderSpec {
    pub name: Option<Seq<char>>,
    pub elo: Option<u32>,
    pub title: Option<PlayerTitle>,
}

impl View for PlayerBuilder {
    type V = PlayerBuilderSpec;

    open spec fn view(&self) -> PlayerBuilderSpec {
        PlayerBuilderSpec {
            name: match self.name {
                Some(ref n) => Some(n@),
                None => None,
            },
            elo: self.elo,
            title: self.title,
        }
    }
}

/// The game a player builder finalizes to: missing fields default to an
/// empty name and an Elo of zero.
pub open spec fn built_player(b: PlayerBuilderSpec) -> PlayerSpec {
    PlayerSpec {
        name: match b.name {
            Some(n) => n,
            None => Seq::empty(),
        },
        elo: match b.elo {
            Some(e) => e,
            None => 0,
        },
        title: b.title,
    }
}

/// Visitor driven over one PGN record: headers first, then move-text
/// entries, then `end_game`.
pub struct GameVisitor {
    pub event_name: Option<String>,
    pub link: Option<String>,
    pub game_date: Option<i64>,
    pub result: Option<GameResult>,
    pub rating_outcome_for_white: Option<i32>,
    pub rating_outcome_for_black: Option<i32>,
    pub eco: Option<String>,
    pub opening: Option<String>,
    pub timecontrol: Option<Timecontrol>,
    pub termination: Option<Termination>,
    pub errors: Vec<String>,
    pub white_player: PlayerBuilder,
    pub black_player: PlayerBuilder,
    pub date: Option<Date>,
    pub used_utc_header_for_date: bool,
    pub game_entries: Vec<GameEntry>,
}

/// Mathematical value of a `GameVisitor`.
pub ghost struct GameVisitorSpec {
    pub event_name: Option<Seq<char>>,
    pub link: Option<Seq<char>>,
    pub game_date: Option<i64>,
    pub result: Option<GameResult>,
    pub rating_outcome_for_white: Option<i32>,
    pub rating_outcome_for_black: Option<i32>,
    pub eco: Option<Seq<char>>,
    pub opening: Option<Seq<char>>,
    pub timecontrol: Option<Timecontrol>,
    pub termination: Option<Termination>,
    pub errors: Seq<Seq<char>>,
    pub white_player: PlayerBuilderSpec,
    pub black_player: PlayerBuilderSpec,
    pub date: Option<Date>,
    pub used_utc_header_for_date: bool,
    pub game_entries: Seq<GameEntry>,
}

impl View for GameVisitor {
    type V = GameVisitorSpec;

    open spec fn view(&self) -> GameVisitorSpec {
        GameVisitorSpec {
            event_name: match self.event_name {
                Some(ref s) => Some(s@),
                None => None,
            },
            link: match self.link {
                Some(ref s) => Some(s@),
                None => None,
            },
            game_date: self.game_date,
            result: self.result,
            rating_outcome_for_white: self.rating_outcome_for_white,
            rating_outcome_for_black: self.rating_outcome_for_black,
            eco: match self.eco {
                Some(ref s) => Some(s@),
                None => None,
            },
            opening: match self.opening {
                Some(ref s) => Some(s@),
                None => None,
            },
            timecontrol: self.timecontrol,
            termination: self.termination,
            errors: self.errors.deep_view(),
            white_player: self.white_player@,
            black_player: self.black_player@,
            date: self.date,
            used_utc_header_for_date: self.used_utc_header_for_date,
            game_entries: self.game_entries@,
        }
    }
}

/// Structural invariant of the visitor: a pending date is calendar-valid.
pub open spec fn visitor_wf(v: GameVisitorSpec) -> bool {
    v.date matches Some(d) ==> valid_date(d)
}

/// The fresh visitor: everything unset.
pub open spec fn initial_visitor() -> GameVisitorSpec {
    GameVisitorSpec {
        event_name: None,
        link: None,
        game_date: None,
        result: None,
        rating_outcome_for_white: None,
        rating_outcome_for_black: None,
        eco: None,
        opening: None,
        timecontrol: None,
        termination: None,
        errors: Seq::empty(),
        white_player: PlayerBuilderSpec { name: None, elo: None, title: None },
        black_player: PlayerBuilderSpec { name: None, elo: None, title: None },
        date: None,
        used_utc_header_for_date: false,
        game_entries: Seq::empty(),
    }
}

/// The header tags the table recognizes.
pub open spec fn known_header(key: Seq<char>) -> bool {
    ||| key == "Event"@
    ||| key == "Site"@
    ||| key == "Date"@
    ||| key == "Round"@
    ||| key == "White"@
    ||| key == "WhiteElo"@
    ||| key == "WhiteTitle"@
    ||| key == "Black"@
    ||| key == "BlackElo"@
    ||| key == "BlackTitle"@
    ||| key == "Result"@
    ||| key == "UTCDate"@
    ||| key == "UTCTime"@
    ||| key == "WhiteRatingDiff"@
    ||| key == "BlackRatingDiff"@
    ||| key == "ECO"@
    ||| key == "Opening"@
    ||| key == "TimeControl"@
    ||| key == "Termination"@
}

/// The `Result` header table; an unknown value is fatal.
pub open spec fn result_of_value(value: Seq<char>) -> Option<GameResult> {
    if value == "1-0"@ {
        Some(GameResult::WhiteWins)
    } else if value == "0-1"@ {
        Some(GameResult::BlackWins)
    } else if value == "1/2-1/2"@ {
        Some(GameResult::Draw)
    } else if value == "*"@ {
        Some(GameResult::Star)
    } else {
        None
    }
}

/// The `Termination` header table; an unknown value is a recoverable
/// error.
pub open spec fn termination_of_value(value: Seq<char>) -> Option<Termination> {
    if value == "Normal"@ {
        Some(Termination::Normal)
    } else if value == "Time forfeit"@ {
        Some(Termination::TimeForfeit)
    } else if value == "Abandoned"@ {
        Some(Termination::Abandoned)
    } else if value == "Unterminated"@ {
        Some(Termination::Unterminated)
    } else if value == "Rules infraction"@ {
        Some(Termination::RulesInfraction)
    } else {
        None
    }
}

/// The `TimeControl` header: `D+I`, both unsigned seconds, split at the
/// first `+`.
pub open spec fn timecontrol_of_value(value: Seq<char>) -> Option<Timecontrol> {
    let i = crate::text::find_idx(value, '+');
    if i == value.len() {
        None
    } else {
        match (
            spec_parse_u32(value.subrange(0, i)),
            spec_parse_u32(value.subrange(i + 1, value.len() as int)),
        ) {
            (Some(d), Some(inc)) => Some(Timecontrol { duration: d, increment: inc }),
            _ => None,
        }
    }
}

/// One step of the header table: the visitor after seeing `key = value`,
/// or `None` where the table calls the value fatal.
#[verifier::opaque]
pub open spec fn spec_header(
    v: GameVisitorSpec,
    key: Seq<char>,
    value: Seq<char>,
) -> Option<GameVisitorSpec> {
    if key == "Event"@ {
        Some(GameVisitorSpec { event_name: Some(value), ..v })
    } else if key == "Site"@ {
        Some(GameVisitorSpec { link: Some(value), ..v })
    } else if key == "Date"@ {
        if v.used_utc_header_for_date {
            Some(v)
        } else if is_date_text(value) {
            Some(GameVisitorSpec { date: Some(date_of_text(value)), ..v })
        } else {
            None
        }
    } else if key == "Round"@ {
        if value == "-"@ {
            Some(v)
        } else {
            None
        }
    } else if key == "White"@ {
        Some(
            GameVisitorSpec {
                white_player: PlayerBuilderSpec { name: Some(value), ..v.white_player },
                ..v
            },
        )
    } else if key == "WhiteElo"@ {
        match spec_parse_u32(value) {
            Some(elo) => Some(
                GameVisitorSpec {
                    white_player: PlayerBuilderSpec { elo: Some(elo), ..v.white_player },
                    ..v
                },
            ),
            None => None,
        }
    } else if key == "WhiteTitle"@ {
        match PlayerTitle::spec_try_from(value) {
            Some(t) => Some(
                GameVisitorSpec {
                    white_player: PlayerBuilderSpec { title: Some(t), ..v.white_player },
                    ..v
                },
            ),
            None => Some(
                GameVisitorSpec {
                    errors: v.errors.push("Unexpected player title: "@ + value),
                    ..v
                },
            ),
        }
    } else if key == "Black"@ {
        Some(
            GameVisitorSpec {
                black_player: PlayerBuilderSpec { name: Some(value), ..v.black_player },
                ..v
            },
        )
    } else if key == "BlackElo"@ {
        match spec_parse_u32(value) {
            Some(elo) => Some(
                GameVisitorSpec {
                    black_player: PlayerBuilderSpec { elo: Some(elo), ..v.black_player },
                    ..v
                },
            ),
            None => None,
        }
    } else if key == "BlackTitle"@ {
        match PlayerTitle::spec_try_from(value) {
            Some(t) => Some(
                GameVisitorSpec {
                    black_player: PlayerBuilderSpec { title: Some(t), ..v.black_player },
                    ..v
                },
            ),
            None => Some(
                GameVisitorSpec {
                    errors: v.errors.push("Unexpected player title: "@ + value),
                    ..v
                },
            ),
        }
    } else if key == "Result"@ {
        match result_of_value(value) {
            Some(res) => Some(GameVisitorSpec { result: Some(res), ..v }),
            None => None,
        }
    } else if key == "UTCDate"@ {
        if is_date_text(value) {
            Some(
                GameVisitorSpec {
                    date: Some(date_of_text(value)),
                    used_utc_header_for_date: true,
                    ..v
                },
            )
        } else {
            None
        }
    } else if key == "UTCTime"@ {
        if !v.used_utc_header_for_date {
            None
        } else {
            match v.date {
                Some(d) => if is_time_text(value) {
                    Some(
                        GameVisitorSpec {
                            game_date: Some(
                                epoch_seconds_of(d, time_of_text(value) as u64) as i64,
                            ),
                            ..v
                        },
                    )
                } else {
                    None
                },
                None => None,
            }
        }
    } else if key == "WhiteRatingDiff"@ {
        match spec_parse_i32(value) {
            Some(d) => Some(GameVisitorSpec { rating_outcome_for_white: Some(d), ..v }),
            None => None,
        }
    } else if key == "BlackRatingDiff"@ {
        match spec_parse_i32(value) {
            Some(d) => Some(GameVisitorSpec { rating_outcome_for_black: Some(d), ..v }),
            None => None,
        }
    } else if key == "ECO"@ {
        Some(GameVisitorSpec { eco: Some(value), ..v })
    } else if key == "Opening"@ {
        Some(GameVisitorSpec { opening: Some(value), ..v })
    } else if key == "TimeControl"@ {
        if value == "-"@ {
            Some(GameVisitorSpec { timecontrol: None, ..v })
        } else {
            match timecontrol_of_value(value) {
                Some(tc) => Some(GameVisitorSpec { timecontrol: Some(tc), ..v }),
                None => None,
            }
        }
    } else if key == "Termination"@ {
        match termination_of_value(value) {
            Some(t) => Some(GameVisitorSpec { termination: Some(t), ..v }),
            None => Some(
                GameVisitorSpec { errors: v.errors.push("Unexpected termination: "@ + value), ..v },
            ),
        }
    } else {
        Some(
            GameVisitorSpec {
                errors: v.errors.push("Unexpected header: "@ + key + " = "@ + value),
                ..v
            },
        )
    }
}

impl GameVisitor {
    /// A visitor with every field unset, ready for one game.
    pub fn new() -> (r: Self)
        ensures
            r@ == initial_visitor(),
            visitor_wf(r@),
    {
        let r = GameVisitor {
            event_name: None,
            link: None,
            game_date: None,
            result: None,
            rating_outcome_for_white: None,
            rating_outcome_for_black: None,
            eco: None,
            opening: None,
            timecontrol: None,
            termination: None,
            errors: Vec::new(),
            white_player: PlayerBuilder { name: None, elo: None, title: None },
            black_player: PlayerBuilder { name: None, elo: None, title: None },
            date: None,
            used_utc_header_for_date: false,
            game_entries: Vec::new(),
        };
        proof {
            assert(r@.errors =~= initial_visitor().errors);
            assert(r@.game_entries =~= initial_visitor().game_entries);
        }
        r
    }

    /// Applies one header tag/value pair; `Err` carries the message of a
    /// fatal value.
    pub fn header(&mut self, key: &str, value: &str) -> (r: Result<(), String>)
        requires
            visitor_wf(old(self)@),
        ensures
            visitor_wf(final(self)@),
            r is Ok <==> spec_header(old(self)@, key@, value@) is Some,
            r is Ok ==> Some(final(self)@) == spec_header(old(self)@, key@, value@),
            r is Err ==> final(self)@ == old(self)@,
    {
        proof {
            reveal(spec_header);
        }
        if str_eq(key, "Event") {
            self.event_name = Some(value.to_owned());
            Ok(())
        } else if str_eq(key, "Site") {
            self.link = Some(value.to_owned());
            Ok(())
        } else if str_eq(key, "Date") {
            if self.used_utc_header_for_date {
                Ok(())
            } else {
                match parse_date(value) {
                    Some(d) => {
                        self.date = Some(d);
                        Ok(())
                    },
                    None => Err(fatal_message("Unexpected value for header: Date = ", value)),
                }
            }
        } else if str_eq(key, "Round") {
            if str_eq(value, "-") {
                Ok(())
            } else {
                Err(fatal_message("Unexpected value for round header: ", value))
            }
        } else if str_eq(key, "White") {
            self.white_player.name = Some(value.to_owned());
            Ok(())
        } else if str_eq(key, "WhiteElo") {
            match parse_u32_str(value) {
                Some(elo) => {
                    self.white_player.elo = Some(elo);
                    Ok(())
                },
                None => Err(fatal_message("Unexpected value for header: WhiteElo = ", value)),
            }
        } else if str_eq(key, "WhiteTitle") {
            match PlayerTitle::try_from(value) {
                Some(t) => {
                    self.white_player.title = Some(t);
                },
                None => {
                    proof {
                        reveal_strlit("Unexpected player title: ");
                    }
                    let msg = fatal_message("Unexpected player title: ", value);
                    push_error(&mut self.errors, msg);
                },
            }
            Ok(())
        } else if str_eq(key, "Black") {
            self.black_player.name = Some(value.to_owned());
            Ok(())
        } else if str_eq(key, "BlackElo") {
            match parse_u32_str(value) {
                Some(elo) => {
                    self.black_player.elo = Some(elo);
                    Ok(())
                },
                None => Err(fatal_message("Unexpected value for header: BlackElo = ", value)),
            }
        } else if str_eq(key, "BlackTitle") {
            match PlayerTitle::try_from(value) {
                Some(t) => {
                    self.black_player.title = Some(t);
                },
                None => {
                    proof {
                        reveal_strlit("Unexpected player title: ");
                    }
                    let msg = fatal_message("Unexpected player title: ", value);
                    push_error(&mut self.errors, msg);
                },
            }
            Ok(())
        } else if str_eq(key, "Result") {
            let res = if str_eq(value, "1-0") {
                Some(GameResult::WhiteWins)
            } else if str_eq(value, "0-1") {
                Some(GameResult::BlackWins)
            } else if str_eq(value, "1/2-1/2") {
                Some(GameResult::Draw)
            } else if str_eq(value, "*") {
                Some(GameResult::Star)
            } else {
                None
            };
            match res {
                Some(res) => {
                    self.result = Some(res);
                    Ok(())
                },
                None => Err(fatal_message("Unexpected result: ", value)),
            }
        } else if str_eq(key, "UTCDate") {
            match parse_date(value) {
                Some(d) => {
                    self.date = Some(d);
                    self.used_utc_header_for_date = true;
                    Ok(())
                },
                None => Err(fatal_message("Unexpected value for header: UTCDate = ", value)),
            }
        } else if str_eq(key, "UTCTime") {
            if !self.used_utc_header_for_date {
                return Err(
                    fatal_message("Expected UTCDate header to be parsed before the UTCTime", ""),
                );
            }
            let d = match self.date {
                Some(d) => d,
                None => {
                    return Err(
                        fatal_message(
                            "Expected UTCDate header to be parsed before the UTCTime",
                            "",
                        ),
                    );
                },
            };
            match parse_time(value) {
                Some(tod) => {
                    self.game_date = Some(epoch_seconds(&d, tod as u64));
                    Ok(())
                },
                None => Err(fatal_message("Unexpected value for header: UTCTime = ", value)),
            }
        } else if str_eq(key, "WhiteRatingDiff") {
            match parse_i32_str(value) {
                Some(diff) => {
                    self.rating_outcome_for_white = Some(diff);
                    Ok(())
                },
                None => Err(
                    fatal_message("Unexpected value for header: WhiteRatingDiff = ", value),
                ),
            }
        } else if str_eq(key, "BlackRatingDiff") {
            match parse_i32_str(value) {
                Some(diff) => {
                    self.rating_outcome_for_black = Some(diff);
                    Ok(())
                },
                None => Err(
                    fatal_message("Unexpected value for header: BlackRatingDiff = ", value),
                ),
            }
        } else if str_eq(key, "ECO") {
            self.eco = Some(value.to_owned());
            Ok(())
        } else if str_eq(key, "Opening") {
            self.opening = Some(value.to_owned());
            Ok(())
        } else if str_eq(key, "TimeControl") {
            if str_eq(value, "-") {
                self.timecontrol = None;
                Ok(())
            } else {
                match parse_timecontrol(value) {
                    Some(tc) => {
                        self.timecontrol = Some(tc);
                        Ok(())
                    },
                    None => Err(
                        fatal_message(
                            "Expected timecontrol to contain plus or be set to \"-\" (which we interprete as None): ",
                            value,
                        ),
                    ),
                }
            }
        } else if str_eq(key, "Termination") {
            let t = if str_eq(value, "Normal") {
                Some(Termination::Normal)
            } else if str_eq(value, "Time forfeit") {
                Some(Termination::TimeForfeit)
            } else if str_eq(value, "Abandoned") {
                Some(Termination::Abandoned)
            } else if str_eq(value, "Unterminated") {
                Some(Termination::Unterminated)
            } else if str_eq(value, "Rules infraction") {
                Some(Termination::RulesInfraction)
            } else {
                None
            };
            match t {
                Some(t) => {
                    self.termination = Some(t);
                },
                None => {
                    proof {
                        reveal_strlit("Unexpected termination: ");
                    }
                    let msg = fatal_message("Unexpected termination: ", value);
                    push_error(&mut self.errors, msg);
                },
            }
            Ok(())
        } else {
            let mut msg = String::from_str("Unexpected header: ");
            msg.append(key);
            msg.append(" = ");
            msg.append(value);
            push_error(&mut self.errors, msg);
            Ok(())
        }
    }
}

/// Records a recoverable error.
fn push_error(errors: &mut Vec<String>, msg: String)
    ensures
        final(errors).deep_view() == old(errors).deep_view().push(msg@),
{
    let ghost m = msg@;
    errors.push(msg);
    proof {
        assert(errors.deep_view() =~= old(errors).deep_view().push(m)) by {
            assert(forall|i: int|
                0 <= i < old(errors)@.len() ==> errors@[i] == old(errors)@[i]);
        }
    }
}

/// A fatal-error message: the fixed text followed by the offending value.
fn fatal_message(prefix: &str, value: &str) -> (r: String)
    ensures
        r@ == prefix@ + value@,
{
    let mut msg = String::from_str(prefix);
    msg.append(value);
    msg
}

/// Parses a `D+I` time control.
pub fn parse_timecontrol(value: &str) -> (r: Option<Timecontrol>)
    ensures
        r == timecontrol_of_value(value@),
{
    let cs = crate::text::chars_of(value);
    let n = cs.len();
    let i = crate::text::find_char_from(&cs, '+', 0);
    proof {
        assert(value@.subrange(0, value@.len() as int) =~= value@);
    }
    if i == n {
        return None;
    }
    let left = parse_u32_range(&cs, 0, i);
    let right = parse_u32_range(&cs, i + 1, n);
    match (left, right) {
        (Some(d), Some(inc)) => Some(Timecontrol { duration: d, increment: inc }),
        _ => None,
    }
}

/// Parses `s[from..to]` as a `u32` numeral with an optional leading `+`.
fn parse_u32_range(s: &Vec<char>, from: usize, to: usize) -> (r: Option<u32>)
    requires
        from <= to <= s@.len(),
    ensures
        r == spec_parse_u32(s@.subrange(from as int, to as int)),
{
    let ghost whole = s@.subrange(from as int, to as int);
    proof {
        if whole.len() > 0 && whole[0] == '+' {
            assert(s@.subrange(from as int + 1, to as int) =~= whole.drop_first());
        }
    }
    match crate::text::parse_u64_range(s, from, to) {
        Some(v) => {
            if v <= u32::MAX as u64 {
                Some(v as u32)
            } else {
                None
            }
        },
        None => None,
    }
}

} // verus!
