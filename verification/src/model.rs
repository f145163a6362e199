//! Typed in-memory model of a parsed chess game: the game record, players,
//! moves in SAN form, annotation glyphs and evaluation comments.

use vstd::prelude::*;

verus! {

/// Piece kind named by a SAN token.
#[derive(Clone, Copy, Debug, PartialEq, Eq, Structural)]
pub enum Role {
    Pawn,
    Knight,
    Bishop,
    Rook,
    Queen,
    King,
}

/// Board file, `a` through `h`.
#[derive(Clone, Copy, Debug, PartialEq, Eq, Structural)]
pub enum File {
    A,
    B,
    C,
    D,
    E,
    F,
    G,
    H,
}

/// Board rank, `1` through `8`.
#[derive(Clone, Copy, Debug, PartialEq, Eq, Structural)]
pub enum Rank {
    First,
    Second,
    Third,
    Fourth,
    Fifth,
    Sixth,
    Seventh,
    Eighth,
}

/// A board square, the target of a move.
#[derive(Clone, Copy, Debug, PartialEq, Eq, Structural)]
pub struct Square {
    pub file: File,
    pub rank: Rank,
}

/// Side of a castling move.
#[derive(Clone, Copy, Debug, PartialEq, Eq, Structural)]
pub enum CastlingSide {
    KingSide,
    QueenSide,
}

/// Numeric annotation glyph attached to a move. Only the six codes `$1`
/// through `$6` are recognized; any other code is a fatal parse error.
#[derive(Clone, Copy, Debug, PartialEq, Eq, Structural)]
pub enum Nag {
    GoodMove,
    Mistake,
    BrilliantMove,
    Blunder,
    SpeculativeMove,
    DubiousMove,
}

/// Player title from the `WhiteTitle` / `BlackTitle` headers.
#[derive(Clone, Copy, Debug, PartialEq, Eq, Structural)]
pub enum PlayerTitle {
    FideMaster,
    InternationalMaster,
    NationalMaster,
    Bot,
    CandidateMaster,
    Grandmaster,
    WomanInternationalMaster,
    WomanFideMaster,
    LichessMaster,
    WomanGrandmaster,
    WomanCandidateMaster,
}

/// Game outcome from the `Result` header.
#[derive(Clone, Copy, Debug, PartialEq, Eq, Structural)]
pub enum GameResult {
    WhiteWins,
    BlackWins,
    Draw,
    Star,
}

/// How the game ended, from the `Termination` header.
#[derive(Clone, Copy, Debug, PartialEq, Eq, Structural)]
pub enum Termination {
    Normal,
    TimeForfeit,
    Abandoned,
    Unterminated,
    RulesInfraction,
}

/// Time control: base duration and per-move increment, both in seconds.
#[derive(Clone, Copy, Debug, PartialEq, Eq, Structural)]
pub struct Timecontrol {
    pub duration: u32,
    pub increment: u32,
}

/// A fully disambiguated normal move.
#[derive(Clone, Copy, Debug, PartialEq, Eq, Structural)]
pub struct NormalSan {
    pub role: Role,
    pub file: Option<File>,
    pub rank: Option<Rank>,
    pub capture: bool,
    pub to: Square,
    pub promotion: Option<Role>,
}

/// A castling move.
#[derive(Clone, Copy, Debug, PartialEq, Eq, Structural)]
pub struct CastleSan {
    pub side: CastlingSide,
}

/// A piece drop.
#[derive(Clone, Copy, Debug, PartialEq, Eq, Structural)]
pub struct PutSan {
    pub role: Role,
    pub to: Square,
}

/// One SAN token: exactly one of the three shapes, or none of them for a
/// null move, plus the check / checkmate suffix flags (absent when the
/// token carries no suffix).
#[derive(Clone, Copy, Debug, PartialEq, Eq, Structural)]
pub struct San {
    pub normal: Option<NormalSan>,
    pub castle: Option<CastleSan>,
    pub put: Option<PutSan>,
    pub is_check: Option<bool>,
    pub is_checkmate: Option<bool>,
}

/// One bracketed comment fragment: a clock reading in seconds from
/// midnight, or an engine evaluation. At most one of `eval_centipawns`
/// and `getting_mated_in` is present.
#[derive(Clone, Copy, Debug, PartialEq, Eq, Structural)]
pub struct Comment {
    pub clock: Option<u32>,
    pub eval_centipawns: Option<i64>,
    pub getting_mated_in: Option<i32>,
}

/// One entry of a game's move text: exactly one of a SAN move, an
/// annotation glyph, or a comment fragment.
#[derive(Clone, Copy, Debug, PartialEq, Eq, Structural)]
pub struct GameEntry {
    pub san: Option<San>,
    pub nag: Option<Nag>,
    pub comment: Option<Comment>,
}

/// A player of one game.
#[derive(Clone, Debug, PartialEq)]
pub struct Player {
    pub name: String,
    pub elo: u32,
    pub title: Option<PlayerTitle>,
}

/// Mathematical value of a `Player`.
pub ghost struct PlayerSpec {
    pub name: Seq<char>,
    pub elo: u32,
    pub title: Option<PlayerTitle>,
}

impl View for Player {
    type V = PlayerSpec;

    open spec fn view(&self) -> PlayerSpec {
        PlayerSpec { name: self.name@, elo: self.elo, title: self.title }
    }
}

/// A parsed game: typed header data plus the ordered move-text entries.
/// `date` is seconds since the Unix epoch, set only when both `UTCDate`
/// and `UTCTime` headers were seen.
#[derive(Clone, Debug, PartialEq)]
pub struct ChessGame {
    pub event_name: String,
    pub link: String,
    pub date: Option<i64>,
    pub white_player: Player,
    pub black_player: Player,
    pub result: GameResult,
    pub rating_outcome_for_white: Option<i32>,
    pub rating_outcome_for_black: Option<i32>,
    pub eco: String,
    pub opening: String,
    pub timecontrol: Option<Timecontrol>,
    pub termination: Termination,
    pub game_entries: Vec<GameEntry>,
}

/// Mathematical value of a `ChessGame`.
pub ghost struct ChessGameSpec {
    pub event_name: Seq<char>,
    pub link: Seq<char>,
    pub date: Option<i64>,
    pub white_player: PlayerSpec,
    pub black_player: PlayerSpec,
    pub result: GameResult,
    pub rating_outcome_for_white: Option<i32>,
    pub rating_outcome_for_black: Option<i32>,
    pub eco: Seq<char>,
    pub opening: Seq<char>,
    pub timecontrol: Option<Timecontrol>,
    pub termination: Termination,
    pub game_entries: Seq<GameEntry>,
}

impl View for ChessGame {
    type V = ChessGameSpec;

    open spec fn view(&self) -> ChessGameSpec {
        ChessGameSpec {
            event_name: self.event_name@,
            link: self.link@,
            date: self.date,
            white_player: self.white_player@,
            black_player: self.black_player@,
            result: self.result,
            rating_outcome_for_white: self.rating_outcome_for_white,
            rating_outcome_for_black: self.rating_outcome_for_black,
            eco: self.eco@,
            opening: self.opening@,
            timecontrol: self.timecontrol,
            termination: self.termination,
            game_entries: self.game_entries@,
        }
    }
}

/// A raw game as published by the splitter: the PGN header block and the
/// move-text block, without the blank-line separators that framed them.
#[derive(Clone, Debug, PartialEq)]
pub struct RawChessGame {
    pub metadata: String,
    pub moves: String,
}

/// Mathematical value of a `RawChessGame`.
pub ghost struct RawChessGameSpec {
    pub metadata: Seq<char>,
    pub moves: Seq<char>,
}

impl View for RawChessGame {
    type V = RawChessGameSpec;

    open spec fn view(&self) -> RawChessGameSpec {
        RawChessGameSpec { metadata: self.metadata@, moves: self.moves@ }
    }
}

/// Stable numeric code of a piece kind.
pub open spec fn role_code(r: Role) -> u8 {
    match r {
        Role::Pawn => 0,
        Role::Knight => 1,
        Role::Bishop => 2,
        Role::Rook => 3,
        Role::Queen => 4,
        Role::King => 5,
    }
}

/// Piece kind of a code.
pub open spec fn role_of_code(c: u8) -> Option<Role> {
    if c == 0 {
        Some(Role::Pawn)
    } else if c == 1 {
        Some(Role::Knight)
    } else if c == 2 {
        Some(Role::Bishop)
    } else if c == 3 {
        Some(Role::Rook)
    } else if c == 4 {
        Some(Role::Queen)
    } else if c == 5 {
        Some(Role::King)
    } else {
        None
    }
}

/// Stable numeric code of a file, `a` first.
pub open spec fn file_code(f: File) -> u8 {
    match f {
        File::A => 0,
        File::B => 1,
        File::C => 2,
        File::D => 3,
        File::E => 4,
        File::F => 5,
        File::G => 6,
        File::H => 7,
    }
}

/// File of a code.
pub open spec fn file_of_code(c: u8) -> Option<File> {
    if c == 0 {
        Some(File::A)
    } else if c == 1 {
        Some(File::B)
    } else if c == 2 {
        Some(File::C)
    } else if c == 3 {
        Some(File::D)
    } else if c == 4 {
        Some(File::E)
    } else if c == 5 {
        Some(File::F)
    } else if c == 6 {
        Some(File::G)
    } else if c == 7 {
        Some(File::H)
    } else {
        None
    }
}

/// Stable numeric code of a rank, the first rank first.
pub open spec fn rank_code(k: Rank) -> u8 {
    match k {
        Rank::First => 0,
        Rank::Second => 1,
        Rank::Third => 2,
        Rank::Fourth => 3,
        Rank::Fifth => 4,
        Rank::Sixth => 5,
        Rank::Seventh => 6,
        Rank::Eighth => 7,
    }
}

/// Rank of a code.
pub open spec fn rank_of_code(c: u8) -> Option<Rank> {
    if c == 0 {
        Some(Rank::First)
    } else if c == 1 {
        Some(Rank::Second)
    } else if c == 2 {
        Some(Rank::Third)
    } else if c == 3 {
        Some(Rank::Fourth)
    } else if c == 4 {
        Some(Rank::Fifth)
    } else if c == 5 {
        Some(Rank::Sixth)
    } else if c == 6 {
        Some(Rank::Seventh)
    } else if c == 7 {
        Some(Rank::Eighth)
    } else {
        None
    }
}

/// Stable numeric code of a castling side.
pub open spec fn castling_code(s: CastlingSide) -> u8 {
    match s {
        CastlingSide::KingSide => 0,
        CastlingSide::QueenSide => 1,
    }
}

/// Castling side of a code.
pub open spec fn castling_of_code(c: u8) -> Option<CastlingSide> {
    if c == 0 {
        Some(CastlingSide::KingSide)
    } else if c == 1 {
        Some(CastlingSide::QueenSide)
    } else {
        None
    }
}

/// Stable numeric code of an annotation glyph, in the order of the
/// glyphs' own codes.
pub open spec fn nag_code(n: Nag) -> u8 {
    match n {
        Nag::GoodMove => 1,
        Nag::Mistake => 2,
        Nag::BrilliantMove => 3,
        Nag::Blunder => 4,
        Nag::SpeculativeMove => 5,
        Nag::DubiousMove => 6,
    }
}

/// Glyph of a code.
pub open spec fn nag_of_wire_code(c: u8) -> Option<Nag> {
    if c == 1 {
        Some(Nag::GoodMove)
    } else if c == 2 {
        Some(Nag::Mistake)
    } else if c == 3 {
        Some(Nag::BrilliantMove)
    } else if c == 4 {
        Some(Nag::Blunder)
    } else if c == 5 {
        Some(Nag::SpeculativeMove)
    } else if c == 6 {
        Some(Nag::DubiousMove)
    } else {
        None
    }
}

/// Stable numeric code of a game result.
pub open spec fn result_code(r: GameResult) -> u8 {
    match r {
        GameResult::WhiteWins => 0,
        GameResult::BlackWins => 1,
        GameResult::Draw => 2,
        GameResult::Star => 3,
    }
}

/// Game result of a code.
pub open spec fn result_of_code(c: u8) -> Option<GameResult> {
    if c == 0 {
        Some(GameResult::WhiteWins)
    } else if c == 1 {
        Some(GameResult::BlackWins)
    } else if c == 2 {
        Some(GameResult::Draw)
    } else if c == 3 {
        Some(GameResult::Star)
    } else {
        None
    }
}

/// Stable numeric code of a termination.
pub open spec fn termination_code(t: Termination) -> u8 {
    match t {
        Termination::Normal => 0,
        Termination::TimeForfeit => 1,
        Termination::Abandoned => 2,
        Termination::Unterminated => 3,
        Termination::RulesInfraction => 4,
    }
}

/// Termination of a code.
pub open spec fn termination_of_code(c: u8) -> Option<Termination> {
    if c == 0 {
        Some(Termination::Normal)
    } else if c == 1 {
        Some(Termination::TimeForfeit)
    } else if c == 2 {
        Some(Termination::Abandoned)
    } else if c == 3 {
        Some(Termination::Unterminated)
    } else if c == 4 {
        Some(Termination::RulesInfraction)
    } else {
        None
    }
}

/// Stable numeric code of a player title, in the order of the title
/// table.
pub open spec fn title_code(t: PlayerTitle) -> u8 {
    match t {
        PlayerTitle::FideMaster => 0,
        PlayerTitle::InternationalMaster => 1,
        PlayerTitle::NationalMaster => 2,
        PlayerTitle::Bot => 3,
        PlayerTitle::CandidateMaster => 4,
        PlayerTitle::Grandmaster => 5,
        PlayerTitle::WomanInternationalMaster => 6,
        PlayerTitle::WomanFideMaster => 7,
        PlayerTitle::LichessMaster => 8,
        PlayerTitle::WomanGrandmaster => 9,
        PlayerTitle::WomanCandidateMaster => 10,
    }
}

/// Title of a code.
pub open spec fn title_of_code(c: u8) -> Option<PlayerTitle> {
    if c == 0 {
        Some(PlayerTitle::FideMaster)
    } else if c == 1 {
        Some(PlayerTitle::InternationalMaster)
    } else if c == 2 {
        Some(PlayerTitle::NationalMaster)
    } else if c == 3 {
        Some(PlayerTitle::Bot)
    } else if c == 4 {
        Some(PlayerTitle::CandidateMaster)
    } else if c == 5 {
        Some(PlayerTitle::Grandmaster)
    } else if c == 6 {
        Some(PlayerTitle::WomanInternationalMaster)
    } else if c == 7 {
        Some(PlayerTitle::WomanFideMaster)
    } else if c == 8 {
        Some(PlayerTitle::LichessMaster)
    } else if c == 9 {
        Some(PlayerTitle::WomanGrandmaster)
    } else if c == 10 {
        Some(PlayerTitle::WomanCandidateMaster)
    } else {
        None
    }
}

/// Code of a value, executable form.
pub fn role_code_exec(v: Role) -> (r: u8)
    ensures
        r == role_code(v),
{
    match v {
        Role::Pawn => 0,
        Role::Knight => 1,
        Role::Bishop => 2,
        Role::Rook => 3,
        Role::Queen => 4,
        Role::King => 5,
    }
}

/// Value of a code, executable form.
pub fn role_of_code_exec(c: u8) -> (r: Option<Role>)
    ensures
        r == role_of_code(c),
{
    if c == 0 {
        Some(Role::Pawn)
    } else if c == 1 {
        Some(Role::Knight)
    } else if c == 2 {
        Some(Role::Bishop)
    } else if c == 3 {
        Some(Role::Rook)
    } else if c == 4 {
        Some(Role::Queen)
    } else if c == 5 {
        Some(Role::King)
    } else {
        None
    }
}

/// Code of a value, executable form.
pub fn file_code_exec(v: File) -> (r: u8)
    ensures
        r == file_code(v),
{
    match v {
        File::A => 0,
        File::B => 1,
        File::C => 2,
        File::D => 3,
        File::E => 4,
        File::F => 5,
        File::G => 6,
        File::H => 7,
    }
}

/// Value of a code, executable form.
pub fn file_of_code_exec(c: u8) -> (r: Option<File>)
    ensures
        r == file_of_code(c),
{
    if c == 0 {
        Some(File::A)
    } else if c == 1 {
        Some(File::B)
    } else if c == 2 {
        Some(File::C)
    } else if c == 3 {
        Some(File::D)
    } else if c == 4 {
        Some(File::E)
    } else if c == 5 {
        Some(File::F)
    } else if c == 6 {
        Some(File::G)
    } else if c == 7 {
        Some(File::H)
    } else {
        None
    }
}

/// Code of a value, executable form.
pub fn rank_code_exec(v: Rank) -> (r: u8)
    ensures
        r == rank_code(v),
{
    match v {
        Rank::First => 0,
        Rank::Second => 1,
        Rank::Third => 2,
        Rank::Fourth => 3,
        Rank::Fifth => 4,
        Rank::Sixth => 5,
        Rank::Seventh => 6,
        Rank::Eighth => 7,
    }
}

/// Value of a code, executable form.
pub fn rank_of_code_exec(c: u8) -> (r: Option<Rank>)
    ensures
        r == rank_of_code(c),
{
    if c == 0 {
        Some(Rank::First)
    } else if c == 1 {
        Some(Rank::Second)
    } else if c == 2 {
        Some(Rank::Third)
    } else if c == 3 {
        Some(Rank::Fourth)
    } else if c == 4 {
        Some(Rank::Fifth)
    } else if c == 5 {
        Some(Rank::Sixth)
    } else if c == 6 {
        Some(Rank::Seventh)
    } else if c == 7 {
        Some(Rank::Eighth)
    } else {
        None
    }
}

/// Code of a value, executable form.
pub fn castling_code_exec(v: CastlingSide) -> (r: u8)
    ensures
        r == castling_code(v),
{
    match v {
        CastlingSide::KingSide => 0,
        CastlingSide::QueenSide => 1,
    }
}

/// Value of a code, executable form.
pub fn castling_of_code_exec(c: u8) -> (r: Option<CastlingSide>)
    ensures
        r == castling_of_code(c),
{
    if c == 0 {
        Some(CastlingSide::KingSide)
    } else if c == 1 {
        Some(CastlingSide::QueenSide)
    } else {
        None
    }
}

/// Code of a value, executable form.
pub fn result_code_exec(v: GameResult) -> (r: u8)
    ensures
        r == result_code(v),
{
    match v {
        GameResult::WhiteWins => 0,
        GameResult::BlackWins => 1,
        GameResult::Draw => 2,
        GameResult::Star => 3,
    }
}

/// Value of a code, executable form.
pub fn result_of_code_exec(c: u8) -> (r: Option<GameResult>)
    ensures
        r == result_of_code(c),
{
    if c == 0 {
        Some(GameResult::WhiteWins)
    } else if c == 1 {
        Some(GameResult::BlackWins)
    } else if c == 2 {
        Some(GameResult::Draw)
    } else if c == 3 {
        Some(GameResult::Star)
    } else {
        None
    }
}

/// Code of a value, executable form.
pub fn termination_code_exec(v: Termination) -> (r: u8)
    ensures
        r == termination_code(v),
{
    match v {
        Termination::Normal => 0,
        Termination::TimeForfeit => 1,
        Termination::Abandoned => 2,
        Termination::Unterminated => 3,
        Termination::RulesInfraction => 4,
    }
}

/// Value of a code, executable form.
pub fn termination_of_code_exec(c: u8) -> (r: Option<Termination>)
    ensures
        r == termination_of_code(c),
{
    if c == 0 {
        Some(Termination::Normal)
    } else if c == 1 {
        Some(Termination::TimeForfeit)
    } else if c == 2 {
        Some(Termination::Abandoned)
    } else if c == 3 {
        Some(Termination::Unterminated)
    } else if c == 4 {
        Some(Termination::RulesInfraction)
    } else {
        None
    }
}

/// Code of a value, executable form.
pub fn title_code_exec(v: PlayerTitle) -> (r: u8)
    ensures
        r == title_code(v),
{
    match v {
        PlayerTitle::FideMaster => 0,
        PlayerTitle::InternationalMaster => 1,
        PlayerTitle::NationalMaster => 2,
        PlayerTitle::Bot => 3,
        PlayerTitle::CandidateMaster => 4,
        PlayerTitle::Grandmaster => 5,
        PlayerTitle::WomanInternationalMaster => 6,
        PlayerTitle::WomanFideMaster => 7,
        PlayerTitle::LichessMaster => 8,
        PlayerTitle::WomanGrandmaster => 9,
        PlayerTitle::WomanCandidateMaster => 10,
    }
}

/// Value of a code, executable form.
pub fn title_of_code_exec(c: u8) -> (r: Option<PlayerTitle>)
    ensures
        r == title_of_code(c),
{
    if c == 0 {
        Some(PlayerTitle::FideMaster)
    } else if c == 1 {
        Some(PlayerTitle::InternationalMaster)
    } else if c == 2 {
        Some(PlayerTitle::NationalMaster)
    } else if c == 3 {
        Some(PlayerTitle::Bot)
    } else if c == 4 {
        Some(PlayerTitle::CandidateMaster)
    } else if c == 5 {
        Some(PlayerTitle::Grandmaster)
    } else if c == 6 {
        Some(PlayerTitle::WomanInternationalMaster)
    } else if c == 7 {
        Some(PlayerTitle::WomanFideMaster)
    } else if c == 8 {
        Some(PlayerTitle::LichessMaster)
    } else if c == 9 {
        Some(PlayerTitle::WomanGrandmaster)
    } else if c == 10 {
        Some(PlayerTitle::WomanCandidateMaster)
    } else {
        None
    }
}

/// Code of a value, executable form.
pub fn nag_code_exec(v: Nag) -> (r: u8)
    ensures
        r == nag_code(v),
{
    match v {
        Nag::GoodMove => 1,
        Nag::Mistake => 2,
        Nag::BrilliantMove => 3,
        Nag::Blunder => 4,
        Nag::SpeculativeMove => 5,
        Nag::DubiousMove => 6,
    }
}

/// Value of a code, executable form.
pub fn nag_of_code_exec(c: u8) -> (r: Option<Nag>)
    ensures
        r == nag_of_wire_code(c),
{
    if c == 1 {
        Some(Nag::GoodMove)
    } else if c == 2 {
        Some(Nag::Mistake)
    } else if c == 3 {
        Some(Nag::BrilliantMove)
    } else if c == 4 {
        Some(Nag::Blunder)
    } else if c == 5 {
        Some(Nag::SpeculativeMove)
    } else if c == 6 {
        Some(Nag::DubiousMove)
    } else {
        None
    }
}

impl PlayerTitle {
    /// Title for a header value, the table of the `WhiteTitle` /
    /// `BlackTitle` rows; an unrecognized value is a recoverable error.
    pub open spec fn spec_try_from(value: Seq<char>) -> Option<PlayerTitle> {
        if value == "FM"@ {
            Some(PlayerTitle::FideMaster)
        } else if value == "IM"@ {
            Some(PlayerTitle::InternationalMaster)
        } else if value == "NM"@ {
            Some(PlayerTitle::NationalMaster)
        } else if value == "BOT"@ {
            Some(PlayerTitle::Bot)
        } else if value == "CM"@ {
            Some(PlayerTitle::CandidateMaster)
        } else if value == "GM"@ {
            Some(PlayerTitle::Grandmaster)
        } else if value == "WIM"@ {
            Some(PlayerTitle::WomanInternationalMaster)
        } else if value == "WFM"@ {
            Some(PlayerTitle::WomanFideMaster)
        } else if value == "LM"@ {
            Some(PlayerTitle::LichessMaster)
        } else if value == "WGM"@ {
            Some(PlayerTitle::WomanGrandmaster)
        } else if value == "WCM"@ {
            Some(PlayerTitle::WomanCandidateMaster)
        } else {
            None
        }
    }

    /// Parses a title header value.
    pub fn try_from(value: &str) -> (r: Option<PlayerTitle>)
        ensures
            r == Self::spec_try_from(value@),
    {
        if crate::text::str_eq(value, "FM") {
            Some(PlayerTitle::FideMaster)
        } else if crate::text::str_eq(value, "IM") {
            Some(PlayerTitle::InternationalMaster)
        } else if crate::text::str_eq(value, "NM") {
            Some(PlayerTitle::NationalMaster)
        } else if crate::text::str_eq(value, "BOT") {
            Some(PlayerTitle::Bot)
        } else if crate::text::str_eq(value, "CM") {
            Some(PlayerTitle::CandidateMaster)
        } else if crate::text::str_eq(value, "GM") {
            Some(PlayerTitle::Grandmaster)
        } else if crate::text::str_eq(value, "WIM") {
            Some(PlayerTitle::WomanInternationalMaster)
        } else if crate::text::str_eq(value, "WFM") {
            Some(PlayerTitle::WomanFideMaster)
        } else if crate::text::str_eq(value, "LM") {
            Some(PlayerTitle::LichessMaster)
        } else if crate::text::str_eq(value, "WGM") {
            Some(PlayerTitle::WomanGrandmaster)
        } else if crate::text::str_eq(value, "WCM") {
            Some(PlayerTitle::WomanCandidateMaster)
        } else {
            None
        }
    }
}

} // verus!
