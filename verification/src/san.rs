//! Grammar of a single SAN (Standard Algebraic Notation) token: castling,
//! piece drops, normal moves with optional disambiguation, capture and
//! promotion marks, a null move, and the check / checkmate suffix.

use vstd::prelude::*;
use crate::model::{CastleSan, CastlingSide, File, NormalSan, PutSan, Rank, Role, San, Square};

verus! {

/// Piece letter of a normal move or a promotion.
pub open spec fn spec_role_char(c: char) -> Option<Role> {
    if c == 'N' {
        Some(Role::Knight)
    } else if c == 'B' {
        Some(Role::Bishop)
    } else if c == 'R' {
        Some(Role::Rook)
    } else if c == 'Q' {
        Some(Role::Queen)
    } else if c == 'K' {
        Some(Role::King)
    } else {
        None
    }
}

/// File letter `a` through `h`.
pub open spec fn spec_file_char(c: char) -> Option<File> {
    if c == 'a' {
        Some(File::A)
    } else if c == 'b' {
        Some(File::B)
    } else if c == 'c' {
        Some(File::C)
    } else if c == 'd' {
        Some(File::D)
    } else if c == 'e' {
        Some(File::E)
    } else if c == 'f' {
        Some(File::F)
    } else if c == 'g' {
        Some(File::G)
    } else if c == 'h' {
        Some(File::H)
    } else {
        None
    }
}

/// Rank digit `1` through `8`.
pub open spec fn spec_rank_char(c: char) -> Option<Rank> {
    if c == '1' {
        Some(Rank::First)
    } else if c == '2' {
        Some(Rank::Second)
    } else if c == '3' {
        Some(Rank::Third)
    } else if c == '4' {
        Some(Rank::Fourth)
    } else if c == '5' {
        Some(Rank::Fifth)
    } else if c == '6' {
        Some(Rank::Sixth)
    } else if c == '7' {
        Some(Rank::Seventh)
    } else if c == '8' {
        Some(Rank::Eighth)
    } else {
        None
    }
}

/// The move named by a SAN token body (the token without its `+` or `#`
/// suffix): a null move gives a `San` with all three shapes absent.
pub open spec fn spec_san_body(b: Seq<char>) -> Option<San> {
    if b == "--"@ {
        Some(San { normal: None, castle: None, put: None, is_check: None, is_checkmate: None })
    } else if b == "O-O"@ {
        Some(
            San {
                normal: None,
                castle: Some(CastleSan { side: CastlingSide::KingSide }),
                put: None,
                is_check: None,
                is_checkmate: None,
            },
        )
    } else if b == "O-O-O"@ {
        Some(
            San {
                normal: None,
                castle: Some(CastleSan { side: CastlingSide::QueenSide }),
                put: None,
                is_check: None,
                is_checkmate: None,
            },
        )
    } else {
        let at = crate::text::find_idx(b, '@');
        if at < b.len() {
            match spec_put_san(b, at) {
                Some(p) => Some(
                    San {
                        normal: None,
                        castle: None,
                        put: Some(p),
                        is_check: None,
                        is_checkmate: None,
                    },
                ),
                None => None,
            }
        } else {
            match spec_normal_san(b) {
                Some(n) => Some(
                    San {
                        normal: Some(n),
                        castle: None,
                        put: None,
                        is_check: None,
                        is_checkmate: None,
                    },
                ),
                None => None,
            }
        }
    }
}

/// A piece drop `R@e4`: an optional piece letter (`P` allowed), `@`, and
/// the target square.
pub open spec fn spec_put_san(b: Seq<char>, at: int) -> Option<PutSan> {
    let role = if at == 0 {
        Some(Role::Pawn)
    } else if at == 1 && b[0] == 'P' {
        Some(Role::Pawn)
    } else if at == 1 {
        spec_role_char(b[0])
    } else {
        None
    };
    if b.len() != at + 3 {
        None
    } else {
        match (role, spec_file_char(b[at + 1]), spec_rank_char(b[at + 2])) {
            (Some(r), Some(f), Some(k)) => Some(
                PutSan { role: r, to: Square { file: f, rank: k } },
            ),
            _ => None,
        }
    }
}

/// A normal move: an optional piece letter (pawn when absent), optional
/// file and rank disambiguation, an optional `x` capture mark, the target
/// square, and an optional `=`-promotion.
pub open spec fn spec_normal_san(b: Seq<char>) -> Option<NormalSan> {
    let role = if b.len() > 0 && spec_role_char(b[0]) is Some {
        spec_role_char(b[0])
    } else {
        Some(Role::Pawn)
    };
    let rest = if b.len() > 0 && spec_role_char(b[0]) is Some {
        b.drop_first()
    } else {
        b
    };
    let promotion = if rest.len() >= 2 && rest[rest.len() - 2] == '=' {
        match spec_role_char(rest.last()) {
            Some(Role::King) => None,
            p => p,
        }
    } else {
        None
    };
    let core = if promotion is Some {
        rest.subrange(0, rest.len() - 2)
    } else {
        rest
    };
    if rest.len() >= 2 && rest[rest.len() - 2] == '=' && promotion is None {
        None
    } else if core.len() < 2 {
        None
    } else {
        match (spec_file_char(core[core.len() - 2]), spec_rank_char(core[core.len() - 1])) {
            (Some(tf), Some(tr)) => {
                let pre = core.subrange(0, core.len() - 2);
                let capture = pre.len() > 0 && pre.last() == 'x';
                let dis = if capture {
                    pre.drop_last()
                } else {
                    pre
                };
                match (role, spec_disambiguation(dis)) {
                    (Some(r), Some((df, dr))) => Some(
                        NormalSan {
                            role: r,
                            file: df,
                            rank: dr,
                            capture,
                            to: Square { file: tf, rank: tr },
                            promotion,
                        },
                    ),
                    _ => None,
                }
            },
            _ => None,
        }
    }
}

/// The disambiguation part before the capture mark and target: nothing, a
/// file, a rank, or a file then a rank.
pub open spec fn spec_disambiguation(dis: Seq<char>) -> Option<(Option<File>, Option<Rank>)> {
    if dis.len() == 0 {
        Some((None, None))
    } else if dis.len() == 1 {
        match (spec_file_char(dis[0]), spec_rank_char(dis[0])) {
            (Some(f), _) => Some((Some(f), None)),
            (None, Some(r)) => Some((None, Some(r))),
            _ => None,
        }
    } else if dis.len() == 2 {
        match (spec_file_char(dis[0]), spec_rank_char(dis[1])) {
            (Some(f), Some(r)) => Some((Some(f), Some(r))),
            _ => None,
        }
    } else {
        None
    }
}

/// The move named by a full SAN token: the body's move with the flags of
/// the `+` or `#` suffix, when one is present.
pub open spec fn spec_san_token(t: Seq<char>) -> Option<San> {
    let body = if t.len() > 0 && (t.last() == '+' || t.last() == '#') {
        t.drop_last()
    } else {
        t
    };
    let flags = if t.len() > 0 && t.last() == '+' {
        (Some(true), Some(false))
    } else if t.len() > 0 && t.last() == '#' {
        (Some(false), Some(true))
    } else {
        (None, None)
    };
    match spec_san_body(body) {
        Some(s) => Some(San { is_check: flags.0, is_checkmate: flags.1, ..s }),
        None => None,
    }
}

/// Piece letter, executable form.
fn role_char(c: char) -> (r: Option<Role>)
    ensures
        r == spec_role_char(c),
{
    if c == 'N' {
        Some(Role::Knight)
    } else if c == 'B' {
        Some(Role::Bishop)
    } else if c == 'R' {
        Some(Role::Rook)
    } else if c == 'Q' {
        Some(Role::Queen)
    } else if c == 'K' {
        Some(Role::King)
    } else {
        None
    }
}

/// File letter, executable form.
fn file_char(c: char) -> (r: Option<File>)
    ensures
        r == spec_file_char(c),
{
    if c == 'a' {
        Some(File::A)
    } else if c == 'b' {
        Some(File::B)
    } else if c == 'c' {
        Some(File::C)
    } else if c == 'd' {
        Some(File::D)
    } else if c == 'e' {
        Some(File::E)
    } else if c == 'f' {
        Some(File::F)
    } else if c == 'g' {
        Some(File::G)
    } else if c == 'h' {
        Some(File::H)
    } else {
        None
    }
}

/// Rank digit, executable form.
fn rank_char(c: char) -> (r: Option<Rank>)
    ensures
        r == spec_rank_char(c),
{
    if c == '1' {
        Some(Rank::First)
    } else if c == '2' {
        Some(Rank::Second)
    } else if c == '3' {
        Some(Rank::Third)
    } else if c == '4' {
        Some(Rank::Fourth)
    } else if c == '5' {
        Some(Rank::Fifth)
    } else if c == '6' {
        Some(Rank::Sixth)
    } else if c == '7' {
        Some(Rank::Seventh)
    } else if c == '8' {
        Some(Rank::Eighth)
    } else {
        None
    }
}

/// Parses the SAN token held in `s[from..to]`.
pub fn parse_san_token(s: &Vec<char>, from: usize, to: usize) -> (r: Option<San>)
    requires
        from <= to <= s@.len(),
    ensures
        r == spec_san_token(s@.subrange(from as int, to as int)),
{
    let ghost t = s@.subrange(from as int, to as int);
    let n = to - from;
    let (body_to, is_check, is_checkmate): (usize, Option<bool>, Option<bool>) = if n > 0 && s[to
        - 1] == '+' {
        (to - 1, Some(true), Some(false))
    } else if n > 0 && s[to - 1] == '#' {
        (to - 1, Some(false), Some(true))
    } else {
        (to, None, None)
    };
    proof {
        if t.len() > 0 && (t.last() == '+' || t.last() == '#') {
            assert(s@.subrange(from as int, body_to as int) =~= t.drop_last());
        } else {
            assert(s@.subrange(from as int, body_to as int) =~= t);
        }
    }
    match parse_san_body(s, from, body_to) {
        Some(b) => Some(San { is_check, is_checkmate, ..b }),
        None => None,
    }
}

/// Parses a SAN token body held in `s[from..to]`.
fn parse_san_body(s: &Vec<char>, from: usize, to: usize) -> (r: Option<San>)
    requires
        from <= to <= s@.len(),
    ensures
        r == spec_san_body(s@.subrange(from as int, to as int)),
{
    let ghost b = s@.subrange(from as int, to as int);
    let n = to - from;
    proof {
        reveal_strlit("--");
        reveal_strlit("O-O");
        reveal_strlit("O-O-O");
    }
    if n == 2 && s[from] == '-' && s[from + 1] == '-' {
        proof {
            assert(b =~= "--"@);
        }
        return Some(
            San { normal: None, castle: None, put: None, is_check: None, is_checkmate: None },
        );
    }
    proof {
        assert(b != "--"@) by {
            if b == "--"@ {
                assert(b.len() == 2 && b[0] == '-' && b[1] == '-');
            }
        }
    }
    if n == 3 && s[from] == 'O' && s[from + 1] == '-' && s[from + 2] == 'O' {
        proof {
            assert(b =~= "O-O"@);
        }
        return Some(
            San {
                normal: None,
                castle: Some(CastleSan { side: CastlingSide::KingSide }),
                put: None,
                is_check: None,
                is_checkmate: None,
            },
        );
    }
    proof {
        assert(b != "O-O"@) by {
            if b == "O-O"@ {
                assert(b.len() == 3 && b[0] == 'O' && b[1] == '-' && b[2] == 'O');
            }
        }
    }
    if n == 5 && s[from] == 'O' && s[from + 1] == '-' && s[from + 2] == 'O' && s[from + 3] == '-'
        && s[from + 4] == 'O' {
        proof {
            assert(b =~= "O-O-O"@);
        }
        return Some(
            San {
                normal: None,
                castle: Some(CastleSan { side: CastlingSide::QueenSide }),
                put: None,
                is_check: None,
                is_checkmate: None,
            },
        );
    }
    proof {
        assert(b != "O-O-O"@) by {
            if b == "O-O-O"@ {
                assert(b.len() == 5 && b[0] == 'O' && b[1] == '-' && b[2] == 'O' && b[3] == '-'
                    && b[4] == 'O');
            }
        }
    }
    let at = crate::text::find_char_from(s, '@', from);
    proof {
        assert(crate::text::find_idx(b, '@') == if at < to {
            at - from
        } else {
            b.len() as int
        }) by {
            crate::text::lemma_find_idx(s@.subrange(from as int, s@.len() as int), '@');
            if at < to {
                assert forall|j: int| 0 <= j < at - from implies b[j] != '@' by {
                    assert(b[j] == s@[from + j]);
                }
                assert(b[at - from] == '@');
                crate::text::lemma_find_idx_is(b, '@', at - from);
            } else {
                assert forall|j: int| 0 <= j < b.len() implies b[j] != '@' by {
                    assert(b[j] == s@[from + j]);
                }
                crate::text::lemma_find_idx_is(b, '@', b.len() as int);
            }
        }
    }
    if at < to {
        // a piece drop
        let role: Option<Role> = if at == from {
            Some(Role::Pawn)
        } else if at == from + 1 && s[from] == 'P' {
            Some(Role::Pawn)
        } else if at == from + 1 {
            role_char(s[from])
        } else {
            None
        };
        if to - at != 3 {
            return None;
        }
        let (f, k) = (file_char(s[at + 1]), rank_char(s[at + 2]));
        match (role, f, k) {
            (Some(r), Some(f), Some(k)) => Some(
                San {
                    normal: None,
                    castle: None,
                    put: Some(PutSan { role: r, to: Square { file: f, rank: k } }),
                    is_check: None,
                    is_checkmate: None,
                },
            ),
            _ => None,
        }
    } else {
        match parse_normal_san(s, from, to) {
            Some(nm) => Some(
                San {
                    normal: Some(nm),
                    castle: None,
                    put: None,
                    is_check: None,
                    is_checkmate: None,
                },
            ),
            None => None,
        }
    }
}

/// Parses a normal move held in `s[from..to]`.
#[verifier::rlimit(60)]
fn parse_normal_san(s: &Vec<char>, from: usize, to: usize) -> (r: Option<NormalSan>)
    requires
        from <= to <= s@.len(),
    ensures
        r == spec_normal_san(s@.subrange(from as int, to as int)),
{
    let ghost b = s@.subrange(from as int, to as int);
    let n = to - from;
    let role_given = n > 0 && role_char(s[from]).is_some();
    let role: Role = if role_given {
        match role_char(s[from]) {
            Some(r) => r,
            None => Role::Pawn,
        }
    } else {
        Role::Pawn
    };
    let rest_from = if role_given {
        from + 1
    } else {
        from
    };
    let ghost rest = s@.subrange(rest_from as int, to as int);
    proof {
        if b.len() > 0 && spec_role_char(b[0]) is Some {
            assert(rest =~= b.drop_first());
        } else {
            assert(rest =~= b);
        }
    }
    let rn = to - rest_from;
    let has_promo_mark = rn >= 2 && s[to - 2] == '=';
    let promotion: Option<Role> = if has_promo_mark {
        match role_char(s[to - 1]) {
            Some(Role::King) => None,
            p => p,
        }
    } else {
        None
    };
    if has_promo_mark && promotion.is_none() {
        return None;
    }
    let core_to = if has_promo_mark {
        to - 2
    } else {
        to
    };
    let ghost core = s@.subrange(rest_from as int, core_to as int);
    proof {
        if promotion is Some {
            assert(core =~= rest.subrange(0, rest.len() - 2));
        } else {
            assert(core =~= rest);
        }
    }
    if core_to - rest_from < 2 {
        return None;
    }
    let tf = file_char(s[core_to - 2]);
    let tr = rank_char(s[core_to - 1]);
    let (tf, tr) = match (tf, tr) {
        (Some(tf), Some(tr)) => (tf, tr),
        _ => {
            return None;
        },
    };
    let pre_to = core_to - 2;
    let ghost pre = s@.subrange(rest_from as int, pre_to as int);
    proof {
        assert(pre =~= core.subrange(0, core.len() - 2));
    }
    let capture = pre_to > rest_from && s[pre_to - 1] == 'x';
    let dis_to = if capture {
        pre_to - 1
    } else {
        pre_to
    };
    let ghost dis = s@.subrange(rest_from as int, dis_to as int);
    proof {
        if capture {
            assert(dis =~= pre.drop_last());
        } else {
            assert(dis =~= pre);
        }
    }
    let dn = dis_to - rest_from;
    let disamb: Option<(Option<File>, Option<Rank>)> = if dn == 0 {
        Some((None, None))
    } else if dn == 1 {
        match (file_char(s[rest_from]), rank_char(s[rest_from])) {
            (Some(f), _) => Some((Some(f), None)),
            (None, Some(r)) => Some((None, Some(r))),
            _ => None,
        }
    } else if dn == 2 {
        match (file_char(s[rest_from]), rank_char(s[rest_from + 1])) {
            (Some(f), Some(r)) => Some((Some(f), Some(r))),
            _ => None,
        }
    } else {
        None
    };
    match disamb {
        Some((df, dr)) => Some(
            NormalSan {
                role,
                file: df,
                rank: dr,
                capture,
                to: Square { file: tf, rank: tr },
                promotion,
            },
        ),
        None => None,
    }
}

} // verus!
