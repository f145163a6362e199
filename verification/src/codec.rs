//! The wire codec for raw and parsed games: a compact binary format of
//! field-tagged varints and length-prefixed strings. Every field is
//! written in a fixed order under a stable tag; an optional field stands
//! behind a presence marker. Decoding is the proven inverse of encoding.

use vstd::prelude::*;
use vstd::string::*;
use vstd::utf8::{decode_utf8, encode_utf8, encode_utf8_valid_utf8, encode_utf8_decode_utf8};
use crate::model::{
    CastleSan, CastlingSide, ChessGame, ChessGameSpec, Comment, File, GameEntry, GameResult, Nag,
    NormalSan, Player, PlayerSpec, PlayerTitle, PutSan, Rank, RawChessGame, RawChessGameSpec, Role,
    San, Square, Termination, Timecontrol, castling_code, castling_code_exec,
    castling_of_code_exec, file_code, file_code_exec, file_of_code_exec, nag_code, nag_code_exec,
    nag_of_code_exec, rank_code, rank_code_exec, rank_of_code_exec, result_code, result_code_exec,
    result_of_code_exec, role_code, role_code_exec, role_of_code_exec, termination_code,
    termination_code_exec, termination_of_code_exec, title_code, title_code_exec,
    title_of_code_exec,
};

verus! {

/// Little-endian base-128 varint of `v`: seven value bits per byte, the
/// high bit marking continuation.
#[verifier::opaque]
pub open spec fn spec_varint(v: u64) -> Seq<u8>
    decreases v,
{
    if v < 128 {
        seq![v as u8]
    } else {
        seq![(v % 128 + 128) as u8] + spec_varint(v / 128)
    }
}

/// Appends the varint of `v`.
pub fn enc_u64(out: &mut Vec<u8>, v: u64)
    ensures
        final(out)@ == old(out)@ + spec_varint(v),
    decreases v,
{
    proof {
        reveal(spec_varint);
    }
    if v < 128 {
        out.push(v as u8);
        proof {
            assert(out@ =~= old(out)@ + spec_varint(v));
        }
    } else {
        out.push((v % 128 + 128) as u8);
        let ghost mid = out@;
        enc_u64(out, v / 128);
        proof {
            assert(out@ =~= old(out)@ + spec_varint(v));
        }
    }
}

/// Reads a varint at `pos`: whenever the bytes from `pos` on are the
/// varint of some value followed by anything, that value is returned and
/// the position moves past it.
pub fn dec_u64(bytes: &Vec<u8>, pos: usize) -> (r: Option<(u64, usize)>)
    requires
        pos <= bytes@.len(),
    ensures
        forall|v: u64, rest: Seq<u8>|
            bytes@.subrange(pos as int, bytes@.len() as int) == #[trigger] (spec_varint(v) + rest)
                ==> r == Some((v, (pos + spec_varint(v).len()) as usize)),
        r matches Some((v, np)) ==> pos < np <= bytes@.len(),
    decreases bytes@.len() - pos,
{
    proof {
        reveal(spec_varint);
    }
    let ghost tail = bytes@.subrange(pos as int, bytes@.len() as int);
    if pos == bytes.len() {
        proof {
            assert forall|v: u64, rest: Seq<u8>|
                tail == #[trigger] (spec_varint(v) + rest) implies false by {
                assert(spec_varint(v).len() >= 1) by {
                    lemma_varint_len(v);
                }
                assert(tail.len() >= 1);
            }
        }
        return None;
    }
    let b = bytes[pos];
    proof {
        assert(tail[0] == b);
    }
    if b < 128 {
        proof {
            assert forall|v: u64, rest: Seq<u8>|
                tail == #[trigger] (spec_varint(v) + rest) implies (b as u64, (pos + spec_varint(
                v,
            ).len()) as usize) == (v, (pos + spec_varint(v).len()) as usize) by {
                if v >= 128 {
                    assert(tail[0] == spec_varint(v)[0]);
                }
                assert(v < 128);
                assert(spec_varint(v)[0] == v as u8);
            }
        }
        return Some((b as u64, pos + 1));
    }
    let low = (b - 128) as u64;
    match dec_u64(bytes, pos + 1) {
        Some((hi, np)) => {
            if hi <= (u64::MAX - low) / 128 {
                let v = hi * 128 + low;
                proof {
                    assert forall|w: u64, rest: Seq<u8>|
                        tail == #[trigger] (spec_varint(w) + rest) implies (v, np) == (w, (pos
                        + spec_varint(w).len()) as usize) by {
                        assert(w >= 128) by {
                            if w < 128 {
                                assert(tail[0] == spec_varint(w)[0]);
                            }
                        }
                        assert(spec_varint(w) == seq![(w % 128 + 128) as u8] + spec_varint(
                            w / 128,
                        ));
                        assert(tail[0] == (w % 128 + 128) as u8);
                        assert(low == w % 128);
                        assert(bytes@.subrange(pos as int + 1, bytes@.len() as int) == spec_varint(
                            w / 128,
                        ) + rest) by {
                            lemma_varint_len(w);
                            lemma_suffix_step(bytes@, pos as int, spec_varint(w), rest);
                            assert(spec_varint(w).drop_first() =~= spec_varint(w / 128));
                        }
                        assert((spec_varint(w / 128) + rest).len() == bytes@.subrange(
                            pos as int + 1,
                            bytes@.len() as int,
                        ).len());
                        assert(hi == w / 128 && np == pos + 1 + spec_varint(w / 128).len());
                    }
                }
                Some((v, np))
            } else {
                proof {
                    assert forall|w: u64, rest: Seq<u8>|
                        tail == #[trigger] (spec_varint(w) + rest) implies false by {
                        assert(w >= 128) by {
                            if w < 128 {
                                assert(tail[0] == spec_varint(w)[0]);
                            }
                        }
                        assert(tail[0] == (w % 128 + 128) as u8);
                        assert(low == w % 128);
                        assert(bytes@.subrange(pos as int + 1, bytes@.len() as int) == spec_varint(
                            w / 128,
                        ) + rest) by {
                            lemma_varint_len(w);
                            lemma_suffix_step(bytes@, pos as int, spec_varint(w), rest);
                            assert(spec_varint(w).drop_first() =~= spec_varint(w / 128));
                        }
                        assert(hi == w / 128);
                        assert(hi * 128 + low <= u64::MAX) by {
                            assert(w / 128 * 128 + w % 128 == w);
                        }
                        assert(hi <= (u64::MAX - low) / 128);
                    }
                }
                None
            }
        },
        None => {
            proof {
                assert forall|w: u64, rest: Seq<u8>|
                    tail == #[trigger] (spec_varint(w) + rest) implies false by {
                    assert(w >= 128) by {
                        if w < 128 {
                            assert(tail[0] == spec_varint(w)[0]);
                        }
                    }
                    assert(bytes@.subrange(pos as int + 1, bytes@.len() as int) == spec_varint(
                        w / 128,
                    ) + rest) by {
                        lemma_varint_len(w);
                        lemma_suffix_step(bytes@, pos as int, spec_varint(w), rest);
                        assert(spec_varint(w).drop_first() =~= spec_varint(w / 128));
                    }
                }
            }
            None
        },
    }
}


/// Dropping one consumed byte keeps the remaining suffix aligned.
pub proof fn lemma_suffix_step(s: Seq<u8>, pos: int, x: Seq<u8>, rest: Seq<u8>)
    requires
        0 <= pos <= s.len(),
        s.subrange(pos, s.len() as int) == x + rest,
        x.len() >= 1,
    ensures
        s.subrange(pos + 1, s.len() as int) == x.drop_first() + rest,
{
    assert(s.subrange(pos, s.len() as int).len() == x.len() + rest.len());
    assert forall|jj: int|
        0 <= jj < s.len() - pos - 1 implies #[trigger] s.subrange(pos + 1, s.len() as int)[jj] == (
    x.drop_first() + rest)[jj] by {
        assert(s.subrange(pos + 1, s.len() as int)[jj] == s[pos + 1 + jj]);
        assert(s.subrange(pos, s.len() as int)[jj + 1] == s[pos + 1 + jj]);
        assert((x + rest)[jj + 1] == s.subrange(pos, s.len() as int)[jj + 1]);
        if jj + 1 < x.len() {
            assert((x + rest)[jj + 1] == x[jj + 1]);
            assert((x.drop_first() + rest)[jj] == x.drop_first()[jj]);
            assert(x.drop_first()[jj] == x[jj + 1]);
        } else {
            assert((x + rest)[jj + 1] == rest[jj + 1 - x.len()]);
            assert((x.drop_first() + rest)[jj] == rest[jj - (x.len() - 1)]);
        }
    }
    assert(s.subrange(pos + 1, s.len() as int) =~= x.drop_first() + rest);
}

/// A varint takes at least one byte.
pub proof fn lemma_varint_len(v: u64)
    ensures
        spec_varint(v).len() >= 1,
    decreases v,
{
    reveal(spec_varint);
    if v < 128 {
    } else {
        lemma_varint_len(v / 128);
    }
}

/// Splits a known prefix off the suffix at `pos`: the prefix occupies
/// exactly its own bytes, and what follows starts right after.
pub proof fn lemma_take_prefix(s: Seq<u8>, pos: int, x: Seq<u8>, rest: Seq<u8>)
    requires
        0 <= pos <= s.len(),
        s.subrange(pos, s.len() as int) == x + rest,
    ensures
        s.subrange(pos, pos + x.len()) == x,
        s.subrange(pos + x.len(), s.len() as int) == rest,
{
    assert(s.subrange(pos, s.len() as int).len() == x.len() + rest.len());
    assert forall|jj: int| 0 <= jj < x.len() implies #[trigger] s.subrange(pos, pos + x.len())[jj]
        == x[jj] by {
        assert(s.subrange(pos, pos + x.len())[jj] == s.subrange(pos, s.len() as int)[jj]);
        assert((x + rest)[jj] == x[jj]);
    }
    assert(s.subrange(pos, pos + x.len()) =~= x);
    assert forall|jj: int|
        0 <= jj < rest.len() implies #[trigger] s.subrange(pos + x.len(), s.len() as int)[jj]
        == rest[jj] by {
        assert(s.subrange(pos + x.len(), s.len() as int)[jj] == s.subrange(pos, s.len() as int)[jj
            + x.len()]);
        assert((x + rest)[jj + x.len()] == rest[jj]);
    }
    assert(s.subrange(pos + x.len(), s.len() as int) =~= rest);
}

/// Sequence concatenation associates.
pub proof fn lemma_assoc<T>(a: Seq<T>, b: Seq<T>, c: Seq<T>)
    ensures
        (a + b) + c == a + (b + c),
{
    assert((a + b) + c =~= a + (b + c));
}

/// The zigzag image of a signed value: non-negative values go to evens,
/// negative ones to odds.
pub open spec fn spec_zigzag(x: i64) -> u64 {
    if x >= 0 {
        (2 * x) as u64
    } else {
        (-2 * x - 1) as u64
    }
}

/// Zigzag of `x`, executable form.
pub fn zigzag(x: i64) -> (r: u64)
    ensures
        r == spec_zigzag(x),
{
    if x >= 0 {
        (x as u64) * 2
    } else {
        ((-(x + 1)) as u64) * 2 + 1
    }
}

/// Inverse of zigzag.
pub fn unzigzag(u: u64) -> (r: i64)
    ensures
        spec_zigzag(r) == u,
{
    if u % 2 == 0 {
        (u / 2) as i64
    } else {
        -((u / 2) as i64) - 1
    }
}

/// Wire form of a string: its byte length as a varint, then its UTF-8
/// bytes.
pub open spec fn spec_enc_string(v: Seq<char>) -> Seq<u8> {
    spec_varint(encode_utf8(v).len() as u64) + encode_utf8(v)
}

/// Appends the wire form of a string.
pub fn enc_string(out: &mut Vec<u8>, s: &str)
    ensures
        final(out)@ == old(out)@ + spec_enc_string(s@),
{
    let mut bytes = s.as_bytes_vec();
    let n = bytes.len();
    enc_u64(out, n as u64);
    out.append(&mut bytes);
    proof {
        assert(out@ =~= old(out)@ + spec_enc_string(s@));
    }
}

/// Copies `v[from..to]` out as a fresh vector.
fn sub_vec(v: &Vec<u8>, from: usize, to: usize) -> (r: Vec<u8>)
    requires
        from <= to <= v@.len(),
    ensures
        r@ == v@.subrange(from as int, to as int),
{
    let mut r: Vec<u8> = Vec::new();
    let mut i = from;
    while i < to
        invariant
            from <= i <= to <= v@.len(),
            r@ == v@.subrange(from as int, i as int),
        decreases to - i,
    {
        r.push(v[i]);
        i = i + 1;
        proof {
            assert(r@ =~= v@.subrange(from as int, i as int));
        }
    }
    r
}

/// Relies on String::from_utf8: yields the string whose UTF-8 encoding is
/// exactly the input, whenever the input is such an encoding.
#[verifier::external_body]
fn string_from_utf8(bytes: Vec<u8>) -> (r: Option<String>)
    ensures
        r matches Some(s) ==> encode_utf8(s@) == bytes@,
        forall|s0: Seq<char>| encode_utf8(s0) == bytes@ ==> r is Some,
{
    String::from_utf8(bytes).ok()
}

/// Reads a string at `pos`: the proven inverse of `enc_string`.
pub fn dec_string(bytes: &Vec<u8>, pos: usize) -> (r: Option<(String, usize)>)
    requires
        pos <= bytes@.len(),
    ensures
        forall|v: Seq<char>, rest: Seq<u8>|
            bytes@.subrange(pos as int, bytes@.len() as int) == #[trigger] (spec_enc_string(v)
                + rest) ==> (r matches Some(p) && p.0@ == v && p.1 == pos + spec_enc_string(
                v,
            ).len()),
        r matches Some(p) ==> pos <= p.1 <= bytes@.len(),
{
    broadcast use encode_utf8_decode_utf8, encode_utf8_valid_utf8;

    let ghost tail = bytes@.subrange(pos as int, bytes@.len() as int);
    let (len64, p1) = match dec_u64(bytes, pos) {
        Some(x) => x,
        None => {
            proof {
                assert forall|v: Seq<char>, rest: Seq<u8>|
                    tail == #[trigger] (spec_enc_string(v) + rest) implies false by {
                    lemma_assoc(
                        spec_varint(encode_utf8(v).len() as u64),
                        encode_utf8(v),
                        rest,
                    );
                }
            }
            return None;
        },
    };
    if len64 > (bytes.len() - p1) as u64 {
        proof {
            assert forall|v: Seq<char>, rest: Seq<u8>|
                tail == #[trigger] (spec_enc_string(v) + rest) implies false by {
                let lv = encode_utf8(v).len() as u64;
                lemma_assoc(spec_varint(lv), encode_utf8(v), rest);
                assert(tail == spec_varint(lv) + (encode_utf8(v) + rest));
                assert(len64 == lv && p1 == pos + spec_varint(lv).len());
                lemma_take_prefix(bytes@, pos as int, spec_varint(lv), encode_utf8(v) + rest);
            }
        }
        return None;
    }
    let len = len64 as usize;
    let slice = sub_vec(bytes, p1, p1 + len);
    match string_from_utf8(slice) {
        Some(s) => {
            proof {
                assert forall|v: Seq<char>, rest: Seq<u8>|
                    tail == #[trigger] (spec_enc_string(v) + rest) implies (s@ == v && p1 + len
                    == pos + spec_enc_string(v).len()) by {
                    let lv = encode_utf8(v).len() as u64;
                    lemma_assoc(spec_varint(lv), encode_utf8(v), rest);
                    assert(tail == spec_varint(lv) + (encode_utf8(v) + rest));
                    assert(len64 == lv && p1 == pos + spec_varint(lv).len());
                    lemma_take_prefix(bytes@, pos as int, spec_varint(lv), encode_utf8(v) + rest);
                    lemma_take_prefix(bytes@, p1 as int, encode_utf8(v), rest);
                    assert(slice@ == encode_utf8(v));
                    assert(encode_utf8(s@) == encode_utf8(v));
                    assert(decode_utf8(encode_utf8(s@)) == s@);
                    assert(decode_utf8(encode_utf8(v)) == v);
                }
            }
            Some((s, p1 + len))
        },
        None => {
            proof {
                assert forall|v: Seq<char>, rest: Seq<u8>|
                    tail == #[trigger] (spec_enc_string(v) + rest) implies false by {
                    let lv = encode_utf8(v).len() as u64;
                    lemma_assoc(spec_varint(lv), encode_utf8(v), rest);
                    assert(tail == spec_varint(lv) + (encode_utf8(v) + rest));
                    assert(len64 == lv && p1 == pos + spec_varint(lv).len());
                    lemma_take_prefix(bytes@, pos as int, spec_varint(lv), encode_utf8(v) + rest);
                    lemma_take_prefix(bytes@, p1 as int, encode_utf8(v), rest);
                    assert(slice@ == encode_utf8(v));
                }
            }
            None
        },
    }
}

/// A single-byte field tag followed by a varint value.
pub open spec fn spec_field_u64(tag: u8, v: u64) -> Seq<u8> {
    seq![tag] + spec_varint(v)
}

/// A tagged optional varint: a presence marker, then the value when
/// present.
pub open spec fn spec_field_opt_u64(tag: u8, o: Option<u64>) -> Seq<u8> {
    seq![tag] + match o {
        None => spec_varint(0),
        Some(v) => spec_varint(1) + spec_varint(v),
    }
}

/// A tagged string.
pub open spec fn spec_field_string(tag: u8, s: Seq<char>) -> Seq<u8> {
    seq![tag] + spec_enc_string(s)
}

/// Appends a tagged varint field.
pub fn enc_field_u64(out: &mut Vec<u8>, tag: u8, v: u64)
    ensures
        final(out)@ == old(out)@ + spec_field_u64(tag, v),
{
    out.push(tag);
    enc_u64(out, v);
    proof {
        assert(out@ =~= old(out)@ + spec_field_u64(tag, v));
    }
}

/// Appends a tagged optional varint field.
pub fn enc_field_opt_u64(out: &mut Vec<u8>, tag: u8, o: Option<u64>)
    ensures
        final(out)@ == old(out)@ + spec_field_opt_u64(tag, o),
{
    out.push(tag);
    match o {
        None => {
            enc_u64(out, 0);
        },
        Some(v) => {
            enc_u64(out, 1);
            enc_u64(out, v);
        },
    }
    proof {
        assert(out@ =~= old(out)@ + spec_field_opt_u64(tag, o));
    }
}

/// Appends a tagged string field.
pub fn enc_field_string(out: &mut Vec<u8>, tag: u8, s: &str)
    ensures
        final(out)@ == old(out)@ + spec_field_string(tag, s@),
{
    out.push(tag);
    enc_string(out, s);
    proof {
        assert(out@ =~= old(out)@ + spec_field_string(tag, s@));
    }
}

/// Reads a tagged varint field; the flag is false when the bytes cannot
/// be one.
pub fn dec_field_u64(bytes: &Vec<u8>, pos: usize, tag: u8) -> (r: (u64, usize, bool))
    requires
        pos <= bytes@.len(),
    ensures
        pos <= r.1 <= bytes@.len(),
        forall|v: u64, rest: Seq<u8>|
            bytes@.subrange(pos as int, bytes@.len() as int) == #[trigger] (spec_field_u64(tag, v)
                + rest) ==> r == (v, (pos + spec_field_u64(tag, v).len()) as usize, true),
{
    let ghost tail = bytes@.subrange(pos as int, bytes@.len() as int);
    if pos == bytes.len() || bytes[pos] != tag {
        proof {
            assert forall|v: u64, rest: Seq<u8>|
                tail == #[trigger] (spec_field_u64(tag, v) + rest) implies false by {
                assert((seq![tag] + spec_varint(v)).len() >= 1);
                assert(tail.len() >= 1);
                assert(tail[0] == tag);
            }
        }
        return (0, pos, false);
    }
    match dec_u64(bytes, pos + 1) {
        Some((v, np)) => {
            proof {
                assert forall|w: u64, rest: Seq<u8>|
                    tail == #[trigger] (spec_field_u64(tag, w) + rest) implies (v, np, true) == (
                w, (pos + spec_field_u64(tag, w).len()) as usize, true) by {
                    lemma_assoc(seq![tag], spec_varint(w), rest);
                    lemma_suffix_step(bytes@, pos as int, seq![tag], spec_varint(w) + rest);
                    assert(seq![tag].drop_first() =~= Seq::<u8>::empty());
                    assert(Seq::<u8>::empty() + (spec_varint(w) + rest) =~= spec_varint(w) + rest);
                }
            }
            (v, np, true)
        },
        None => {
            proof {
                assert forall|w: u64, rest: Seq<u8>|
                    tail == #[trigger] (spec_field_u64(tag, w) + rest) implies false by {
                    lemma_assoc(seq![tag], spec_varint(w), rest);
                    lemma_suffix_step(bytes@, pos as int, seq![tag], spec_varint(w) + rest);
                    assert(seq![tag].drop_first() =~= Seq::<u8>::empty());
                    assert(Seq::<u8>::empty() + (spec_varint(w) + rest) =~= spec_varint(w) + rest);
                }
            }
            (0, pos, false)
        },
    }
}

/// Reads a tagged optional varint field.
pub fn dec_field_opt_u64(bytes: &Vec<u8>, pos: usize, tag: u8) -> (r: (Option<u64>, usize, bool))
    requires
        pos <= bytes@.len(),
    ensures
        pos <= r.1 <= bytes@.len(),
        forall|o: Option<u64>, rest: Seq<u8>|
            bytes@.subrange(pos as int, bytes@.len() as int) == #[trigger] (spec_field_opt_u64(
                tag,
                o,
            ) + rest) ==> r == (o, (pos + spec_field_opt_u64(tag, o).len()) as usize, true),
{
    let ghost tail = bytes@.subrange(pos as int, bytes@.len() as int);
    if pos == bytes.len() || bytes[pos] != tag {
        proof {
            assert forall|o: Option<u64>, rest: Seq<u8>|
                tail == #[trigger] (spec_field_opt_u64(tag, o) + rest) implies false by {
                assert(spec_field_opt_u64(tag, o).len() >= 1);
                assert(tail.len() >= 1);
                assert(tail[0] == tag);
            }
        }
        return (None, pos, false);
    }
    proof {
        assert forall|o: Option<u64>, rest: Seq<u8>|
            tail == #[trigger] (spec_field_opt_u64(tag, o) + rest) implies bytes@.subrange(
            pos as int + 1,
            bytes@.len() as int,
        ) == (match o {
            None => spec_varint(0) + rest,
            Some(v) => spec_varint(1) + (spec_varint(v) + rest),
        }) by {
            match o {
                None => {
                    lemma_assoc(seq![tag], spec_varint(0), rest);
                    lemma_suffix_step(bytes@, pos as int, seq![tag], spec_varint(0) + rest);
                    assert(seq![tag].drop_first() =~= Seq::<u8>::empty());
                    assert(Seq::<u8>::empty() + (spec_varint(0) + rest) =~= spec_varint(0) + rest);
                },
                Some(v) => {
                    assert(spec_field_opt_u64(tag, o) == seq![tag] + (spec_varint(1) + spec_varint(
                        v,
                    )));
                    lemma_assoc(seq![tag], spec_varint(1) + spec_varint(v), rest);
                    lemma_suffix_step(
                        bytes@,
                        pos as int,
                        seq![tag],
                        (spec_varint(1) + spec_varint(v)) + rest,
                    );
                    assert(seq![tag].drop_first() =~= Seq::<u8>::empty());
                    assert(Seq::<u8>::empty() + ((spec_varint(1) + spec_varint(v)) + rest) =~= (
                    spec_varint(1) + spec_varint(v)) + rest);
                    lemma_assoc(spec_varint(1), spec_varint(v), rest);
                },
            }
        }
    }
    let (flag, p1) = match dec_u64(bytes, pos + 1) {
        Some(x) => x,
        None => {
            return (None, pos, false);
        },
    };
    if flag == 0 {
        proof {
            assert forall|o: Option<u64>, rest: Seq<u8>|
                tail == #[trigger] (spec_field_opt_u64(tag, o) + rest) implies (
            None::<u64>, p1, true) == (o, (pos + spec_field_opt_u64(tag, o).len()) as usize, true)
                by {
                if o is Some {
                    assert(flag == 1);
                }
            }
        }
        return (None, p1, true);
    }
    if flag != 1 {
        return (None, pos, false);
    }
    match dec_u64(bytes, p1) {
        Some((v, p2)) => {
            proof {
                assert forall|o: Option<u64>, rest: Seq<u8>|
                    tail == #[trigger] (spec_field_opt_u64(tag, o) + rest) implies (
                Some(v), p2, true) == (o, (pos + spec_field_opt_u64(tag, o).len()) as usize, true)
                    by {
                    if o is None {
                        assert(flag == 0);
                    }
                    let w = o.unwrap();
                    assert(p1 == pos + 1 + spec_varint(1).len());
                    lemma_take_prefix(
                        bytes@,
                        pos as int + 1,
                        spec_varint(1),
                        spec_varint(w) + rest,
                    );
                }
            }
            (Some(v), p2, true)
        },
        None => {
            proof {
                assert forall|o: Option<u64>, rest: Seq<u8>|
                    tail == #[trigger] (spec_field_opt_u64(tag, o) + rest) implies false by {
                    if o is None {
                        assert(flag == 0);
                    }
                    let w = o.unwrap();
                    lemma_take_prefix(
                        bytes@,
                        pos as int + 1,
                        spec_varint(1),
                        spec_varint(w) + rest,
                    );
                }
            }
            (None, pos, false)
        },
    }
}

/// Reads a tagged string field.
pub fn dec_field_string(bytes: &Vec<u8>, pos: usize, tag: u8) -> (r: (String, usize, bool))
    requires
        pos <= bytes@.len(),
    ensures
        pos <= r.1 <= bytes@.len(),
        forall|v: Seq<char>, rest: Seq<u8>|
            bytes@.subrange(pos as int, bytes@.len() as int) == #[trigger] (spec_field_string(
                tag,
                v,
            ) + rest) ==> (r.0@ == v && r.1 == pos + spec_field_string(tag, v).len() && r.2),
{
    let ghost tail = bytes@.subrange(pos as int, bytes@.len() as int);
    if pos == bytes.len() || bytes[pos] != tag {
        proof {
            assert forall|v: Seq<char>, rest: Seq<u8>|
                tail == #[trigger] (spec_field_string(tag, v) + rest) implies false by {
                assert(spec_field_string(tag, v).len() >= 1);
                assert(tail.len() >= 1);
                assert(tail[0] == tag);
            }
        }
        return (String::new(), pos, false);
    }
    proof {
        assert forall|v: Seq<char>, rest: Seq<u8>|
            tail == #[trigger] (spec_field_string(tag, v) + rest) implies bytes@.subrange(
            pos as int + 1,
            bytes@.len() as int,
        ) == spec_enc_string(v) + rest by {
            lemma_assoc(seq![tag], spec_enc_string(v), rest);
            lemma_suffix_step(bytes@, pos as int, seq![tag], spec_enc_string(v) + rest);
            assert(seq![tag].drop_first() =~= Seq::<u8>::empty());
            assert(Seq::<u8>::empty() + (spec_enc_string(v) + rest) =~= spec_enc_string(v) + rest);
        }
    }
    match dec_string(bytes, pos + 1) {
        Some((s, np)) => (s, np, true),
        None => (String::new(), pos, false),
    }
}

/// Marker value of a boolean.
pub open spec fn b2u(b: bool) -> u64 {
    if b {
        1
    } else {
        0
    }
}



/// Role code of an optional normal move.
pub open spec fn n_role(on: Option<NormalSan>) -> Option<u64> {
    match on {
        Some(n) => Some(role_code(n.role) as u64),
        None => None,
    }
}

/// Disambiguation file code of an optional normal move.
pub open spec fn n_file(on: Option<NormalSan>) -> Option<u64> {
    match on {
        Some(n) => match n.file {
            Some(f) => Some(file_code(f) as u64),
            None => None,
        },
        None => None,
    }
}

/// Disambiguation rank code of an optional normal move.
pub open spec fn n_rank(on: Option<NormalSan>) -> Option<u64> {
    match on {
        Some(n) => match n.rank {
            Some(k) => Some(rank_code(k) as u64),
            None => None,
        },
        None => None,
    }
}

/// Capture mark of an optional normal move.
pub open spec fn n_cap(on: Option<NormalSan>) -> Option<u64> {
    match on {
        Some(n) => Some(b2u(n.capture)),
        None => None,
    }
}

/// Target file code of an optional normal move.
pub open spec fn n_tofile(on: Option<NormalSan>) -> Option<u64> {
    match on {
        Some(n) => Some(file_code(n.to.file) as u64),
        None => None,
    }
}

/// Target rank code of an optional normal move.
pub open spec fn n_torank(on: Option<NormalSan>) -> Option<u64> {
    match on {
        Some(n) => Some(rank_code(n.to.rank) as u64),
        None => None,
    }
}

/// Promotion role code of an optional normal move.
pub open spec fn n_promo(on: Option<NormalSan>) -> Option<u64> {
    match on {
        Some(n) => match n.promotion {
            Some(p) => Some(role_code(p) as u64),
            None => None,
        },
        None => None,
    }
}

/// Role code of an optional piece drop.
pub open spec fn p_role(op: Option<PutSan>) -> Option<u64> {
    match op {
        Some(p) => Some(role_code(p.role) as u64),
        None => None,
    }
}

/// Target file code of an optional piece drop.
pub open spec fn p_file(op: Option<PutSan>) -> Option<u64> {
    match op {
        Some(p) => Some(file_code(p.to.file) as u64),
        None => None,
    }
}

/// Target rank code of an optional piece drop.
pub open spec fn p_rank(op: Option<PutSan>) -> Option<u64> {
    match op {
        Some(p) => Some(rank_code(p.to.rank) as u64),
        None => None,
    }
}

/// Clock seconds of an optional comment.
pub open spec fn c_clock(oc: Option<Comment>) -> Option<u64> {
    match oc {
        Some(c) => match c.clock {
            Some(v) => Some(v as u64),
            None => None,
        },
        None => None,
    }
}

/// Zigzag evaluation of an optional comment.
pub open spec fn c_eval(oc: Option<Comment>) -> Option<u64> {
    match oc {
        Some(c) => match c.eval_centipawns {
            Some(v) => Some(spec_zigzag(v)),
            None => None,
        },
        None => None,
    }
}

/// Zigzag mate distance of an optional comment.
pub open spec fn c_mated(oc: Option<Comment>) -> Option<u64> {
    match oc {
        Some(c) => match c.getting_mated_in {
            Some(v) => Some(spec_zigzag(v as i64)),
            None => None,
        },
        None => None,
    }
}

/// Presence of a SAN in an entry, on the wire.
pub open spec fn f_e_san(e: GameEntry) -> u64 {
    b2u(e.san is Some)
}

/// Presence of a normal move.
pub open spec fn f_e_normal(e: GameEntry) -> u64 {
    match e.san {
        Some(s) => b2u(s.normal is Some),
        None => 0,
    }
}

/// The normal move of an entry, when there is one.
pub open spec fn normal_of(e: GameEntry) -> Option<NormalSan> {
    match e.san {
        Some(s) => s.normal,
        None => None,
    }
}

/// The piece drop of an entry, when there is one.
pub open spec fn put_of(e: GameEntry) -> Option<PutSan> {
    match e.san {
        Some(s) => s.put,
        None => None,
    }
}

/// The comment of an entry, when there is one.
pub open spec fn comment_of(e: GameEntry) -> Option<Comment> {
    e.comment
}

/// Role code of the normal move.
pub open spec fn f_e_nrole(e: GameEntry) -> Option<u64> {
    n_role(normal_of(e))
}

/// Disambiguation file code.
pub open spec fn f_e_nfile(e: GameEntry) -> Option<u64> {
    n_file(normal_of(e))
}

/// Disambiguation rank code.
pub open spec fn f_e_nrank(e: GameEntry) -> Option<u64> {
    n_rank(normal_of(e))
}

/// Capture mark.
pub open spec fn f_e_ncap(e: GameEntry) -> Option<u64> {
    n_cap(normal_of(e))
}

/// Target file code.
pub open spec fn f_e_tofile(e: GameEntry) -> Option<u64> {
    n_tofile(normal_of(e))
}

/// Target rank code.
pub open spec fn f_e_torank(e: GameEntry) -> Option<u64> {
    n_torank(normal_of(e))
}

/// Promotion role code.
pub open spec fn f_e_promo(e: GameEntry) -> Option<u64> {
    n_promo(normal_of(e))
}

/// Castling side code.
pub open spec fn f_e_castle(e: GameEntry) -> Option<u64> {
    match e.san {
        Some(s) => match s.castle {
            Some(c) => Some(castling_code(c.side) as u64),
            None => None,
        },
        None => None,
    }
}

/// Dropped piece role code.
pub open spec fn f_e_prole(e: GameEntry) -> Option<u64> {
    p_role(put_of(e))
}

/// Drop target file code.
pub open spec fn f_e_pfile(e: GameEntry) -> Option<u64> {
    p_file(put_of(e))
}

/// Drop target rank code.
pub open spec fn f_e_prank(e: GameEntry) -> Option<u64> {
    p_rank(put_of(e))
}

/// Check flag.
pub open spec fn f_e_chk(e: GameEntry) -> Option<u64> {
    match e.san {
        Some(s) => match s.is_check {
            Some(b) => Some(b2u(b)),
            None => None,
        },
        None => None,
    }
}

/// Checkmate flag.
pub open spec fn f_e_mate(e: GameEntry) -> Option<u64> {
    match e.san {
        Some(s) => match s.is_checkmate {
            Some(b) => Some(b2u(b)),
            None => None,
        },
        None => None,
    }
}

/// Annotation glyph code.
pub open spec fn f_e_nag(e: GameEntry) -> Option<u64> {
    match e.nag {
        Some(n) => Some(nag_code(n) as u64),
        None => None,
    }
}

/// Presence of a comment.
pub open spec fn f_e_com(e: GameEntry) -> u64 {
    b2u(e.comment is Some)
}

/// Clock seconds.
pub open spec fn f_e_clock(e: GameEntry) -> Option<u64> {
    c_clock(comment_of(e))
}

/// Zigzag of the centipawn evaluation.
pub open spec fn f_e_eval(e: GameEntry) -> Option<u64> {
    c_eval(comment_of(e))
}

/// Zigzag of the mate distance.
pub open spec fn f_e_mated(e: GameEntry) -> Option<u64> {
    c_mated(comment_of(e))
}


/// Wire form of one game entry: twenty flat tagged fields.
#[verifier::opaque]
pub open spec fn spec_enc_entry(e: GameEntry) -> Seq<u8> {
    spec_field_u64(1, f_e_san(e)) + spec_field_u64(2, f_e_normal(e)) + spec_field_opt_u64(3, f_e_nrole(e)) + spec_field_opt_u64(4, f_e_nfile(e)) + spec_field_opt_u64(5, f_e_nrank(e)) + spec_field_opt_u64(6, f_e_ncap(e)) + spec_field_opt_u64(7, f_e_tofile(e)) + spec_field_opt_u64(8, f_e_torank(e)) + spec_field_opt_u64(9, f_e_promo(e)) + spec_field_opt_u64(10, f_e_castle(e)) + spec_field_opt_u64(11, f_e_prole(e)) + spec_field_opt_u64(12, f_e_pfile(e)) + spec_field_opt_u64(13, f_e_prank(e)) + spec_field_opt_u64(14, f_e_chk(e)) + spec_field_opt_u64(15, f_e_mate(e)) + spec_field_opt_u64(16, f_e_nag(e)) + spec_field_u64(17, f_e_com(e)) + spec_field_opt_u64(18, f_e_clock(e)) + spec_field_opt_u64(19, f_e_eval(e)) + spec_field_opt_u64(20, f_e_mated(e))
}

/// Appends the first half of an entry's wire form.
#[verifier::rlimit(100)]
fn enc_entry_a(out: &mut Vec<u8>, e: &GameEntry)
    ensures
        final(out)@ == old(out)@ + (spec_field_u64(1, f_e_san(*e)) + spec_field_u64(2, f_e_normal(*e)) + spec_field_opt_u64(3, f_e_nrole(*e)) + spec_field_opt_u64(4, f_e_nfile(*e)) + spec_field_opt_u64(5, f_e_nrank(*e)) + spec_field_opt_u64(6, f_e_ncap(*e)) + spec_field_opt_u64(7, f_e_tofile(*e)) + spec_field_opt_u64(8, f_e_torank(*e)) + spec_field_opt_u64(9, f_e_promo(*e)) + spec_field_opt_u64(10, f_e_castle(*e))),
{
    let (san_p, normal, castle, put, chk, mate): (
        u64,
        Option<NormalSan>,
        Option<u64>,
        Option<PutSan>,
        Option<u64>,
        Option<u64>,
    ) = match e.san {
        Some(s) => (
            1,
            s.normal,
            match s.castle {
                Some(c) => Some(castling_code_exec(c.side) as u64),
                None => None,
            },
            s.put,
            match s.is_check {
                Some(b) => Some(
                    if b {
                        1
                    } else {
                        0
                    },
                ),
                None => None,
            },
            match s.is_checkmate {
                Some(b) => Some(
                    if b {
                        1
                    } else {
                        0
                    },
                ),
                None => None,
            },
        ),
        None => (0, None, None, None, None, None),
    };

    enc_field_u64(out, 1, san_p);
    enc_field_u64(
        out,
        2,
        match normal {
            Some(_) => 1,
            None => 0,
        },
    );
    enc_field_opt_u64(
        out,
        3,
        match normal {
            Some(n) => Some(role_code_exec(n.role) as u64),
            None => None,
        },
    );
    enc_field_opt_u64(
        out,
        4,
        match normal {
            Some(n) => match n.file {
                Some(f) => Some(file_code_exec(f) as u64),
                None => None,
            },
            None => None,
        },
    );
    enc_field_opt_u64(
        out,
        5,
        match normal {
            Some(n) => match n.rank {
                Some(k) => Some(rank_code_exec(k) as u64),
                None => None,
            },
            None => None,
        },
    );
    enc_field_opt_u64(
        out,
        6,
        match normal {
            Some(n) => Some(
                if n.capture {
                    1
                } else {
                    0
                },
            ),
            None => None,
        },
    );
    enc_field_opt_u64(
        out,
        7,
        match normal {
            Some(n) => Some(file_code_exec(n.to.file) as u64),
            None => None,
        },
    );
    enc_field_opt_u64(
        out,
        8,
        match normal {
            Some(n) => Some(rank_code_exec(n.to.rank) as u64),
            None => None,
        },
    );
    enc_field_opt_u64(
        out,
        9,
        match normal {
            Some(n) => match n.promotion {
                Some(p) => Some(role_code_exec(p) as u64),
                None => None,
            },
            None => None,
        },
    );
    enc_field_opt_u64(out, 10, castle);

    proof {
        let fd1 = spec_field_u64(1, f_e_san(*e));
        let fd2 = spec_field_u64(2, f_e_normal(*e));
        let fd3 = spec_field_opt_u64(3, f_e_nrole(*e));
        let fd4 = spec_field_opt_u64(4, f_e_nfile(*e));
        let fd5 = spec_field_opt_u64(5, f_e_nrank(*e));
        let fd6 = spec_field_opt_u64(6, f_e_ncap(*e));
        let fd7 = spec_field_opt_u64(7, f_e_tofile(*e));
        let fd8 = spec_field_opt_u64(8, f_e_torank(*e));
        let fd9 = spec_field_opt_u64(9, f_e_promo(*e));
        let fd10 = spec_field_opt_u64(10, f_e_castle(*e));
        let q1 = fd1;
        let q2 = q1 + fd2;
        let q3 = q2 + fd3;
        let q4 = q3 + fd4;
        let q5 = q4 + fd5;
        let q6 = q5 + fd6;
        let q7 = q6 + fd7;
        let q8 = q7 + fd8;
        let q9 = q8 + fd9;
        let q10 = q9 + fd10;
        lemma_assoc(old(out)@, q1, fd2);
        lemma_assoc(old(out)@, q2, fd3);
        lemma_assoc(old(out)@, q3, fd4);
        lemma_assoc(old(out)@, q4, fd5);
        lemma_assoc(old(out)@, q5, fd6);
        lemma_assoc(old(out)@, q6, fd7);
        lemma_assoc(old(out)@, q7, fd8);
        lemma_assoc(old(out)@, q8, fd9);
        lemma_assoc(old(out)@, q9, fd10);
        assert(out@ == old(out)@ + q10);
        assert(q10 == (spec_field_u64(1, f_e_san(*e)) + spec_field_u64(2, f_e_normal(*e)) + spec_field_opt_u64(3, f_e_nrole(*e)) + spec_field_opt_u64(4, f_e_nfile(*e)) + spec_field_opt_u64(5, f_e_nrank(*e)) + spec_field_opt_u64(6, f_e_ncap(*e)) + spec_field_opt_u64(7, f_e_tofile(*e)) + spec_field_opt_u64(8, f_e_torank(*e)) + spec_field_opt_u64(9, f_e_promo(*e)) + spec_field_opt_u64(10, f_e_castle(*e))));
    }
}

/// Appends the second half of an entry's wire form.
#[verifier::rlimit(100)]
fn enc_entry_b(out: &mut Vec<u8>, e: &GameEntry)
    ensures
        final(out)@ == old(out)@ + (spec_field_opt_u64(11, f_e_prole(*e)) + spec_field_opt_u64(12, f_e_pfile(*e)) + spec_field_opt_u64(13, f_e_prank(*e)) + spec_field_opt_u64(14, f_e_chk(*e)) + spec_field_opt_u64(15, f_e_mate(*e)) + spec_field_opt_u64(16, f_e_nag(*e)) + spec_field_u64(17, f_e_com(*e)) + spec_field_opt_u64(18, f_e_clock(*e)) + spec_field_opt_u64(19, f_e_eval(*e)) + spec_field_opt_u64(20, f_e_mated(*e))),
{
    let (san_p, normal, castle, put, chk, mate): (
        u64,
        Option<NormalSan>,
        Option<u64>,
        Option<PutSan>,
        Option<u64>,
        Option<u64>,
    ) = match e.san {
        Some(s) => (
            1,
            s.normal,
            match s.castle {
                Some(c) => Some(castling_code_exec(c.side) as u64),
                None => None,
            },
            s.put,
            match s.is_check {
                Some(b) => Some(
                    if b {
                        1
                    } else {
                        0
                    },
                ),
                None => None,
            },
            match s.is_checkmate {
                Some(b) => Some(
                    if b {
                        1
                    } else {
                        0
                    },
                ),
                None => None,
            },
        ),
        None => (0, None, None, None, None, None),
    };
    enc_field_opt_u64(
        out,
        11,
        match put {
            Some(p) => Some(role_code_exec(p.role) as u64),
            None => None,
        },
    );
    enc_field_opt_u64(
        out,
        12,
        match put {
            Some(p) => Some(file_code_exec(p.to.file) as u64),
            None => None,
        },
    );
    enc_field_opt_u64(
        out,
        13,
        match put {
            Some(p) => Some(rank_code_exec(p.to.rank) as u64),
            None => None,
        },
    );
    enc_field_opt_u64(out, 14, chk);
    enc_field_opt_u64(out, 15, mate);
    enc_field_opt_u64(
        out,
        16,
        match e.nag {
            Some(n) => Some(nag_code_exec(n) as u64),
            None => None,
        },
    );
    enc_field_u64(
        out,
        17,
        match e.comment {
            Some(_) => 1,
            None => 0,
        },
    );
    enc_field_opt_u64(
        out,
        18,
        match e.comment {
            Some(c) => match c.clock {
                Some(v) => Some(v as u64),
                None => None,
            },
            None => None,
        },
    );
    enc_field_opt_u64(
        out,
        19,
        match e.comment {
            Some(c) => match c.eval_centipawns {
                Some(v) => Some(zigzag(v)),
                None => None,
            },
            None => None,
        },
    );
    enc_field_opt_u64(
        out,
        20,
        match e.comment {
            Some(c) => match c.getting_mated_in {
                Some(v) => Some(zigzag(v as i64)),
                None => None,
            },
            None => None,
        },
    );
    proof {
        let fd11 = spec_field_opt_u64(11, f_e_prole(*e));
        let fd12 = spec_field_opt_u64(12, f_e_pfile(*e));
        let fd13 = spec_field_opt_u64(13, f_e_prank(*e));
        let fd14 = spec_field_opt_u64(14, f_e_chk(*e));
        let fd15 = spec_field_opt_u64(15, f_e_mate(*e));
        let fd16 = spec_field_opt_u64(16, f_e_nag(*e));
        let fd17 = spec_field_u64(17, f_e_com(*e));
        let fd18 = spec_field_opt_u64(18, f_e_clock(*e));
        let fd19 = spec_field_opt_u64(19, f_e_eval(*e));
        let fd20 = spec_field_opt_u64(20, f_e_mated(*e));
        let b11 = fd11;
        let b12 = b11 + fd12;
        let b13 = b12 + fd13;
        let b14 = b13 + fd14;
        let b15 = b14 + fd15;
        let b16 = b15 + fd16;
        let b17 = b16 + fd17;
        let b18 = b17 + fd18;
        let b19 = b18 + fd19;
        let b20 = b19 + fd20;
        lemma_assoc(old(out)@, b11, fd12);
        lemma_assoc(old(out)@, b12, fd13);
        lemma_assoc(old(out)@, b13, fd14);
        lemma_assoc(old(out)@, b14, fd15);
        lemma_assoc(old(out)@, b15, fd16);
        lemma_assoc(old(out)@, b16, fd17);
        lemma_assoc(old(out)@, b17, fd18);
        lemma_assoc(old(out)@, b18, fd19);
        lemma_assoc(old(out)@, b19, fd20);
        assert(out@ == old(out)@ + b20);
        assert(b20 == (spec_field_opt_u64(11, f_e_prole(*e)) + spec_field_opt_u64(12, f_e_pfile(*e)) + spec_field_opt_u64(13, f_e_prank(*e)) + spec_field_opt_u64(14, f_e_chk(*e)) + spec_field_opt_u64(15, f_e_mate(*e)) + spec_field_opt_u64(16, f_e_nag(*e)) + spec_field_u64(17, f_e_com(*e)) + spec_field_opt_u64(18, f_e_clock(*e)) + spec_field_opt_u64(19, f_e_eval(*e)) + spec_field_opt_u64(20, f_e_mated(*e))));
    }
}

/// Appends the wire form of one entry.
#[verifier::rlimit(100)]
pub fn enc_entry(out: &mut Vec<u8>, e: &GameEntry)
    ensures
        final(out)@ == old(out)@ + spec_enc_entry(*e),
{
    enc_entry_a(out, e);
    enc_entry_b(out, e);
    proof {
        reveal(spec_enc_entry);
        let fd1 = spec_field_u64(1, f_e_san(*e));
        let fd2 = spec_field_u64(2, f_e_normal(*e));
        let fd3 = spec_field_opt_u64(3, f_e_nrole(*e));
        let fd4 = spec_field_opt_u64(4, f_e_nfile(*e));
        let fd5 = spec_field_opt_u64(5, f_e_nrank(*e));
        let fd6 = spec_field_opt_u64(6, f_e_ncap(*e));
        let fd7 = spec_field_opt_u64(7, f_e_tofile(*e));
        let fd8 = spec_field_opt_u64(8, f_e_torank(*e));
        let fd9 = spec_field_opt_u64(9, f_e_promo(*e));
        let fd10 = spec_field_opt_u64(10, f_e_castle(*e));
        let fd11 = spec_field_opt_u64(11, f_e_prole(*e));
        let fd12 = spec_field_opt_u64(12, f_e_pfile(*e));
        let fd13 = spec_field_opt_u64(13, f_e_prank(*e));
        let fd14 = spec_field_opt_u64(14, f_e_chk(*e));
        let fd15 = spec_field_opt_u64(15, f_e_mate(*e));
        let fd16 = spec_field_opt_u64(16, f_e_nag(*e));
        let fd17 = spec_field_u64(17, f_e_com(*e));
        let fd18 = spec_field_opt_u64(18, f_e_clock(*e));
        let fd19 = spec_field_opt_u64(19, f_e_eval(*e));
        let fd20 = spec_field_opt_u64(20, f_e_mated(*e));
        let q1 = fd1;
        let q2 = q1 + fd2;
        let q3 = q2 + fd3;
        let q4 = q3 + fd4;
        let q5 = q4 + fd5;
        let q6 = q5 + fd6;
        let q7 = q6 + fd7;
        let q8 = q7 + fd8;
        let q9 = q8 + fd9;
        let q10 = q9 + fd10;
        let q11 = q10 + fd11;
        let q12 = q11 + fd12;
        let q13 = q12 + fd13;
        let q14 = q13 + fd14;
        let q15 = q14 + fd15;
        let q16 = q15 + fd16;
        let q17 = q16 + fd17;
        let q18 = q17 + fd18;
        let q19 = q18 + fd19;
        let q20 = q19 + fd20;
        let b11 = fd11;
        let b12 = b11 + fd12;
        let b13 = b12 + fd13;
        let b14 = b13 + fd14;
        let b15 = b14 + fd15;
        let b16 = b15 + fd16;
        let b17 = b16 + fd17;
        let b18 = b17 + fd18;
        let b19 = b18 + fd19;
        let b20 = b19 + fd20;
        lemma_assoc(q10, b11, fd12);
        lemma_assoc(q10, b12, fd13);
        lemma_assoc(q10, b13, fd14);
        lemma_assoc(q10, b14, fd15);
        lemma_assoc(q10, b15, fd16);
        lemma_assoc(q10, b16, fd17);
        lemma_assoc(q10, b17, fd18);
        lemma_assoc(q10, b18, fd19);
        lemma_assoc(q10, b19, fd20);
        assert(q11 == q10 + b11);
        assert(q20 == q10 + b20);
        assert(spec_enc_entry(*e) == q20);
        lemma_assoc(old(out)@, q10, b20);
        assert(out@ == (old(out)@ + q10) + b20);
        assert(out@ == old(out)@ + spec_enc_entry(*e));
    }
}

/// The empty entry, the placeholder of a failed read.
fn default_entry() -> (r: GameEntry)
    ensures
        r == (GameEntry { san: None, nag: None, comment: None }),
{
    GameEntry { san: None, nag: None, comment: None }
}

/// Turns a code below 256 into a `u8`, or fails.
fn small_code(v: u64) -> (r: Option<u8>)
    ensures
        v <= 255 ==> r == Some(v as u8),
        v > 255 ==> r is None,
{
    if v <= 255 {
        Some(v as u8)
    } else {
        None
    }
}

/// Rebuilds an optional normal move from its wire fields.
#[verifier::rlimit(100)]
fn assemble_normal(
    v2: u64,
    v3: Option<u64>,
    v4: Option<u64>,
    v5: Option<u64>,
    v6: Option<u64>,
    v7: Option<u64>,
    v8: Option<u64>,
    v9: Option<u64>,
) -> (r: Option<Option<NormalSan>>)
    ensures
        forall|on: Option<NormalSan>|
            (v2 == b2u(#[trigger] (on is Some)) && v3 == n_role(on) && v4 == n_file(on) && v5
                == n_rank(on) && v6 == n_cap(on) && v7 == n_tofile(on) && v8 == n_torank(on) && v9
                == n_promo(on)) ==> r == Some(on),
{
    if v2 != 1 {
        return Some(None);
    }
    let role = match v3 {
        Some(c) => match small_code(c) {
            Some(c8) => match role_of_code_exec(c8) {
                Some(x) => x,
                None => {
                    return None;
                },
            },
            None => {
                return None;
            },
        },
        None => {
            return None;
        },
    };
    let dfile = match v4 {
        Some(c) => match small_code(c) {
            Some(c8) => match file_of_code_exec(c8) {
                Some(x) => Some(x),
                None => {
                    return None;
                },
            },
            None => {
                return None;
            },
        },
        None => None,
    };
    let drank = match v5 {
        Some(c) => match small_code(c) {
            Some(c8) => match rank_of_code_exec(c8) {
                Some(x) => Some(x),
                None => {
                    return None;
                },
            },
            None => {
                return None;
            },
        },
        None => None,
    };
    let capture = match v6 {
        Some(c) => c == 1,
        None => {
            return None;
        },
    };
    let tofile = match v7 {
        Some(c) => match small_code(c) {
            Some(c8) => match file_of_code_exec(c8) {
                Some(x) => x,
                None => {
                    return None;
                },
            },
            None => {
                return None;
            },
        },
        None => {
            return None;
        },
    };
    let torank = match v8 {
        Some(c) => match small_code(c) {
            Some(c8) => match rank_of_code_exec(c8) {
                Some(x) => x,
                None => {
                    return None;
                },
            },
            None => {
                return None;
            },
        },
        None => {
            return None;
        },
    };
    let promo = match v9 {
        Some(c) => match small_code(c) {
            Some(c8) => match role_of_code_exec(c8) {
                Some(x) => Some(x),
                None => {
                    return None;
                },
            },
            None => {
                return None;
            },
        },
        None => None,
    };
    let built = NormalSan {
        role,
        file: dfile,
        rank: drank,
        capture,
        to: Square { file: tofile, rank: torank },
        promotion: promo,
    };
    proof {
        assert forall|on: Option<NormalSan>|
            (v2 == b2u(#[trigger] (on is Some)) && v3 == n_role(on) && v4 == n_file(on) && v5
                == n_rank(on) && v6 == n_cap(on) && v7 == n_tofile(on) && v8 == n_torank(on) && v9
                == n_promo(on)) implies Some(Some(built)) == Some(on) by {
            let n = on.unwrap();
            assert(role == n.role);
            assert(dfile == n.file);
            assert(drank == n.rank);
            assert(capture == n.capture);
            assert(tofile == n.to.file && torank == n.to.rank);
            assert(promo == n.promotion);
            assert(Square { file: tofile, rank: torank } == n.to);
            assert(built == n);
        }
    }
    Some(Some(built))
}

/// Rebuilds an optional piece drop from its wire fields.
fn assemble_put(v11: Option<u64>, v12: Option<u64>, v13: Option<u64>) -> (r: Option<
    Option<PutSan>,
>)
    ensures
        forall|op: Option<PutSan>|
            (v11 == #[trigger] p_role(op) && v12 == p_file(op) && v13 == p_rank(op)) ==> r == Some(
                op,
            ),
{
    match (v11, v12, v13) {
        (Some(rc), Some(fc), Some(kc)) => {
            let role = match small_code(rc) {
                Some(c8) => match role_of_code_exec(c8) {
                    Some(x) => x,
                    None => {
                        return None;
                    },
                },
                None => {
                    return None;
                },
            };
            let pfile = match small_code(fc) {
                Some(c8) => match file_of_code_exec(c8) {
                    Some(x) => x,
                    None => {
                        return None;
                    },
                },
                None => {
                    return None;
                },
            };
            let prank = match small_code(kc) {
                Some(c8) => match rank_of_code_exec(c8) {
                    Some(x) => x,
                    None => {
                        return None;
                    },
                },
                None => {
                    return None;
                },
            };
            Some(Some(PutSan { role, to: Square { file: pfile, rank: prank } }))
        },
        (None, None, None) => Some(None),
        _ => None,
    }
}

/// Rebuilds an optional comment from its wire fields.
fn assemble_comment(v17: u64, v18: Option<u64>, v19: Option<u64>, v20: Option<u64>) -> (r: Option<
    Option<Comment>,
>)
    ensures
        forall|oc: Option<Comment>|
            (v17 == b2u(#[trigger] (oc is Some)) && v18 == c_clock(oc) && v19 == c_eval(oc) && v20
                == c_mated(oc)) ==> r == Some(oc),
{
    proof {
        lemma_zigzag_injective();
    }
    if v17 != 1 {
        return Some(None);
    }
    let clock = match v18 {
        Some(c) => {
            if c <= u32::MAX as u64 {
                Some(c as u32)
            } else {
                return None;
            }
        },
        None => None,
    };
    let eval = match v19 {
        Some(z) => Some(unzigzag(z)),
        None => None,
    };
    let mated = match v20 {
        Some(z) => {
            let m = unzigzag(z);
            if i32::MIN as i64 <= m && m <= i32::MAX as i64 {
                Some(m as i32)
            } else {
                return None;
            }
        },
        None => None,
    };
    Some(Some(Comment { clock, eval_centipawns: eval, getting_mated_in: mated }))
}

/// Rebuilds one entry from its twenty wire fields: exactly the entry the
/// fields came from, whenever they came from one.
#[verifier::rlimit(100)]
fn assemble_entry(
    v1: u64,
    v2: u64,
    v3: Option<u64>,
    v4: Option<u64>,
    v5: Option<u64>,
    v6: Option<u64>,
    v7: Option<u64>,
    v8: Option<u64>,
    v9: Option<u64>,
    v10: Option<u64>,
    v11: Option<u64>,
    v12: Option<u64>,
    v13: Option<u64>,
    v14: Option<u64>,
    v15: Option<u64>,
    v16: Option<u64>,
    v17: u64,
    v18: Option<u64>,
    v19: Option<u64>,
    v20: Option<u64>,
) -> (r: Option<GameEntry>)
    ensures
        forall|e: GameEntry|
            (v1 == #[trigger] f_e_san(e) && v2 == f_e_normal(e) && v3 == f_e_nrole(e) && v4
                == f_e_nfile(e) && v5 == f_e_nrank(e) && v6 == f_e_ncap(e) && v7 == f_e_tofile(e)
                && v8 == f_e_torank(e) && v9 == f_e_promo(e) && v10 == f_e_castle(e) && v11
                == f_e_prole(e) && v12 == f_e_pfile(e) && v13 == f_e_prank(e) && v14 == f_e_chk(e)
                && v15 == f_e_mate(e) && v16 == f_e_nag(e) && v17 == f_e_com(e) && v18
                == f_e_clock(e) && v19 == f_e_eval(e) && v20 == f_e_mated(e)) ==> r == Some(e),
{
    let normal = match assemble_normal(v2, v3, v4, v5, v6, v7, v8, v9) {
        Some(x) => x,
        None => {
            return None;
        },
    };
    let put = match assemble_put(v11, v12, v13) {
        Some(x) => x,
        None => {
            return None;
        },
    };
    let comment = match assemble_comment(v17, v18, v19, v20) {
        Some(x) => x,
        None => {
            return None;
        },
    };
    let castle = match v10 {
        Some(c) => match small_code(c) {
            Some(c8) => match castling_of_code_exec(c8) {
                Some(x) => Some(CastleSan { side: x }),
                None => {
                    return None;
                },
            },
            None => {
                return None;
            },
        },
        None => None,
    };
    let is_check = match v14 {
        Some(c) => Some(c == 1),
        None => None,
    };
    let is_checkmate = match v15 {
        Some(c) => Some(c == 1),
        None => None,
    };
    let nag = match v16 {
        Some(c) => match small_code(c) {
            Some(c8) => match nag_of_code_exec(c8) {
                Some(x) => Some(x),
                None => {
                    return None;
                },
            },
            None => {
                return None;
            },
        },
        None => None,
    };
    let san: Option<San> = if v1 == 1 {
        Some(San { normal, castle, put, is_check, is_checkmate })
    } else {
        None
    };
    let result = GameEntry { san, nag, comment };
    proof {
        assert forall|e: GameEntry|
            (v1 == #[trigger] f_e_san(e) && v2 == f_e_normal(e) && v3 == f_e_nrole(e) && v4
                == f_e_nfile(e) && v5 == f_e_nrank(e) && v6 == f_e_ncap(e) && v7 == f_e_tofile(e)
                && v8 == f_e_torank(e) && v9 == f_e_promo(e) && v10 == f_e_castle(e) && v11
                == f_e_prole(e) && v12 == f_e_pfile(e) && v13 == f_e_prank(e) && v14 == f_e_chk(e)
                && v15 == f_e_mate(e) && v16 == f_e_nag(e) && v17 == f_e_com(e) && v18
                == f_e_clock(e) && v19 == f_e_eval(e) && v20 == f_e_mated(e)) implies Some(result)
            == Some(e) by {
            assert(normal == normal_of(e));
            assert(put == put_of(e));
            assert(comment == e.comment);
            match e.san {
                Some(s) => {
                    assert(v1 == 1);
                    assert(san == Some(San { normal, castle, put, is_check, is_checkmate }));
                    assert(castle == s.castle);
                    assert(is_check == s.is_check);
                    assert(is_checkmate == s.is_checkmate);
                    assert(San { normal, castle, put, is_check, is_checkmate } == s);
                },
                None => {
                    assert(v1 == 0);
                },
            }
            assert(nag == e.nag);
        }
    }
    Some(result)
}

/// Zigzag is one to one.
proof fn lemma_zigzag_injective()
    ensures
        forall|a: i64, b: i64| #[trigger] spec_zigzag(a) == #[trigger] spec_zigzag(b) ==> a == b,
{
}


/// The first ten wire fields of an entry.
pub struct EntryFront {
    pub v1: u64,
    pub v2: u64,
    pub v3: Option<u64>,
    pub v4: Option<u64>,
    pub v5: Option<u64>,
    pub v6: Option<u64>,
    pub v7: Option<u64>,
    pub v8: Option<u64>,
    pub v9: Option<u64>,
    pub v10: Option<u64>,
    pub p10: usize,
    pub ok: bool,
}

/// Reads the first ten fields of an entry.
#[verifier::rlimit(100)]
fn dec_entry_front(bytes: &Vec<u8>, pos: usize) -> (r: EntryFront)
    requires
        pos <= bytes@.len(),
    ensures
        pos <= r.p10 <= bytes@.len(),
        forall|e: GameEntry, rest: Seq<u8>|
            bytes@.subrange(pos as int, bytes@.len() as int) == #[trigger] (spec_enc_entry(e)
                + rest) ==> (r.v1 == f_e_san(e) && r.v2 == f_e_normal(e) && r.v3 == f_e_nrole(e) && r.v4 == f_e_nfile(e) && r.v5 == f_e_nrank(e) && r.v6 == f_e_ncap(e) && r.v7 == f_e_tofile(e) && r.v8 == f_e_torank(e) && r.v9 == f_e_promo(e) && r.v10 == f_e_castle(e) && r.ok && r.p10 == pos + (spec_field_u64(1, f_e_san(e)).len() + spec_field_u64(2, f_e_normal(e)).len() + spec_field_opt_u64(3, f_e_nrole(e)).len() + spec_field_opt_u64(4, f_e_nfile(e)).len() + spec_field_opt_u64(5, f_e_nrank(e)).len() + spec_field_opt_u64(6, f_e_ncap(e)).len() + spec_field_opt_u64(7, f_e_tofile(e)).len() + spec_field_opt_u64(8, f_e_torank(e)).len() + spec_field_opt_u64(9, f_e_promo(e)).len() + spec_field_opt_u64(10, f_e_castle(e)).len())
                && bytes@.subrange(r.p10 as int, bytes@.len() as int) == (spec_field_opt_u64(11, f_e_prole(e)) + (spec_field_opt_u64(12, f_e_pfile(e)) + (spec_field_opt_u64(13, f_e_prank(e)) + (spec_field_opt_u64(14, f_e_chk(e)) + (spec_field_opt_u64(15, f_e_mate(e)) + (spec_field_opt_u64(16, f_e_nag(e)) + (spec_field_u64(17, f_e_com(e)) + (spec_field_opt_u64(18, f_e_clock(e)) + (spec_field_opt_u64(19, f_e_eval(e)) + (spec_field_opt_u64(20, f_e_mated(e)) + rest))))))))))),
{
    let n = bytes.len();
    let (v1, p1, ok1) = dec_field_u64(bytes, pos, 1);
    let (v2, p2, ok2) = dec_field_u64(bytes, p1, 2);
    let (v3, p3, ok3) = dec_field_opt_u64(bytes, p2, 3);
    let (v4, p4, ok4) = dec_field_opt_u64(bytes, p3, 4);
    let (v5, p5, ok5) = dec_field_opt_u64(bytes, p4, 5);
    let (v6, p6, ok6) = dec_field_opt_u64(bytes, p5, 6);
    let (v7, p7, ok7) = dec_field_opt_u64(bytes, p6, 7);
    let (v8, p8, ok8) = dec_field_opt_u64(bytes, p7, 8);
    let (v9, p9, ok9) = dec_field_opt_u64(bytes, p8, 9);
    let (v10, p10, ok10) = dec_field_opt_u64(bytes, p9, 10);
    let ok = ok1 && ok2 && ok3 && ok4 && ok5 && ok6 && ok7 && ok8 && ok9 && ok10;
    proof {
        assert forall|e: GameEntry, rest: Seq<u8>|
            bytes@.subrange(pos as int, bytes@.len() as int) == #[trigger] (spec_enc_entry(e)
                + rest) implies (v1 == f_e_san(e) && v2 == f_e_normal(e) && v3 == f_e_nrole(e) && v4 == f_e_nfile(e) && v5 == f_e_nrank(e) && v6 == f_e_ncap(e) && v7 == f_e_tofile(e) && v8 == f_e_torank(e) && v9 == f_e_promo(e) && v10 == f_e_castle(e) && ok && p10 == pos + (spec_field_u64(1, f_e_san(e)).len() + spec_field_u64(2, f_e_normal(e)).len() + spec_field_opt_u64(3, f_e_nrole(e)).len() + spec_field_opt_u64(4, f_e_nfile(e)).len() + spec_field_opt_u64(5, f_e_nrank(e)).len() + spec_field_opt_u64(6, f_e_ncap(e)).len() + spec_field_opt_u64(7, f_e_tofile(e)).len() + spec_field_opt_u64(8, f_e_torank(e)).len() + spec_field_opt_u64(9, f_e_promo(e)).len() + spec_field_opt_u64(10, f_e_castle(e)).len())
            && bytes@.subrange(p10 as int, bytes@.len() as int) == (spec_field_opt_u64(11, f_e_prole(e)) + (spec_field_opt_u64(12, f_e_pfile(e)) + (spec_field_opt_u64(13, f_e_prank(e)) + (spec_field_opt_u64(14, f_e_chk(e)) + (spec_field_opt_u64(15, f_e_mate(e)) + (spec_field_opt_u64(16, f_e_nag(e)) + (spec_field_u64(17, f_e_com(e)) + (spec_field_opt_u64(18, f_e_clock(e)) + (spec_field_opt_u64(19, f_e_eval(e)) + (spec_field_opt_u64(20, f_e_mated(e)) + rest))))))))))) by {
            reveal(spec_enc_entry);
            assert(bytes@.len() <= usize::MAX);
            let fd1 = spec_field_u64(1, f_e_san(e));
            let fd2 = spec_field_u64(2, f_e_normal(e));
            let fd3 = spec_field_opt_u64(3, f_e_nrole(e));
            let fd4 = spec_field_opt_u64(4, f_e_nfile(e));
            let fd5 = spec_field_opt_u64(5, f_e_nrank(e));
            let fd6 = spec_field_opt_u64(6, f_e_ncap(e));
            let fd7 = spec_field_opt_u64(7, f_e_tofile(e));
            let fd8 = spec_field_opt_u64(8, f_e_torank(e));
            let fd9 = spec_field_opt_u64(9, f_e_promo(e));
            let fd10 = spec_field_opt_u64(10, f_e_castle(e));
            let fd11 = spec_field_opt_u64(11, f_e_prole(e));
            let fd12 = spec_field_opt_u64(12, f_e_pfile(e));
            let fd13 = spec_field_opt_u64(13, f_e_prank(e));
            let fd14 = spec_field_opt_u64(14, f_e_chk(e));
            let fd15 = spec_field_opt_u64(15, f_e_mate(e));
            let fd16 = spec_field_opt_u64(16, f_e_nag(e));
            let fd17 = spec_field_u64(17, f_e_com(e));
            let fd18 = spec_field_opt_u64(18, f_e_clock(e));
            let fd19 = spec_field_opt_u64(19, f_e_eval(e));
            let fd20 = spec_field_opt_u64(20, f_e_mated(e));
            let r21 = rest;
            let r20 = fd20 + r21;
            let r19 = fd19 + r20;
            let r18 = fd18 + r19;
            let r17 = fd17 + r18;
            let r16 = fd16 + r17;
            let r15 = fd15 + r16;
            let r14 = fd14 + r15;
            let r13 = fd13 + r14;
            let r12 = fd12 + r13;
            let r11 = fd11 + r12;
            let r10 = fd10 + r11;
            let r9 = fd9 + r10;
            let r8 = fd8 + r9;
            let r7 = fd7 + r8;
            let r6 = fd6 + r7;
            let r5 = fd5 + r6;
            let r4 = fd4 + r5;
            let r3 = fd3 + r4;
            let r2 = fd2 + r3;
            let r1 = fd1 + r2;
            let q1 = fd1;
            let q2 = q1 + fd2;
            let q3 = q2 + fd3;
            let q4 = q3 + fd4;
            let q5 = q4 + fd5;
            let q6 = q5 + fd6;
            let q7 = q6 + fd7;
            let q8 = q7 + fd8;
            let q9 = q8 + fd9;
            let q10 = q9 + fd10;
            let q11 = q10 + fd11;
            let q12 = q11 + fd12;
            let q13 = q12 + fd13;
            let q14 = q13 + fd14;
            let q15 = q14 + fd15;
            let q16 = q15 + fd16;
            let q17 = q16 + fd17;
            let q18 = q17 + fd18;
            let q19 = q18 + fd19;
            let q20 = q19 + fd20;
            lemma_assoc(q19, fd20, r21);
            lemma_assoc(q18, fd19, r20);
            lemma_assoc(q17, fd18, r19);
            lemma_assoc(q16, fd17, r18);
            lemma_assoc(q15, fd16, r17);
            lemma_assoc(q14, fd15, r16);
            lemma_assoc(q13, fd14, r15);
            lemma_assoc(q12, fd13, r14);
            lemma_assoc(q11, fd12, r13);
            lemma_assoc(q10, fd11, r12);
            lemma_assoc(q9, fd10, r11);
            lemma_assoc(q8, fd9, r10);
            lemma_assoc(q7, fd8, r9);
            lemma_assoc(q6, fd7, r8);
            lemma_assoc(q5, fd6, r7);
            lemma_assoc(q4, fd5, r6);
            lemma_assoc(q3, fd4, r5);
            lemma_assoc(q2, fd3, r4);
            lemma_assoc(q1, fd2, r3);
            assert(spec_enc_entry(e) + rest == r1);
            assert(bytes@.subrange(pos as int, bytes@.len() as int) == fd1 + r2);
            assert((fd1 + r2).len() == bytes@.len() - pos);
            lemma_take_prefix(bytes@, pos as int, fd1, r2);
            assert(p1 == pos + fd1.len());
            assert(bytes@.subrange(p1 as int, bytes@.len() as int) == fd2 + r3);
            assert((fd2 + r3).len() == bytes@.len() - p1);
            lemma_take_prefix(bytes@, p1 as int, fd2, r3);
            assert(p2 == p1 + fd2.len());
            assert(bytes@.subrange(p2 as int, bytes@.len() as int) == fd3 + r4);
            assert((fd3 + r4).len() == bytes@.len() - p2);
            lemma_take_prefix(bytes@, p2 as int, fd3, r4);
            assert(p3 == p2 + fd3.len());
            assert(bytes@.subrange(p3 as int, bytes@.len() as int) == fd4 + r5);
            assert((fd4 + r5).len() == bytes@.len() - p3);
            lemma_take_prefix(bytes@, p3 as int, fd4, r5);
            assert(p4 == p3 + fd4.len());
            assert(bytes@.subrange(p4 as int, bytes@.len() as int) == fd5 + r6);
            assert((fd5 + r6).len() == bytes@.len() - p4);
            lemma_take_prefix(bytes@, p4 as int, fd5, r6);
            assert(p5 == p4 + fd5.len());
            assert(bytes@.subrange(p5 as int, bytes@.len() as int) == fd6 + r7);
            assert((fd6 + r7).len() == bytes@.len() - p5);
            lemma_take_prefix(bytes@, p5 as int, fd6, r7);
            assert(p6 == p5 + fd6.len());
            assert(bytes@.subrange(p6 as int, bytes@.len() as int) == fd7 + r8);
            assert((fd7 + r8).len() == bytes@.len() - p6);
            lemma_take_prefix(bytes@, p6 as int, fd7, r8);
            assert(p7 == p6 + fd7.len());
            assert(bytes@.subrange(p7 as int, bytes@.len() as int) == fd8 + r9);
            assert((fd8 + r9).len() == bytes@.len() - p7);
            lemma_take_prefix(bytes@, p7 as int, fd8, r9);
            assert(p8 == p7 + fd8.len());
            assert(bytes@.subrange(p8 as int, bytes@.len() as int) == fd9 + r10);
            assert((fd9 + r10).len() == bytes@.len() - p8);
            lemma_take_prefix(bytes@, p8 as int, fd9, r10);
            assert(p9 == p8 + fd9.len());
            assert(bytes@.subrange(p9 as int, bytes@.len() as int) == fd10 + r11);
            assert((fd10 + r11).len() == bytes@.len() - p9);
            lemma_take_prefix(bytes@, p9 as int, fd10, r11);
            assert(p10 == p9 + fd10.len());
        }
    }
    EntryFront { v1, v2, v3, v4, v5, v6, v7, v8, v9, v10, p10, ok }
}

/// Reads one entry at `pos`: the proven inverse of `enc_entry`.
#[verifier::rlimit(100)]
pub fn dec_entry(bytes: &Vec<u8>, pos: usize) -> (r: (GameEntry, usize, bool))
    requires
        pos <= bytes@.len(),
    ensures
        pos <= r.1 <= bytes@.len(),
        forall|e: GameEntry, rest: Seq<u8>|
            bytes@.subrange(pos as int, bytes@.len() as int) == #[trigger] (spec_enc_entry(e)
                + rest) ==> r == (e, (pos + spec_enc_entry(e).len()) as usize, true),
{
    let n = bytes.len();
    let f = dec_entry_front(bytes, pos);
    let (v11, p11, ok11) = dec_field_opt_u64(bytes, f.p10, 11);
    let (v12, p12, ok12) = dec_field_opt_u64(bytes, p11, 12);
    let (v13, p13, ok13) = dec_field_opt_u64(bytes, p12, 13);
    let (v14, p14, ok14) = dec_field_opt_u64(bytes, p13, 14);
    let (v15, p15, ok15) = dec_field_opt_u64(bytes, p14, 15);
    let (v16, p16, ok16) = dec_field_opt_u64(bytes, p15, 16);
    let (v17, p17, ok17) = dec_field_u64(bytes, p16, 17);
    let (v18, p18, ok18) = dec_field_opt_u64(bytes, p17, 18);
    let (v19, p19, ok19) = dec_field_opt_u64(bytes, p18, 19);
    let (v20, p20, ok20) = dec_field_opt_u64(bytes, p19, 20);
    let ok = f.ok && ok11 && ok12 && ok13 && ok14 && ok15 && ok16 && ok17 && ok18 && ok19 && ok20;
    proof {
        assert forall|e: GameEntry, rest: Seq<u8>|
            bytes@.subrange(pos as int, bytes@.len() as int) == #[trigger] (spec_enc_entry(e)
                + rest) implies (v11 == f_e_prole(e) && v12 == f_e_pfile(e) && v13 == f_e_prank(e) && v14 == f_e_chk(e) && v15 == f_e_mate(e) && v16 == f_e_nag(e) && v17 == f_e_com(e) && v18 == f_e_clock(e) && v19 == f_e_eval(e) && v20 == f_e_mated(e) && ok
            && p20 == pos + spec_enc_entry(e).len()) by {
            assert(bytes@.len() <= usize::MAX);
            let fd11 = spec_field_opt_u64(11, f_e_prole(e));
            let fd12 = spec_field_opt_u64(12, f_e_pfile(e));
            let fd13 = spec_field_opt_u64(13, f_e_prank(e));
            let fd14 = spec_field_opt_u64(14, f_e_chk(e));
            let fd15 = spec_field_opt_u64(15, f_e_mate(e));
            let fd16 = spec_field_opt_u64(16, f_e_nag(e));
            let fd17 = spec_field_u64(17, f_e_com(e));
            let fd18 = spec_field_opt_u64(18, f_e_clock(e));
            let fd19 = spec_field_opt_u64(19, f_e_eval(e));
            let fd20 = spec_field_opt_u64(20, f_e_mated(e));
            let r21 = rest;
            let r20 = fd20 + r21;
            let r19 = fd19 + r20;
            let r18 = fd18 + r19;
            let r17 = fd17 + r18;
            let r16 = fd16 + r17;
            let r15 = fd15 + r16;
            let r14 = fd14 + r15;
            let r13 = fd13 + r14;
            let r12 = fd12 + r13;
            let r11 = fd11 + r12;
            assert(bytes@.subrange(f.p10 as int, bytes@.len() as int) == r11);
            assert(bytes@.subrange(f.p10 as int, bytes@.len() as int) == fd11 + r12);
            assert((fd11 + r12).len() == bytes@.len() - f.p10);
            lemma_take_prefix(bytes@, f.p10 as int, fd11, r12);
            assert(p11 == f.p10 + fd11.len());
            assert(bytes@.subrange(p11 as int, bytes@.len() as int) == fd12 + r13);
            assert((fd12 + r13).len() == bytes@.len() - p11);
            lemma_take_prefix(bytes@, p11 as int, fd12, r13);
            assert(p12 == p11 + fd12.len());
            assert(bytes@.subrange(p12 as int, bytes@.len() as int) == fd13 + r14);
            assert((fd13 + r14).len() == bytes@.len() - p12);
            lemma_take_prefix(bytes@, p12 as int, fd13, r14);
            assert(p13 == p12 + fd13.len());
            assert(bytes@.subrange(p13 as int, bytes@.len() as int) == fd14 + r15);
            assert((fd14 + r15).len() == bytes@.len() - p13);
            lemma_take_prefix(bytes@, p13 as int, fd14, r15);
            assert(p14 == p13 + fd14.len());
            assert(bytes@.subrange(p14 as int, bytes@.len() as int) == fd15 + r16);
            assert((fd15 + r16).len() == bytes@.len() - p14);
            lemma_take_prefix(bytes@, p14 as int, fd15, r16);
            assert(p15 == p14 + fd15.len());
            assert(bytes@.subrange(p15 as int, bytes@.len() as int) == fd16 + r17);
            assert((fd16 + r17).len() == bytes@.len() - p15);
            lemma_take_prefix(bytes@, p15 as int, fd16, r17);
            assert(p16 == p15 + fd16.len());
            assert(bytes@.subrange(p16 as int, bytes@.len() as int) == fd17 + r18);
            assert((fd17 + r18).len() == bytes@.len() - p16);
            lemma_take_prefix(bytes@, p16 as int, fd17, r18);
            assert(p17 == p16 + fd17.len());
            assert(bytes@.subrange(p17 as int, bytes@.len() as int) == fd18 + r19);
            assert((fd18 + r19).len() == bytes@.len() - p17);
            lemma_take_prefix(bytes@, p17 as int, fd18, r19);
            assert(p18 == p17 + fd18.len());
            assert(bytes@.subrange(p18 as int, bytes@.len() as int) == fd19 + r20);
            assert((fd19 + r20).len() == bytes@.len() - p18);
            lemma_take_prefix(bytes@, p18 as int, fd19, r20);
            assert(p19 == p18 + fd19.len());
            assert(bytes@.subrange(p19 as int, bytes@.len() as int) == fd20 + r21);
            assert((fd20 + r21).len() == bytes@.len() - p19);
            lemma_take_prefix(bytes@, p19 as int, fd20, r21);
            assert(p20 == p19 + fd20.len());
            assert(spec_enc_entry(e).len() == spec_field_u64(1, f_e_san(e)).len() + spec_field_u64(2, f_e_normal(e)).len() + spec_field_opt_u64(3, f_e_nrole(e)).len() + spec_field_opt_u64(4, f_e_nfile(e)).len() + spec_field_opt_u64(5, f_e_nrank(e)).len() + spec_field_opt_u64(6, f_e_ncap(e)).len() + spec_field_opt_u64(7, f_e_tofile(e)).len() + spec_field_opt_u64(8, f_e_torank(e)).len() + spec_field_opt_u64(9, f_e_promo(e)).len() + spec_field_opt_u64(10, f_e_castle(e)).len() + spec_field_opt_u64(11, f_e_prole(e)).len() + spec_field_opt_u64(12, f_e_pfile(e)).len() + spec_field_opt_u64(13, f_e_prank(e)).len() + spec_field_opt_u64(14, f_e_chk(e)).len() + spec_field_opt_u64(15, f_e_mate(e)).len() + spec_field_opt_u64(16, f_e_nag(e)).len() + spec_field_u64(17, f_e_com(e)).len() + spec_field_opt_u64(18, f_e_clock(e)).len() + spec_field_opt_u64(19, f_e_eval(e)).len() + spec_field_opt_u64(20, f_e_mated(e)).len()) by {
                reveal(spec_enc_entry);
            }
        }
    }
    if !ok {
        return (default_entry(), pos, false);
    }
    match assemble_entry(
        f.v1,
        f.v2,
        f.v3,
        f.v4,
        f.v5,
        f.v6,
        f.v7,
        f.v8,
        f.v9,
        f.v10,
        v11,
        v12,
        v13,
        v14,
        v15,
        v16,
        v17,
        v18,
        v19,
        v20,
    ) {
        Some(entry) => (entry, p20, true),
        None => (default_entry(), pos, false),
    }
}

/// Event name on the wire.
pub open spec fn f_g_event(g: ChessGameSpec) -> Seq<char> {
    g.event_name
}

/// Site link on the wire.
pub open spec fn f_g_link(g: ChessGameSpec) -> Seq<char> {
    g.link
}

/// Zigzag of the game date.
pub open spec fn f_g_date(g: ChessGameSpec) -> Option<u64> {
    match g.date {
        Some(d) => Some(spec_zigzag(d)),
        None => None,
    }
}

/// White player's name.
pub open spec fn f_g_wname(g: ChessGameSpec) -> Seq<char> {
    g.white_player.name
}

/// White player's rating.
pub open spec fn f_g_welo(g: ChessGameSpec) -> u64 {
    g.white_player.elo as u64
}

/// White player's title code.
pub open spec fn f_g_wtitle(g: ChessGameSpec) -> Option<u64> {
    match g.white_player.title {
        Some(t) => Some(title_code(t) as u64),
        None => None,
    }
}

/// Black player's name.
pub open spec fn f_g_bname(g: ChessGameSpec) -> Seq<char> {
    g.black_player.name
}

/// Black player's rating.
pub open spec fn f_g_belo(g: ChessGameSpec) -> u64 {
    g.black_player.elo as u64
}

/// Black player's title code.
pub open spec fn f_g_btitle(g: ChessGameSpec) -> Option<u64> {
    match g.black_player.title {
        Some(t) => Some(title_code(t) as u64),
        None => None,
    }
}

/// Result code.
pub open spec fn f_g_result(g: ChessGameSpec) -> u64 {
    result_code(g.result) as u64
}

/// Zigzag of white's rating change.
pub open spec fn f_g_rw(g: ChessGameSpec) -> Option<u64> {
    match g.rating_outcome_for_white {
        Some(d) => Some(spec_zigzag(d as i64)),
        None => None,
    }
}

/// Zigzag of black's rating change.
pub open spec fn f_g_rb(g: ChessGameSpec) -> Option<u64> {
    match g.rating_outcome_for_black {
        Some(d) => Some(spec_zigzag(d as i64)),
        None => None,
    }
}

/// ECO code text.
pub open spec fn f_g_eco(g: ChessGameSpec) -> Seq<char> {
    g.eco
}

/// Opening name text.
pub open spec fn f_g_opening(g: ChessGameSpec) -> Seq<char> {
    g.opening
}

/// Time-control duration.
pub open spec fn f_g_tcdur(g: ChessGameSpec) -> Option<u64> {
    match g.timecontrol {
        Some(tc) => Some(tc.duration as u64),
        None => None,
    }
}

/// Time-control increment.
pub open spec fn f_g_tcinc(g: ChessGameSpec) -> Option<u64> {
    match g.timecontrol {
        Some(tc) => Some(tc.increment as u64),
        None => None,
    }
}

/// Termination code.
pub open spec fn f_g_term(g: ChessGameSpec) -> u64 {
    termination_code(g.termination) as u64
}

/// Wire form of a run of entries, in order.
pub open spec fn spec_enc_entries(es: Seq<GameEntry>) -> Seq<u8>
    decreases es.len(),
{
    if es.len() == 0 {
        Seq::empty()
    } else {
        spec_enc_entry(es.first()) + spec_enc_entries(es.drop_first())
    }
}

/// Wire form of a whole game: seventeen tagged header fields, the entry
/// count, and the entries.
#[verifier::opaque]
pub open spec fn spec_enc_game(g: ChessGameSpec) -> Seq<u8> {
    spec_field_string(1, f_g_event(g)) + spec_field_string(2, f_g_link(g)) + spec_field_opt_u64(3, f_g_date(g)) + spec_field_string(4, f_g_wname(g)) + spec_field_u64(5, f_g_welo(g)) + spec_field_opt_u64(6, f_g_wtitle(g)) + spec_field_string(7, f_g_bname(g)) + spec_field_u64(8, f_g_belo(g)) + spec_field_opt_u64(9, f_g_btitle(g)) + spec_field_u64(10, f_g_result(g)) + spec_field_opt_u64(11, f_g_rw(g)) + spec_field_opt_u64(12, f_g_rb(g)) + spec_field_string(13, f_g_eco(g)) + spec_field_string(14, f_g_opening(g)) + spec_field_opt_u64(15, f_g_tcdur(g)) + spec_field_opt_u64(16, f_g_tcinc(g)) + spec_field_u64(17, f_g_term(g)) + spec_field_u64(18, g.game_entries.len() as u64) + spec_enc_entries(g.game_entries)
}
/// Appends part of a game's header fields.
#[verifier::rlimit(100)]
fn enc_game_head_a(out: &mut Vec<u8>, g: &ChessGame)
    ensures
        final(out)@ == old(out)@ + (spec_field_string(1, f_g_event(g@)) + spec_field_string(2, f_g_link(g@)) + spec_field_opt_u64(3, f_g_date(g@)) + spec_field_string(4, f_g_wname(g@)) + spec_field_u64(5, f_g_welo(g@)) + spec_field_opt_u64(6, f_g_wtitle(g@)) + spec_field_string(7, f_g_bname(g@)) + spec_field_u64(8, f_g_belo(g@)) + spec_field_opt_u64(9, f_g_btitle(g@))),
{
    enc_field_string(
        out,
        1,
        g.event_name.as_str(),
    );
    enc_field_string(
        out,
        2,
        g.link.as_str(),
    );
    enc_field_opt_u64(
        out,
        3,
        match g.date {
            Some(d) => Some(zigzag(d)),
            None => None,
        },
    );
    enc_field_string(
        out,
        4,
        g.white_player.name.as_str(),
    );
    enc_field_u64(
        out,
        5,
        g.white_player.elo as u64,
    );
    enc_field_opt_u64(
        out,
        6,
        match g.white_player.title {
            Some(t) => Some(title_code_exec(t) as u64),
            None => None,
        },
    );
    enc_field_string(
        out,
        7,
        g.black_player.name.as_str(),
    );
    enc_field_u64(
        out,
        8,
        g.black_player.elo as u64,
    );
    enc_field_opt_u64(
        out,
        9,
        match g.black_player.title {
            Some(t) => Some(title_code_exec(t) as u64),
            None => None,
        },
    );
    proof {
        let fd1 = spec_field_string(1, f_g_event(g@));
        let fd2 = spec_field_string(2, f_g_link(g@));
        let fd3 = spec_field_opt_u64(3, f_g_date(g@));
        let fd4 = spec_field_string(4, f_g_wname(g@));
        let fd5 = spec_field_u64(5, f_g_welo(g@));
        let fd6 = spec_field_opt_u64(6, f_g_wtitle(g@));
        let fd7 = spec_field_string(7, f_g_bname(g@));
        let fd8 = spec_field_u64(8, f_g_belo(g@));
        let fd9 = spec_field_opt_u64(9, f_g_btitle(g@));
        let q1 = fd1;
        let q2 = q1 + fd2;
        let q3 = q2 + fd3;
        let q4 = q3 + fd4;
        let q5 = q4 + fd5;
        let q6 = q5 + fd6;
        let q7 = q6 + fd7;
        let q8 = q7 + fd8;
        let q9 = q8 + fd9;
        lemma_assoc(old(out)@, q1, fd2);
        lemma_assoc(old(out)@, q2, fd3);
        lemma_assoc(old(out)@, q3, fd4);
        lemma_assoc(old(out)@, q4, fd5);
        lemma_assoc(old(out)@, q5, fd6);
        lemma_assoc(old(out)@, q6, fd7);
        lemma_assoc(old(out)@, q7, fd8);
        lemma_assoc(old(out)@, q8, fd9);
        assert(out@ == old(out)@ + q9);
        assert(q9 == (spec_field_string(1, f_g_event(g@)) + spec_field_string(2, f_g_link(g@)) + spec_field_opt_u64(3, f_g_date(g@)) + spec_field_string(4, f_g_wname(g@)) + spec_field_u64(5, f_g_welo(g@)) + spec_field_opt_u64(6, f_g_wtitle(g@)) + spec_field_string(7, f_g_bname(g@)) + spec_field_u64(8, f_g_belo(g@)) + spec_field_opt_u64(9, f_g_btitle(g@))));
    }
}

/// Appends part of a game's header fields.
#[verifier::rlimit(100)]
fn enc_game_head_b(out: &mut Vec<u8>, g: &ChessGame)
    ensures
        final(out)@ == old(out)@ + (spec_field_u64(10, f_g_result(g@)) + spec_field_opt_u64(11, f_g_rw(g@)) + spec_field_opt_u64(12, f_g_rb(g@)) + spec_field_string(13, f_g_eco(g@)) + spec_field_string(14, f_g_opening(g@)) + spec_field_opt_u64(15, f_g_tcdur(g@)) + spec_field_opt_u64(16, f_g_tcinc(g@)) + spec_field_u64(17, f_g_term(g@))),
{
    enc_field_u64(
        out,
        10,
        result_code_exec(g.result) as u64,
    );
    enc_field_opt_u64(
        out,
        11,
        match g.rating_outcome_for_white {
            Some(d) => Some(zigzag(d as i64)),
            None => None,
        },
    );
    enc_field_opt_u64(
        out,
        12,
        match g.rating_outcome_for_black {
            Some(d) => Some(zigzag(d as i64)),
            None => None,
        },
    );
    enc_field_string(
        out,
        13,
        g.eco.as_str(),
    );
    enc_field_string(
        out,
        14,
        g.opening.as_str(),
    );
    enc_field_opt_u64(
        out,
        15,
        match g.timecontrol {
            Some(tc) => Some(tc.duration as u64),
            None => None,
        },
    );
    enc_field_opt_u64(
        out,
        16,
        match g.timecontrol {
            Some(tc) => Some(tc.increment as u64),
            None => None,
        },
    );
    enc_field_u64(
        out,
        17,
        termination_code_exec(g.termination) as u64,
    );
    proof {
        let fd10 = spec_field_u64(10, f_g_result(g@));
        let fd11 = spec_field_opt_u64(11, f_g_rw(g@));
        let fd12 = spec_field_opt_u64(12, f_g_rb(g@));
        let fd13 = spec_field_string(13, f_g_eco(g@));
        let fd14 = spec_field_string(14, f_g_opening(g@));
        let fd15 = spec_field_opt_u64(15, f_g_tcdur(g@));
        let fd16 = spec_field_opt_u64(16, f_g_tcinc(g@));
        let fd17 = spec_field_u64(17, f_g_term(g@));
        let q10 = fd10;
        let q11 = q10 + fd11;
        let q12 = q11 + fd12;
        let q13 = q12 + fd13;
        let q14 = q13 + fd14;
        let q15 = q14 + fd15;
        let q16 = q15 + fd16;
        let q17 = q16 + fd17;
        lemma_assoc(old(out)@, q10, fd11);
        lemma_assoc(old(out)@, q11, fd12);
        lemma_assoc(old(out)@, q12, fd13);
        lemma_assoc(old(out)@, q13, fd14);
        lemma_assoc(old(out)@, q14, fd15);
        lemma_assoc(old(out)@, q15, fd16);
        lemma_assoc(old(out)@, q16, fd17);
        assert(out@ == old(out)@ + q17);
        assert(q17 == (spec_field_u64(10, f_g_result(g@)) + spec_field_opt_u64(11, f_g_rw(g@)) + spec_field_opt_u64(12, f_g_rb(g@)) + spec_field_string(13, f_g_eco(g@)) + spec_field_string(14, f_g_opening(g@)) + spec_field_opt_u64(15, f_g_tcdur(g@)) + spec_field_opt_u64(16, f_g_tcinc(g@)) + spec_field_u64(17, f_g_term(g@))));
    }
}

/// Appends every entry in order.
fn enc_entries(out: &mut Vec<u8>, es: &Vec<GameEntry>)
    ensures
        final(out)@ == old(out)@ + spec_enc_entries(es@),
{
    let n = es.len();
    let mut i: usize = 0;
    proof {
        assert(old(out)@ + spec_enc_entries(es@.subrange(0, 0)) =~= old(out)@);
    }
    while i < n
        invariant
            i <= n == es@.len(),
            out@ == old(out)@ + spec_enc_entries(es@.subrange(0, i as int)),
        decreases n - i,
    {
        let ghost pre = es@.subrange(0, i as int);
        enc_entry(out, &es[i]);
        proof {
            let post = es@.subrange(0, i as int + 1);
            lemma_enc_entries_snoc(pre, es@[i as int]);
            assert(post =~= pre.push(es@[i as int]));
            lemma_assoc(old(out)@, spec_enc_entries(pre), spec_enc_entry(es@[i as int]));
        }
        i = i + 1;
    }
    proof {
        assert(es@.subrange(0, n as int) =~= es@);
    }
}

/// Appending one entry extends the run's wire form at its end.
proof fn lemma_enc_entries_snoc(es: Seq<GameEntry>, e: GameEntry)
    ensures
        spec_enc_entries(es.push(e)) == spec_enc_entries(es) + spec_enc_entry(e),
    decreases es.len(),
{
    if es.len() == 0 {
        assert(es.push(e).drop_first() =~= Seq::<GameEntry>::empty());
        assert(es.push(e).first() == e);
        assert(spec_enc_entries(es.push(e)) == spec_enc_entry(e) + spec_enc_entries(
            Seq::<GameEntry>::empty(),
        ));
        assert(spec_enc_entry(e) + Seq::<u8>::empty() =~= spec_enc_entry(e));
        assert(spec_enc_entries(es) + spec_enc_entry(e) =~= spec_enc_entry(e));
    } else {
        assert(es.push(e).drop_first() =~= es.drop_first().push(e));
        lemma_enc_entries_snoc(es.drop_first(), e);
        assert(es.push(e).first() == es.first());
        lemma_assoc(spec_enc_entry(es.first()), spec_enc_entries(es.drop_first()), spec_enc_entry(e));
    }
}

/// Encodes a whole game for the wire.
#[verifier::rlimit(100)]
pub fn encode_game(g: &ChessGame) -> (r: Vec<u8>)
    ensures
        r@ == spec_enc_game(g@),
{
    let mut out: Vec<u8> = Vec::new();
    enc_game_head_a(&mut out, g);
    enc_game_head_b(&mut out, g);
    enc_field_u64(&mut out, 18, g.game_entries.len() as u64);
    enc_entries(&mut out, &g.game_entries);
    proof {
        reveal(spec_enc_game);
        let a = spec_field_string(1, f_g_event(g@)) + spec_field_string(2, f_g_link(g@)) + spec_field_opt_u64(3, f_g_date(g@)) + spec_field_string(4, f_g_wname(g@)) + spec_field_u64(5, f_g_welo(g@)) + spec_field_opt_u64(6, f_g_wtitle(g@)) + spec_field_string(7, f_g_bname(g@)) + spec_field_u64(8, f_g_belo(g@)) + spec_field_opt_u64(9, f_g_btitle(g@));
        let b = spec_field_u64(10, f_g_result(g@)) + spec_field_opt_u64(11, f_g_rw(g@)) + spec_field_opt_u64(12, f_g_rb(g@)) + spec_field_string(13, f_g_eco(g@)) + spec_field_string(14, f_g_opening(g@)) + spec_field_opt_u64(15, f_g_tcdur(g@)) + spec_field_opt_u64(16, f_g_tcinc(g@)) + spec_field_u64(17, f_g_term(g@));
        let cnt = spec_field_u64(18, g@.game_entries.len() as u64);
        let ents = spec_enc_entries(g@.game_entries);
        lemma_assoc(Seq::<u8>::empty(), a, b);
        lemma_assoc(Seq::<u8>::empty(), a + b, cnt);
        lemma_assoc(Seq::<u8>::empty(), (a + b) + cnt, ents);
        assert(Seq::<u8>::empty() + (((a + b) + cnt) + ents) =~= ((a + b) + cnt) + ents);
        assert(out@ == ((a + b) + cnt) + ents);
        assert(spec_enc_game(g@) == ((a + b) + cnt) + ents) by {
            lemma_assoc_head(g@);
        }
    }
    out
}

/// The header concatenation associates into two halves.
proof fn lemma_assoc_head(g: ChessGameSpec)
    ensures
        (spec_field_string(1, f_g_event(g)) + spec_field_string(2, f_g_link(g)) + spec_field_opt_u64(3, f_g_date(g)) + spec_field_string(4, f_g_wname(g)) + spec_field_u64(5, f_g_welo(g)) + spec_field_opt_u64(6, f_g_wtitle(g)) + spec_field_string(7, f_g_bname(g)) + spec_field_u64(8, f_g_belo(g)) + spec_field_opt_u64(9, f_g_btitle(g)) + spec_field_u64(10, f_g_result(g)) + spec_field_opt_u64(11, f_g_rw(g)) + spec_field_opt_u64(12, f_g_rb(g)) + spec_field_string(13, f_g_eco(g)) + spec_field_string(14, f_g_opening(g)) + spec_field_opt_u64(15, f_g_tcdur(g)) + spec_field_opt_u64(16, f_g_tcinc(g)) + spec_field_u64(17, f_g_term(g))) == (spec_field_string(1, f_g_event(g)) + spec_field_string(2, f_g_link(g)) + spec_field_opt_u64(3, f_g_date(g)) + spec_field_string(4, f_g_wname(g)) + spec_field_u64(5, f_g_welo(g)) + spec_field_opt_u64(6, f_g_wtitle(g)) + spec_field_string(7, f_g_bname(g)) + spec_field_u64(8, f_g_belo(g)) + spec_field_opt_u64(9, f_g_btitle(g))) + (spec_field_u64(10, f_g_result(g)) + spec_field_opt_u64(11, f_g_rw(g)) + spec_field_opt_u64(12, f_g_rb(g)) + spec_field_string(13, f_g_eco(g)) + spec_field_string(14, f_g_opening(g)) + spec_field_opt_u64(15, f_g_tcdur(g)) + spec_field_opt_u64(16, f_g_tcinc(g)) + spec_field_u64(17, f_g_term(g))),
{
    assert((spec_field_string(1, f_g_event(g)) + spec_field_string(2, f_g_link(g)) + spec_field_opt_u64(3, f_g_date(g)) + spec_field_string(4, f_g_wname(g)) + spec_field_u64(5, f_g_welo(g)) + spec_field_opt_u64(6, f_g_wtitle(g)) + spec_field_string(7, f_g_bname(g)) + spec_field_u64(8, f_g_belo(g)) + spec_field_opt_u64(9, f_g_btitle(g)) + spec_field_u64(10, f_g_result(g)) + spec_field_opt_u64(11, f_g_rw(g)) + spec_field_opt_u64(12, f_g_rb(g)) + spec_field_string(13, f_g_eco(g)) + spec_field_string(14, f_g_opening(g)) + spec_field_opt_u64(15, f_g_tcdur(g)) + spec_field_opt_u64(16, f_g_tcinc(g)) + spec_field_u64(17, f_g_term(g))) =~= (spec_field_string(1, f_g_event(g)) + spec_field_string(2, f_g_link(g)) + spec_field_opt_u64(3, f_g_date(g)) + spec_field_string(4, f_g_wname(g)) + spec_field_u64(5, f_g_welo(g)) + spec_field_opt_u64(6, f_g_wtitle(g)) + spec_field_string(7, f_g_bname(g)) + spec_field_u64(8, f_g_belo(g)) + spec_field_opt_u64(9, f_g_btitle(g))) + (spec_field_u64(10, f_g_result(g)) + spec_field_opt_u64(11, f_g_rw(g)) + spec_field_opt_u64(12, f_g_rb(g)) + spec_field_string(13, f_g_eco(g)) + spec_field_string(14, f_g_opening(g)) + spec_field_opt_u64(15, f_g_tcdur(g)) + spec_field_opt_u64(16, f_g_tcinc(g)) + spec_field_u64(17, f_g_term(g))));
}

/// Reads a run of `count` entries at `pos`: the proven inverse of
/// `enc_entries` for runs of that length.
pub fn dec_entries(bytes: &Vec<u8>, pos: usize, count: usize) -> (r: (Vec<GameEntry>, usize, bool))
    requires
        pos <= bytes@.len(),
    ensures
        pos <= r.1 <= bytes@.len(),
        forall|es: Seq<GameEntry>, rest: Seq<u8>|
            es.len() == count && bytes@.subrange(pos as int, bytes@.len() as int) == #[trigger] (
            spec_enc_entries(es) + rest) ==> (r.0@ == es && r.1 == pos + spec_enc_entries(es).len()
                && r.2),
    decreases count,
{
    let n = bytes.len();
    if count == 0 {
        proof {
            assert forall|es: Seq<GameEntry>, rest: Seq<u8>|
                es.len() == 0 && bytes@.subrange(pos as int, bytes@.len() as int) == #[trigger] (
            spec_enc_entries(es) + rest) implies (Seq::<GameEntry>::empty() == es && pos == pos
                + spec_enc_entries(es).len()) by {
                assert(es =~= Seq::<GameEntry>::empty());
            }
        }
        return (Vec::new(), pos, true);
    }
    let (e0, p0, ok0) = dec_entry(bytes, pos);
    if !ok0 {
        proof {
            assert forall|es: Seq<GameEntry>, rest: Seq<u8>|
                es.len() == count && bytes@.subrange(pos as int, bytes@.len() as int)
                == #[trigger] (spec_enc_entries(es) + rest) implies false by {
                lemma_assoc(spec_enc_entry(es.first()), spec_enc_entries(es.drop_first()), rest);
                assert((spec_enc_entry(es.first()) + (spec_enc_entries(es.drop_first()) + rest)).len()
                    == bytes@.len() - pos);
                assert(bytes@.len() <= usize::MAX);
            }
        }
        return (Vec::new(), pos, false);
    }
    let (mut tail_vec, p1, ok1) = dec_entries(bytes, p0, count - 1);
    if !ok1 {
        proof {
            assert forall|es: Seq<GameEntry>, rest: Seq<u8>|
                es.len() == count && bytes@.subrange(pos as int, bytes@.len() as int)
                == #[trigger] (spec_enc_entries(es) + rest) implies false by {
                lemma_assoc(spec_enc_entry(es.first()), spec_enc_entries(es.drop_first()), rest);
                assert((spec_enc_entry(es.first()) + (spec_enc_entries(es.drop_first()) + rest)).len()
                    == bytes@.len() - pos);
                assert(bytes@.len() <= usize::MAX);
                assert(e0 == es.first() && p0 == pos + spec_enc_entry(es.first()).len());
                lemma_take_prefix(
                    bytes@,
                    pos as int,
                    spec_enc_entry(es.first()),
                    spec_enc_entries(es.drop_first()) + rest,
                );
            }
        }
        return (Vec::new(), pos, false);
    }
    let mut out_vec: Vec<GameEntry> = Vec::new();
    out_vec.push(e0);
    out_vec.append(&mut tail_vec);
    proof {
        assert forall|es: Seq<GameEntry>, rest: Seq<u8>|
            es.len() == count && bytes@.subrange(pos as int, bytes@.len() as int) == #[trigger] (
        spec_enc_entries(es) + rest) implies (out_vec@ == es && p1 == pos + spec_enc_entries(
            es,
        ).len()) by {
            lemma_assoc(spec_enc_entry(es.first()), spec_enc_entries(es.drop_first()), rest);
            assert((spec_enc_entry(es.first()) + (spec_enc_entries(es.drop_first()) + rest)).len()
                == bytes@.len() - pos);
            assert(bytes@.len() <= usize::MAX);
            assert(e0 == es.first() && p0 == pos + spec_enc_entry(es.first()).len());
            lemma_take_prefix(
                bytes@,
                pos as int,
                spec_enc_entry(es.first()),
                spec_enc_entries(es.drop_first()) + rest,
            );
            assert(out_vec@ =~= es);
        }
    }
    (out_vec, p1, true)
}

/// Rebuilds a game from its header fields and entries: exactly the game
/// they came from, whenever they came from one.
#[verifier::rlimit(100)]
fn assemble_game(
    v1: String,
    v2: String,
    v3: Option<u64>,
    v4: String,
    v5: u64,
    v6: Option<u64>,
    v7: String,
    v8: u64,
    v9: Option<u64>,
    v10: u64,
    v11: Option<u64>,
    v12: Option<u64>,
    v13: String,
    v14: String,
    v15: Option<u64>,
    v16: Option<u64>,
    v17: u64,
    entries: Vec<GameEntry>,
) -> (r: Option<ChessGame>)
    ensures
        forall|g: ChessGameSpec|
            (v1@ == #[trigger] f_g_event(g) && v2@ == f_g_link(g) && v3 == f_g_date(g) && v4@
                == f_g_wname(g) && v5 == f_g_welo(g) && v6 == f_g_wtitle(g) && v7@ == f_g_bname(g)
                && v8 == f_g_belo(g) && v9 == f_g_btitle(g) && v10 == f_g_result(g) && v11
                == f_g_rw(g) && v12 == f_g_rb(g) && v13@ == f_g_eco(g) && v14@ == f_g_opening(g)
                && v15 == f_g_tcdur(g) && v16 == f_g_tcinc(g) && v17 == f_g_term(g) && entries@
                == g.game_entries) ==> (r matches Some(game) && game@ == g),
{
    proof {
        lemma_zigzag_injective();
    }
    let date = match v3 {
        Some(z) => Some(unzigzag(z)),
        None => None,
    };
    let welo = if v5 <= u32::MAX as u64 {
        v5 as u32
    } else {
        return None;
    };
    let belo = if v8 <= u32::MAX as u64 {
        v8 as u32
    } else {
        return None;
    };
    let wtitle = match v6 {
        Some(c) => match small_code(c) {
            Some(c8) => match title_of_code_exec(c8) {
                Some(t) => Some(t),
                None => {
                    return None;
                },
            },
            None => {
                return None;
            },
        },
        None => None,
    };
    let btitle = match v9 {
        Some(c) => match small_code(c) {
            Some(c8) => match title_of_code_exec(c8) {
                Some(t) => Some(t),
                None => {
                    return None;
                },
            },
            None => {
                return None;
            },
        },
        None => None,
    };
    let result = match small_code(v10) {
        Some(c8) => match result_of_code_exec(c8) {
            Some(x) => x,
            None => {
                return None;
            },
        },
        None => {
            return None;
        },
    };
    let rw = match v11 {
        Some(z) => {
            let d = unzigzag(z);
            if i32::MIN as i64 <= d && d <= i32::MAX as i64 {
                Some(d as i32)
            } else {
                return None;
            }
        },
        None => None,
    };
    let rb = match v12 {
        Some(z) => {
            let d = unzigzag(z);
            if i32::MIN as i64 <= d && d <= i32::MAX as i64 {
                Some(d as i32)
            } else {
                return None;
            }
        },
        None => None,
    };
    let timecontrol = match (v15, v16) {
        (Some(d), Some(inc)) => {
            if d <= u32::MAX as u64 && inc <= u32::MAX as u64 {
                Some(Timecontrol { duration: d as u32, increment: inc as u32 })
            } else {
                return None;
            }
        },
        (None, None) => None,
        _ => {
            return None;
        },
    };
    let termination = match small_code(v17) {
        Some(c8) => match termination_of_code_exec(c8) {
            Some(x) => x,
            None => {
                return None;
            },
        },
        None => {
            return None;
        },
    };
    let game = ChessGame {
        event_name: v1,
        link: v2,
        date,
        white_player: Player { name: v4, elo: welo, title: wtitle },
        black_player: Player { name: v7, elo: belo, title: btitle },
        result,
        rating_outcome_for_white: rw,
        rating_outcome_for_black: rb,
        eco: v13,
        opening: v14,
        timecontrol,
        termination,
        game_entries: entries,
    };
    Some(game)
}
/// The first nine wire fields of a game.
pub struct GameFront {
    pub v1: String,
    pub v2: String,
    pub v3: Option<u64>,
    pub v4: String,
    pub v5: u64,
    pub v6: Option<u64>,
    pub v7: String,
    pub v8: u64,
    pub v9: Option<u64>,
    pub p9: usize,
    pub ok: bool,
}

/// Reads the first nine header fields of a game.
#[verifier::rlimit(100)]
fn dec_game_front(bytes: &Vec<u8>, pos: usize) -> (r: GameFront)
    requires
        pos <= bytes@.len(),
    ensures
        pos <= r.p9 <= bytes@.len(),
        forall|g: ChessGameSpec, rest: Seq<u8>|
            bytes@.subrange(pos as int, bytes@.len() as int) == #[trigger] (spec_enc_game(g)
                + rest) ==> (r.v1@ == f_g_event(g) && r.v2@ == f_g_link(g) && r.v3 == f_g_date(g) && r.v4@ == f_g_wname(g) && r.v5 == f_g_welo(g) && r.v6 == f_g_wtitle(g) && r.v7@ == f_g_bname(g) && r.v8 == f_g_belo(g) && r.v9 == f_g_btitle(g) && r.ok && r.p9 == pos + (spec_field_string(1, f_g_event(g)).len() + spec_field_string(2, f_g_link(g)).len() + spec_field_opt_u64(3, f_g_date(g)).len() + spec_field_string(4, f_g_wname(g)).len() + spec_field_u64(5, f_g_welo(g)).len() + spec_field_opt_u64(6, f_g_wtitle(g)).len() + spec_field_string(7, f_g_bname(g)).len() + spec_field_u64(8, f_g_belo(g)).len() + spec_field_opt_u64(9, f_g_btitle(g)).len())
                && bytes@.subrange(r.p9 as int, bytes@.len() as int) == (spec_field_u64(10, f_g_result(g)) + (spec_field_opt_u64(11, f_g_rw(g)) + (spec_field_opt_u64(12, f_g_rb(g)) + (spec_field_string(13, f_g_eco(g)) + (spec_field_string(14, f_g_opening(g)) + (spec_field_opt_u64(15, f_g_tcdur(g)) + (spec_field_opt_u64(16, f_g_tcinc(g)) + (spec_field_u64(17, f_g_term(g)) + (spec_field_u64(18, g.game_entries.len() as u64) + (spec_enc_entries(g.game_entries) + rest))))))))))),
{
    let n = bytes.len();
    let (v1, p1, ok1) = dec_field_string(bytes, pos, 1);
    let (v2, p2, ok2) = dec_field_string(bytes, p1, 2);
    let (v3, p3, ok3) = dec_field_opt_u64(bytes, p2, 3);
    let (v4, p4, ok4) = dec_field_string(bytes, p3, 4);
    let (v5, p5, ok5) = dec_field_u64(bytes, p4, 5);
    let (v6, p6, ok6) = dec_field_opt_u64(bytes, p5, 6);
    let (v7, p7, ok7) = dec_field_string(bytes, p6, 7);
    let (v8, p8, ok8) = dec_field_u64(bytes, p7, 8);
    let (v9, p9, ok9) = dec_field_opt_u64(bytes, p8, 9);
    let ok = ok1 && ok2 && ok3 && ok4 && ok5 && ok6 && ok7 && ok8 && ok9;
    proof {
        assert forall|g: ChessGameSpec, rest: Seq<u8>|
            bytes@.subrange(pos as int, bytes@.len() as int) == #[trigger] (spec_enc_game(g)
                + rest) implies (v1@ == f_g_event(g) && v2@ == f_g_link(g) && v3 == f_g_date(g) && v4@ == f_g_wname(g) && v5 == f_g_welo(g) && v6 == f_g_wtitle(g) && v7@ == f_g_bname(g) && v8 == f_g_belo(g) && v9 == f_g_btitle(g) && ok && p9 == pos + (spec_field_string(1, f_g_event(g)).len() + spec_field_string(2, f_g_link(g)).len() + spec_field_opt_u64(3, f_g_date(g)).len() + spec_field_string(4, f_g_wname(g)).len() + spec_field_u64(5, f_g_welo(g)).len() + spec_field_opt_u64(6, f_g_wtitle(g)).len() + spec_field_string(7, f_g_bname(g)).len() + spec_field_u64(8, f_g_belo(g)).len() + spec_field_opt_u64(9, f_g_btitle(g)).len())
            && bytes@.subrange(p9 as int, bytes@.len() as int) == (spec_field_u64(10, f_g_result(g)) + (spec_field_opt_u64(11, f_g_rw(g)) + (spec_field_opt_u64(12, f_g_rb(g)) + (spec_field_string(13, f_g_eco(g)) + (spec_field_string(14, f_g_opening(g)) + (spec_field_opt_u64(15, f_g_tcdur(g)) + (spec_field_opt_u64(16, f_g_tcinc(g)) + (spec_field_u64(17, f_g_term(g)) + (spec_field_u64(18, g.game_entries.len() as u64) + (spec_enc_entries(g.game_entries) + rest))))))))))) by {
            reveal(spec_enc_game);
            assert(bytes@.len() <= usize::MAX);
            let fd1 = spec_field_string(1, f_g_event(g));
            let fd2 = spec_field_string(2, f_g_link(g));
            let fd3 = spec_field_opt_u64(3, f_g_date(g));
            let fd4 = spec_field_string(4, f_g_wname(g));
            let fd5 = spec_field_u64(5, f_g_welo(g));
            let fd6 = spec_field_opt_u64(6, f_g_wtitle(g));
            let fd7 = spec_field_string(7, f_g_bname(g));
            let fd8 = spec_field_u64(8, f_g_belo(g));
            let fd9 = spec_field_opt_u64(9, f_g_btitle(g));
            let fd10 = spec_field_u64(10, f_g_result(g));
            let fd11 = spec_field_opt_u64(11, f_g_rw(g));
            let fd12 = spec_field_opt_u64(12, f_g_rb(g));
            let fd13 = spec_field_string(13, f_g_eco(g));
            let fd14 = spec_field_string(14, f_g_opening(g));
            let fd15 = spec_field_opt_u64(15, f_g_tcdur(g));
            let fd16 = spec_field_opt_u64(16, f_g_tcinc(g));
            let fd17 = spec_field_u64(17, f_g_term(g));
            let r19 = spec_enc_entries(g.game_entries) + rest;
            let r18 = spec_field_u64(18, g.game_entries.len() as u64) + r19;
            let r17 = fd17 + r18;
            let r16 = fd16 + r17;
            let r15 = fd15 + r16;
            let r14 = fd14 + r15;
            let r13 = fd13 + r14;
            let r12 = fd12 + r13;
            let r11 = fd11 + r12;
            let r10 = fd10 + r11;
            let r9 = fd9 + r10;
            let r8 = fd8 + r9;
            let r7 = fd7 + r8;
            let r6 = fd6 + r7;
            let r5 = fd5 + r6;
            let r4 = fd4 + r5;
            let r3 = fd3 + r4;
            let r2 = fd2 + r3;
            let r1 = fd1 + r2;
            let q1 = fd1;
            let q2 = q1 + fd2;
            let q3 = q2 + fd3;
            let q4 = q3 + fd4;
            let q5 = q4 + fd5;
            let q6 = q5 + fd6;
            let q7 = q6 + fd7;
            let q8 = q7 + fd8;
            let q9 = q8 + fd9;
            let q10 = q9 + fd10;
            let q11 = q10 + fd11;
            let q12 = q11 + fd12;
            let q13 = q12 + fd13;
            let q14 = q13 + fd14;
            let q15 = q14 + fd15;
            let q16 = q15 + fd16;
            let q17 = q16 + fd17;
            let q18 = q17 + spec_field_u64(18, g.game_entries.len() as u64);
            let q19 = q18 + spec_enc_entries(g.game_entries);
            lemma_assoc(q18, spec_enc_entries(g.game_entries), rest);
            lemma_assoc(q17, spec_field_u64(18, g.game_entries.len() as u64), r19);
            lemma_assoc(q16, fd17, r18);
            lemma_assoc(q15, fd16, r17);
            lemma_assoc(q14, fd15, r16);
            lemma_assoc(q13, fd14, r15);
            lemma_assoc(q12, fd13, r14);
            lemma_assoc(q11, fd12, r13);
            lemma_assoc(q10, fd11, r12);
            lemma_assoc(q9, fd10, r11);
            lemma_assoc(q8, fd9, r10);
            lemma_assoc(q7, fd8, r9);
            lemma_assoc(q6, fd7, r8);
            lemma_assoc(q5, fd6, r7);
            lemma_assoc(q4, fd5, r6);
            lemma_assoc(q3, fd4, r5);
            lemma_assoc(q2, fd3, r4);
            lemma_assoc(q1, fd2, r3);
            assert(spec_enc_game(g) + rest == r1);
            assert(bytes@.subrange(pos as int, bytes@.len() as int) == fd1 + r2);
            assert((fd1 + r2).len() == bytes@.len() - pos);
            lemma_take_prefix(bytes@, pos as int, fd1, r2);
            assert(p1 == pos + fd1.len());
            assert(bytes@.subrange(p1 as int, bytes@.len() as int) == fd2 + r3);
            assert((fd2 + r3).len() == bytes@.len() - p1);
            lemma_take_prefix(bytes@, p1 as int, fd2, r3);
            assert(p2 == p1 + fd2.len());
            assert(bytes@.subrange(p2 as int, bytes@.len() as int) == fd3 + r4);
            assert((fd3 + r4).len() == bytes@.len() - p2);
            lemma_take_prefix(bytes@, p2 as int, fd3, r4);
            assert(p3 == p2 + fd3.len());
            assert(bytes@.subrange(p3 as int, bytes@.len() as int) == fd4 + r5);
            assert((fd4 + r5).len() == bytes@.len() - p3);
            lemma_take_prefix(bytes@, p3 as int, fd4, r5);
            assert(p4 == p3 + fd4.len());
            assert(bytes@.subrange(p4 as int, bytes@.len() as int) == fd5 + r6);
            assert((fd5 + r6).len() == bytes@.len() - p4);
            lemma_take_prefix(bytes@, p4 as int, fd5, r6);
            assert(p5 == p4 + fd5.len());
            assert(bytes@.subrange(p5 as int, bytes@.len() as int) == fd6 + r7);
            assert((fd6 + r7).len() == bytes@.len() - p5);
            lemma_take_prefix(bytes@, p5 as int, fd6, r7);
            assert(p6 == p5 + fd6.len());
            assert(bytes@.subrange(p6 as int, bytes@.len() as int) == fd7 + r8);
            assert((fd7 + r8).len() == bytes@.len() - p6);
            lemma_take_prefix(bytes@, p6 as int, fd7, r8);
            assert(p7 == p6 + fd7.len());
            assert(bytes@.subrange(p7 as int, bytes@.len() as int) == fd8 + r9);
            assert((fd8 + r9).len() == bytes@.len() - p7);
            lemma_take_prefix(bytes@, p7 as int, fd8, r9);
            assert(p8 == p7 + fd8.len());
            assert(bytes@.subrange(p8 as int, bytes@.len() as int) == fd9 + r10);
            assert((fd9 + r10).len() == bytes@.len() - p8);
            lemma_take_prefix(bytes@, p8 as int, fd9, r10);
            assert(p9 == p8 + fd9.len());
        }
    }
    GameFront { v1, v2, v3, v4, v5, v6, v7, v8, v9, p9, ok }
}

/// Decodes a whole game from the wire: the proven inverse of
/// `encode_game` for games whose entry count a machine word holds.
#[verifier::rlimit(100)]
pub fn decode_game(bytes: &Vec<u8>) -> (r: Option<ChessGame>)
    ensures
        forall|g: ChessGameSpec|
            g.game_entries.len() <= usize::MAX && bytes@ == #[trigger] spec_enc_game(g) ==> (r
                matches Some(game) && game@ == g),
{
    let n = bytes.len();
    let f = dec_game_front(bytes, 0);
    let (v10, p10, ok10) = dec_field_u64(bytes, f.p9, 10);
    let (v11, p11, ok11) = dec_field_opt_u64(bytes, p10, 11);
    let (v12, p12, ok12) = dec_field_opt_u64(bytes, p11, 12);
    let (v13, p13, ok13) = dec_field_string(bytes, p12, 13);
    let (v14, p14, ok14) = dec_field_string(bytes, p13, 14);
    let (v15, p15, ok15) = dec_field_opt_u64(bytes, p14, 15);
    let (v16, p16, ok16) = dec_field_opt_u64(bytes, p15, 16);
    let (v17, p17, ok17) = dec_field_u64(bytes, p16, 17);
    let (cnt, p18, ok18) = dec_field_u64(bytes, p17, 18);
    let ok = f.ok && ok10 && ok11 && ok12 && ok13 && ok14 && ok15 && ok16 && ok17 && ok18;
    proof {
        assert forall|g: ChessGameSpec, rest: Seq<u8>|
            bytes@.subrange(0, bytes@.len() as int) == #[trigger] (spec_enc_game(g) + rest)
            implies (v10 == f_g_result(g) && v11 == f_g_rw(g) && v12 == f_g_rb(g) && v13@ == f_g_eco(g) && v14@ == f_g_opening(g) && v15 == f_g_tcdur(g) && v16 == f_g_tcinc(g) && v17 == f_g_term(g) && ok && cnt == g.game_entries.len() as u64
            && bytes@.subrange(p18 as int, bytes@.len() as int) == spec_enc_entries(
            g.game_entries,
        ) + rest) by {
            assert(bytes@.len() <= usize::MAX);
            let fd10 = spec_field_u64(10, f_g_result(g));
            let fd11 = spec_field_opt_u64(11, f_g_rw(g));
            let fd12 = spec_field_opt_u64(12, f_g_rb(g));
            let fd13 = spec_field_string(13, f_g_eco(g));
            let fd14 = spec_field_string(14, f_g_opening(g));
            let fd15 = spec_field_opt_u64(15, f_g_tcdur(g));
            let fd16 = spec_field_opt_u64(16, f_g_tcinc(g));
            let fd17 = spec_field_u64(17, f_g_term(g));
            let r19 = spec_enc_entries(g.game_entries) + rest;
            let r18 = spec_field_u64(18, g.game_entries.len() as u64) + r19;
            let r17 = fd17 + r18;
            let r16 = fd16 + r17;
            let r15 = fd15 + r16;
            let r14 = fd14 + r15;
            let r13 = fd13 + r14;
            let r12 = fd12 + r13;
            let r11 = fd11 + r12;
            let r10 = fd10 + r11;
            assert(bytes@.subrange(f.p9 as int, bytes@.len() as int) == r10);
            assert(bytes@.subrange(f.p9 as int, bytes@.len() as int) == fd10 + r11);
            assert((fd10 + r11).len() == bytes@.len() - f.p9);
            lemma_take_prefix(bytes@, f.p9 as int, fd10, r11);
            assert(p10 == f.p9 + fd10.len());
            assert(bytes@.subrange(p10 as int, bytes@.len() as int) == fd11 + r12);
            assert((fd11 + r12).len() == bytes@.len() - p10);
            lemma_take_prefix(bytes@, p10 as int, fd11, r12);
            assert(p11 == p10 + fd11.len());
            assert(bytes@.subrange(p11 as int, bytes@.len() as int) == fd12 + r13);
            assert((fd12 + r13).len() == bytes@.len() - p11);
            lemma_take_prefix(bytes@, p11 as int, fd12, r13);
            assert(p12 == p11 + fd12.len());
            assert(bytes@.subrange(p12 as int, bytes@.len() as int) == fd13 + r14);
            assert((fd13 + r14).len() == bytes@.len() - p12);
            lemma_take_prefix(bytes@, p12 as int, fd13, r14);
            assert(p13 == p12 + fd13.len());
            assert(bytes@.subrange(p13 as int, bytes@.len() as int) == fd14 + r15);
            assert((fd14 + r15).len() == bytes@.len() - p13);
            lemma_take_prefix(bytes@, p13 as int, fd14, r15);
            assert(p14 == p13 + fd14.len());
            assert(bytes@.subrange(p14 as int, bytes@.len() as int) == fd15 + r16);
            assert((fd15 + r16).len() == bytes@.len() - p14);
            lemma_take_prefix(bytes@, p14 as int, fd15, r16);
            assert(p15 == p14 + fd15.len());
            assert(bytes@.subrange(p15 as int, bytes@.len() as int) == fd16 + r17);
            assert((fd16 + r17).len() == bytes@.len() - p15);
            lemma_take_prefix(bytes@, p15 as int, fd16, r17);
            assert(p16 == p15 + fd16.len());
            assert(bytes@.subrange(p16 as int, bytes@.len() as int) == fd17 + r18);
            assert((fd17 + r18).len() == bytes@.len() - p16);
            lemma_take_prefix(bytes@, p16 as int, fd17, r18);
            assert(p17 == p16 + fd17.len());
            assert(bytes@.subrange(p17 as int, bytes@.len() as int) == spec_field_u64(
                18,
                g.game_entries.len() as u64,
            ) + r19);
            assert((spec_field_u64(18, g.game_entries.len() as u64) + r19).len() == bytes@.len()
                - p17);
            lemma_take_prefix(
                bytes@,
                p17 as int,
                spec_field_u64(18, g.game_entries.len() as u64),
                r19,
            );
            assert(p18 == p17 + spec_field_u64(18, g.game_entries.len() as u64).len());
        }
    }
    if !ok {
        proof {
            assert forall|g: ChessGameSpec|
                g.game_entries.len() <= usize::MAX && bytes@ == #[trigger] spec_enc_game(g)
                implies false by {
                assert(bytes@.subrange(0, bytes@.len() as int) =~= bytes@);
                assert(bytes@ == spec_enc_game(g) + Seq::<u8>::empty()) by {
                    assert(spec_enc_game(g) + Seq::<u8>::empty() =~= spec_enc_game(g));
                }
            }
        }
        return None;
    }
    if cnt > usize::MAX as u64 {
        proof {
            assert forall|g: ChessGameSpec|
                g.game_entries.len() <= usize::MAX && bytes@ == #[trigger] spec_enc_game(g)
                implies false by {
                assert(bytes@.subrange(0, bytes@.len() as int) =~= bytes@);
                assert(bytes@ == spec_enc_game(g) + Seq::<u8>::empty()) by {
                    assert(spec_enc_game(g) + Seq::<u8>::empty() =~= spec_enc_game(g));
                }
            }
        }
        return None;
    }
    let (entries, p19, ok19) = dec_entries(bytes, p18, cnt as usize);
    if !ok19 {
        proof {
            assert forall|g: ChessGameSpec|
                g.game_entries.len() <= usize::MAX && bytes@ == #[trigger] spec_enc_game(g)
                implies false by {
                assert(bytes@.subrange(0, bytes@.len() as int) =~= bytes@);
                assert(bytes@ == spec_enc_game(g) + Seq::<u8>::empty()) by {
                    assert(spec_enc_game(g) + Seq::<u8>::empty() =~= spec_enc_game(g));
                }
            }
        }
        return None;
    }
    match assemble_game(
        f.v1,
        f.v2,
        f.v3,
        f.v4,
        f.v5,
        f.v6,
        f.v7,
        f.v8,
        f.v9,
        v10,
        v11,
        v12,
        v13,
        v14,
        v15,
        v16,
        v17,
        entries,
    ) {
        Some(game) => {
            proof {
                assert forall|g: ChessGameSpec|
                    g.game_entries.len() <= usize::MAX && bytes@ == #[trigger] spec_enc_game(g)
                    implies game@ == g by {
                    assert(bytes@.subrange(0, bytes@.len() as int) =~= bytes@);
                    assert(bytes@ == spec_enc_game(g) + Seq::<u8>::empty()) by {
                        assert(spec_enc_game(g) + Seq::<u8>::empty() =~= spec_enc_game(g));
                    }
                }
            }
            Some(game)
        },
        None => {
            proof {
                assert forall|g: ChessGameSpec|
                    g.game_entries.len() <= usize::MAX && bytes@ == #[trigger] spec_enc_game(g)
                    implies false by {
                    assert(bytes@.subrange(0, bytes@.len() as int) =~= bytes@);
                    assert(bytes@ == spec_enc_game(g) + Seq::<u8>::empty()) by {
                        assert(spec_enc_game(g) + Seq::<u8>::empty() =~= spec_enc_game(g));
                    }
                }
            }
            None
        },
    }
}

/// Wire form of a raw game record: its two text blocks.
pub open spec fn spec_enc_raw_game(raw: RawChessGameSpec) -> Seq<u8> {
    spec_field_string(1, raw.metadata) + spec_field_string(2, raw.moves)
}

/// Encodes a raw game for the wire.
pub fn encode_raw_game(raw: &RawChessGame) -> (r: Vec<u8>)
    ensures
        r@ == spec_enc_raw_game(raw@),
{
    let mut out: Vec<u8> = Vec::new();
    enc_field_string(&mut out, 1, raw.metadata.as_str());
    enc_field_string(&mut out, 2, raw.moves.as_str());
    proof {
        assert(out@ =~= spec_enc_raw_game(raw@));
    }
    out
}

/// Decodes a raw game from the wire: the proven inverse of
/// `encode_raw_game`.
pub fn decode_raw_game(bytes: &Vec<u8>) -> (r: Option<RawChessGame>)
    ensures
        forall|raw: RawChessGameSpec|
            bytes@ == #[trigger] spec_enc_raw_game(raw) ==> (r matches Some(g) && g@ == raw),
{
    let n = bytes.len();
    let (metadata, p1, ok1) = dec_field_string(bytes, 0, 1);
    let (moves, p2, ok2) = dec_field_string(bytes, p1, 2);
    proof {
        assert forall|raw: RawChessGameSpec|
            bytes@ == #[trigger] spec_enc_raw_game(raw) implies (ok1 && ok2 && metadata@
            == raw.metadata && moves@ == raw.moves) by {
            assert(bytes@.len() <= usize::MAX);
            let fd1 = spec_field_string(1, raw.metadata);
            let fd2 = spec_field_string(2, raw.moves);
            assert(bytes@ == fd1 + fd2);
            assert(bytes@.subrange(0, bytes@.len() as int) =~= bytes@);
            lemma_assoc(fd1, fd2, Seq::<u8>::empty());
            assert(fd2 + Seq::<u8>::empty() =~= fd2);
            assert(bytes@.subrange(0, bytes@.len() as int) == fd1 + fd2);
            lemma_take_prefix(bytes@, 0, fd1, fd2);
            assert(p1 == fd1.len());
            assert(bytes@.subrange(p1 as int, bytes@.len() as int) == fd2);
            assert(fd2 =~= fd2 + Seq::<u8>::empty());
        }
    }
    if !(ok1 && ok2) {
        return None;
    }
    Some(RawChessGame { metadata, moves })
}

} // verus!
