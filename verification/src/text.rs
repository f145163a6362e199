//! Small text utilities shared by the PGN reader, the record encoders and
//! the entity projections: decimal parsing and formatting with exact
//! contracts, and character-level string primitives.

use vstd::prelude::*;
use vstd::string::*;

verus! {

/// True for the ten ASCII decimal digits.
pub open spec fn is_digit(c: char) -> bool {
    '0' <= c <= '9'
}

/// Numeric value of a decimal digit.
pub open spec fn digit_val(c: char) -> nat
    recommends
        is_digit(c),
{
    (c as nat - '0' as nat) as nat
}

/// True when every character of `s` is a decimal digit.
pub open spec fn all_digits(s: Seq<char>) -> bool {
    forall|i: int| 0 <= i < s.len() ==> is_digit(#[trigger] s[i])
}

/// Value of `s` read as a big-endian decimal numeral.
pub open spec fn dec_val(s: Seq<char>) -> nat
    decreases s.len(),
{
    if s.len() == 0 {
        0
    } else {
        dec_val(s.drop_last()) * 10 + digit_val(s.last())
    }
}

/// A prefix of a numeral never exceeds the numeral's value.
pub proof fn lemma_dec_val_prefix_le(s: Seq<char>, i: int)
    requires
        0 <= i <= s.len(),
    ensures
        dec_val(s.subrange(0, i)) <= dec_val(s),
    decreases s.len() - i,
{
    if i == s.len() {
        assert(s.subrange(0, i) =~= s);
    } else {
        lemma_dec_val_prefix_le(s, i + 1);
        let t = s.subrange(0, i + 1);
        assert(t.drop_last() =~= s.subrange(0, i));
        assert(dec_val(s.subrange(0, i)) <= dec_val(t));
    }
}

/// Ten to the `n`.
pub open spec fn pow10(n: nat) -> nat
    decreases n,
{
    if n == 0 {
        1
    } else {
        10 * pow10((n - 1) as nat)
    }
}

/// A numeral of `n` digits stays below ten to the `n`.
pub proof fn lemma_dec_val_upper(s: Seq<char>)
    requires
        all_digits(s),
    ensures
        dec_val(s) < pow10(s.len()),
    decreases s.len(),
{
    if s.len() == 0 {
    } else {
        assert(all_digits(s.drop_last()));
        lemma_dec_val_upper(s.drop_last());
        assert(digit_val(s.last()) <= 9) by {
            assert(is_digit(s.last()));
        }
    }
}

/// Decimal numeral of `n`, without sign and without leading zeros
/// (`0` is written as the single digit `0`).
pub open spec fn dec_str(n: nat) -> Seq<char>
    decreases n,
{
    if n < 10 {
        seq![digit_char(n)]
    } else {
        dec_str(n / 10).push(digit_char(n % 10))
    }
}

/// Digit character for a value below ten.
pub open spec fn digit_char(n: nat) -> char
    recommends
        n < 10,
{
    if n == 0 {
        '0'
    } else if n == 1 {
        '1'
    } else if n == 2 {
        '2'
    } else if n == 3 {
        '3'
    } else if n == 4 {
        '4'
    } else if n == 5 {
        '5'
    } else if n == 6 {
        '6'
    } else if n == 7 {
        '7'
    } else if n == 8 {
        '8'
    } else {
        '9'
    }
}

/// One-character string literal for a digit value.
fn digit_literal(d: u64) -> (r: &'static str)
    requires
        d < 10,
    ensures
        r@ =~= seq![digit_char(d as nat)],
{
    proof {
        reveal_strlit("0");
        reveal_strlit("1");
        reveal_strlit("2");
        reveal_strlit("3");
        reveal_strlit("4");
        reveal_strlit("5");
        reveal_strlit("6");
        reveal_strlit("7");
        reveal_strlit("8");
        reveal_strlit("9");
    }
    if d == 0 {
        "0"
    } else if d == 1 {
        "1"
    } else if d == 2 {
        "2"
    } else if d == 3 {
        "3"
    } else if d == 4 {
        "4"
    } else if d == 5 {
        "5"
    } else if d == 6 {
        "6"
    } else if d == 7 {
        "7"
    } else if d == 8 {
        "8"
    } else {
        "9"
    }
}

/// Appends the decimal numeral of `n` to `out`.
pub fn push_dec_u64(out: &mut String, n: u64)
    ensures
        final(out)@ == old(out)@ + dec_str(n as nat),
    decreases n,
{
    if n < 10 {
        let d = digit_literal(n);
        out.append(d);
    } else {
        push_dec_u64(out, n / 10);
        let d = digit_literal(n % 10);
        out.append(d);
        proof {
            assert(final(out)@ =~= old(out)@ + dec_str(n as nat));
        }
    }
}

/// Decimal numeral of `n` as a fresh string.
pub fn u64_to_string(n: u64) -> (r: String)
    ensures
        r@ == dec_str(n as nat),
{
    let mut s = String::new();
    push_dec_u64(&mut s, n);
    proof {
        assert(s@ =~= dec_str(n as nat));
    }
    s
}

/// Numeral of `n` padded on the left with zeros to at least `width`
/// characters.
pub open spec fn dec_str_pad(n: nat, width: nat) -> Seq<char> {
    if dec_str(n).len() >= width {
        dec_str(n)
    } else {
        Seq::new((width - dec_str(n).len()) as nat, |i: int| '0') + dec_str(n)
    }
}

/// Appends the numeral of `n`, zero-padded to `width` characters.
pub fn push_dec_u64_pad(out: &mut String, n: u64, width: usize)
    ensures
        final(out)@ == old(out)@ + dec_str_pad(n as nat, width as nat),
{
    let digits = u64_to_string(n);
    let len = digits.as_str().unicode_len();
    if len >= width {
        out.append(digits.as_str());
        proof {
            assert(final(out)@ =~= old(out)@ + dec_str_pad(n as nat, width as nat));
        }
    } else {
        let pad = width - len;
        let mut k: usize = 0;
        while k < pad
            invariant
                k <= pad,
                out@ == old(out)@ + Seq::new(k as nat, |i: int| '0'),
        decreases pad - k,
        {
            proof {
                reveal_strlit("0");
            }
            out.append("0");
            k = k + 1;
            proof {
                assert(out@ =~= old(out)@ + Seq::new(k as nat, |i: int| '0'));
            }
        }
        out.append(digits.as_str());
        proof {
            assert(final(out)@ =~= old(out)@ + dec_str_pad(n as nat, width as nat));
        }
    }
}

/// Characters of `s` as a vector, for random access while scanning.
pub fn chars_of(s: &str) -> (r: Vec<char>)
    ensures
        r@ == s@,
{
    let len = s.unicode_len();
    let mut r: Vec<char> = Vec::new();
    let mut i: usize = 0;
    while i < len
        invariant
            i <= len,
            len == s@.len(),
            r@ == s@.subrange(0, i as int),
        decreases len - i,
    {
        let c = s.get_char(i);
        r.push(c);
        i = i + 1;
        proof {
            assert(r@ =~= s@.subrange(0, i as int));
        }
    }
    proof {
        assert(r@ =~= s@);
    }
    r
}

/// Character-wise equality of two string slices.
pub fn str_eq(a: &str, b: &str) -> (r: bool)
    ensures
        r == (a@ == b@),
{
    let alen = a.unicode_len();
    let blen = b.unicode_len();
    if alen != blen {
        proof {
            assert(a@ != b@);
        }
        return false;
    }
    let mut i: usize = 0;
    while i < alen
        invariant
            i <= alen,
            alen == a@.len() == b@.len(),
            forall|j: int| 0 <= j < i ==> a@[j] == b@[j],
        decreases alen - i,
    {
        if a.get_char(i) != b.get_char(i) {
            return false;
        }
        i = i + 1;
    }
    proof {
        assert(a@ =~= b@);
    }
    true
}

/// Parses `s[from..to]` as a bare run of decimal digits: some value
/// exactly when the range is non-empty, all digits, and the value fits in
/// a `u64`.
pub fn parse_digits_range(s: &Vec<char>, from: usize, to: usize) -> (r: Option<u64>)
    requires
        from <= to <= s@.len(),
    ensures
        ({
            let digits = s@.subrange(from as int, to as int);
            &&& r matches Some(v) ==> digits.len() > 0 && all_digits(digits) && v == dec_val(
                digits,
            )
            &&& (digits.len() > 0 && all_digits(digits) && dec_val(digits) <= u64::MAX) ==> (r
                matches Some(v) && v == dec_val(digits))
        }),
{
    let ghost digits = s@.subrange(from as int, to as int);
    if from == to {
        return None;
    }
    let mut acc: u64 = 0;
    let mut i: usize = from;
    while i < to
        invariant
            from <= i <= to <= s@.len(),
            digits == s@.subrange(from as int, to as int),
            all_digits(s@.subrange(from as int, i as int)),
            acc == dec_val(s@.subrange(from as int, i as int)),
        decreases to - i,
    {
        let c = s[i];
        if c < '0' || c > '9' {
            proof {
                assert(!all_digits(digits)) by {
                    assert(digits[i - from] == c);
                    assert(!is_digit(c));
                }
            }
            return None;
        }
        let d: u64 = (c as u32 as u64) - 48;
        let ghost prefix = s@.subrange(from as int, i as int);
        let ghost ext = s@.subrange(from as int, i as int + 1);
        proof {
            assert(ext.drop_last() =~= prefix);
            assert(ext.last() == c);
            assert(digit_val(c) == d);
        }
        if acc > (u64::MAX - d) / 10 {
            proof {
                assert(acc * 10 + d > u64::MAX) by {
                    assert(acc >= (u64::MAX - d) / 10 + 1);
                    assert(acc * 10 >= ((u64::MAX - d) / 10 + 1) * 10) by (nonlinear_arith)
                        requires
                            acc >= (u64::MAX - d) / 10 + 1,
                    ;
                }
                assert(dec_val(ext) == acc * 10 + d);
                lemma_dec_val_prefix_le(digits, i + 1 - from);
                assert(digits.subrange(0, i + 1 - from) =~= ext);
                assert(dec_val(digits) >= dec_val(ext));
            }
            return None;
        }
        acc = acc * 10 + d;
        i = i + 1;
    }
    proof {
        assert(s@.subrange(from as int, i as int) =~= digits);
    }
    Some(acc)
}

/// Parses `s[from..to]` as `u64::from_str` would: an optional leading `+`
/// followed by at least one digit.
pub fn parse_u64_range(s: &Vec<char>, from: usize, to: usize) -> (r: Option<u64>)
    requires
        from <= to <= s@.len(),
    ensures
        ({
            let digits = if from < to && s@[from as int] == '+' {
                s@.subrange(from as int + 1, to as int)
            } else {
                s@.subrange(from as int, to as int)
            };
            &&& r matches Some(v) ==> digits.len() > 0 && all_digits(digits) && v == dec_val(
                digits,
            )
            &&& (digits.len() > 0 && all_digits(digits) && dec_val(digits) <= u64::MAX) ==> (r
                matches Some(v) && v == dec_val(digits))
        }),
{
    if from < to && s[from] == '+' {
        parse_digits_range(s, from + 1, to)
    } else {
        parse_digits_range(s, from, to)
    }
}

/// Value of `s` as `u32::from_str` reads it: an optional leading `+`,
/// then at least one digit, the value fitting in a `u32`.
pub open spec fn spec_parse_u32(s: Seq<char>) -> Option<u32> {
    let d = if s.len() > 0 && s[0] == '+' {
        s.drop_first()
    } else {
        s
    };
    if d.len() > 0 && all_digits(d) && dec_val(d) <= u32::MAX {
        Some(dec_val(d) as u32)
    } else {
        None
    }
}

/// Parses a whole string as a `u32` numeral.
pub fn parse_u32_str(s: &str) -> (r: Option<u32>)
    ensures
        r == spec_parse_u32(s@),
{
    let cs = chars_of(s);
    let n = cs.len();
    proof {
        if s@.len() > 0 && s@[0] == '+' {
            assert(s@.subrange(1, s@.len() as int) =~= s@.drop_first());
        } else {
            assert(s@.subrange(0, s@.len() as int) =~= s@);
        }
    }
    match parse_u64_range(&cs, 0, n) {
        Some(v) => {
            if v <= u32::MAX as u64 {
                Some(v as u32)
            } else {
                None
            }
        },
        None => None,
    }
}

/// Value of `s` as `i32::from_str` reads it: an optional sign, then at
/// least one digit, the value fitting in an `i32`.
pub open spec fn spec_parse_i32(s: Seq<char>) -> Option<i32> {
    if is_signed_numeral(s) && i32::MIN <= signed_val(s) <= i32::MAX {
        Some(signed_val(s) as i32)
    } else {
        None
    }
}

/// Parses a whole string as an `i32` numeral.
pub fn parse_i32_str(s: &str) -> (r: Option<i32>)
    ensures
        r == spec_parse_i32(s@),
{
    let cs = chars_of(s);
    let n = cs.len();
    proof {
        assert(s@.subrange(0, s@.len() as int) =~= s@);
    }
    match parse_i64_range(&cs, 0, n) {
        Some(v) => {
            if i32::MIN as i64 <= v && v <= i32::MAX as i64 {
                Some(v as i32)
            } else {
                None
            }
        },
        None => None,
    }
}

/// Index of the first occurrence of `c` in `s`, or `s.len()` when `c`
/// does not occur.
pub open spec fn find_idx(s: Seq<char>, c: char) -> int
    decreases s.len(),
{
    if s.len() == 0 {
        0
    } else if s[0] == c {
        0
    } else {
        1 + find_idx(s.drop_first(), c)
    }
}

/// What `find_idx` returns: the first position of `c`, or the length.
pub broadcast proof fn lemma_find_idx(s: Seq<char>, c: char)
    ensures
        0 <= #[trigger] find_idx(s, c) <= s.len(),
        find_idx(s, c) < s.len() ==> s[find_idx(s, c)] == c,
        forall|j: int| 0 <= j < find_idx(s, c) ==> s[j] != c,
    decreases s.len(),
{
    if s.len() == 0 {
    } else if s[0] == c {
    } else {
        lemma_find_idx(s.drop_first(), c);
        assert forall|j: int| 0 <= j < find_idx(s, c) implies s[j] != c by {
            if j > 0 {
                assert(s.drop_first()[j - 1] == s[j]);
            }
        }
    }
}

/// A position with `c` after only non-`c` characters is `find_idx`.
pub proof fn lemma_find_idx_is(s: Seq<char>, c: char, i: int)
    requires
        0 <= i <= s.len(),
        i < s.len() ==> s[i] == c,
        i == s.len() ==> (forall|j: int| 0 <= j < s.len() ==> s[j] != c),
        forall|j: int| 0 <= j < i ==> s[j] != c,
    ensures
        find_idx(s, c) == i,
{
    lemma_find_idx(s, c);
    let f = find_idx(s, c);
    if f < i {
        assert(s[f] != c);
    }
    if i < f {
        assert(s[i] != c);
    }
}

/// Finds the first occurrence of `c` in `s` at or after `from`, as the
/// offset within `s[from..]` of `find_idx` of that suffix.
pub fn find_char_from(s: &Vec<char>, c: char, from: usize) -> (r: usize)
    requires
        from <= s@.len(),
    ensures
        r == from + find_idx(s@.subrange(from as int, s@.len() as int), c),
        from <= r <= s@.len(),
        r < s@.len() ==> s@[r as int] == c,
        forall|j: int| from <= j < r ==> s@[j] != c,
{
    let ghost tail = s@.subrange(from as int, s@.len() as int);
    let n = s.len();
    let mut i = from;
    while i < n
        invariant
            from <= i <= n == s@.len(),
            tail == s@.subrange(from as int, s@.len() as int),
            forall|j: int| from <= j < i ==> s@[j] != c,
        decreases n - i,
    {
        if s[i] == c {
            proof {
                assert(tail[i - from] == c);
                assert forall|j: int| 0 <= j < i - from implies tail[j] != c by {
                    assert(tail[j] == s@[from + j]);
                }
                lemma_find_idx_is(tail, c, i - from);
            }
            return i;
        }
        i = i + 1;
    }
    proof {
        assert forall|j: int| 0 <= j < tail.len() implies tail[j] != c by {
            assert(tail[j] == s@[from + j]);
        }
        lemma_find_idx_is(tail, c, tail.len() as int);
    }
    n
}

/// Finds the first occurrence of `c` in `s[from..to]`, by the offset of
/// `find_idx` of that range.
pub fn find_char_in(s: &Vec<char>, c: char, from: usize, to: usize) -> (r: usize)
    requires
        from <= to <= s@.len(),
    ensures
        r == from + find_idx(s@.subrange(from as int, to as int), c),
        from <= r <= to,
        r < to ==> s@[r as int] == c,
        forall|j: int| from <= j < r ==> s@[j] != c,
{
    let ghost part = s@.subrange(from as int, to as int);
    let mut i = from;
    while i < to
        invariant
            from <= i <= to <= s@.len(),
            part == s@.subrange(from as int, to as int),
            forall|j: int| from <= j < i ==> s@[j] != c,
        decreases to - i,
    {
        if s[i] == c {
            proof {
                assert(part[i - from] == c);
                assert forall|j: int| 0 <= j < i - from implies part[j] != c by {
                    assert(part[j] == s@[from + j]);
                }
                lemma_find_idx_is(part, c, i - from);
            }
            return i;
        }
        i = i + 1;
    }
    proof {
        assert forall|j: int| 0 <= j < part.len() implies part[j] != c by {
            assert(part[j] == s@[from + j]);
        }
        lemma_find_idx_is(part, c, part.len() as int);
    }
    to
}

/// The characters that separate move-text tokens.
pub open spec fn is_ws(c: char) -> bool {
    c == ' ' || c == '\n' || c == '\t' || c == '\r'
}

/// Index of the first whitespace character of `s`, or `s.len()`.
pub open spec fn find_ws_idx(s: Seq<char>) -> int
    decreases s.len(),
{
    if s.len() == 0 {
        0
    } else if is_ws(s[0]) {
        0
    } else {
        1 + find_ws_idx(s.drop_first())
    }
}

/// What `find_ws_idx` returns: the first whitespace position, or the
/// length.
pub broadcast proof fn lemma_find_ws_idx(s: Seq<char>)
    ensures
        0 <= #[trigger] find_ws_idx(s) <= s.len(),
        find_ws_idx(s) < s.len() ==> is_ws(s[find_ws_idx(s)]),
        forall|j: int| 0 <= j < find_ws_idx(s) ==> !is_ws(s[j]),
    decreases s.len(),
{
    if s.len() == 0 {
    } else if is_ws(s[0]) {
    } else {
        lemma_find_ws_idx(s.drop_first());
        assert forall|j: int| 0 <= j < find_ws_idx(s) implies !is_ws(s[j]) by {
            if j > 0 {
                assert(s.drop_first()[j - 1] == s[j]);
            }
        }
    }
}

/// A whitespace position after only non-whitespace is `find_ws_idx`.
pub proof fn lemma_find_ws_idx_is(s: Seq<char>, i: int)
    requires
        0 <= i <= s.len(),
        i < s.len() ==> is_ws(s[i]),
        i == s.len() ==> (forall|j: int| 0 <= j < s.len() ==> !is_ws(s[j])),
        forall|j: int| 0 <= j < i ==> !is_ws(s[j]),
    ensures
        find_ws_idx(s) == i,
{
    lemma_find_ws_idx(s);
    let f = find_ws_idx(s);
    if f < i {
        assert(!is_ws(s[f]));
    }
    if i < f {
        assert(!is_ws(s[i]));
    }
}

/// Carries what `find_char_from` found at `e` over to the suffix that
/// starts at `i`.
pub proof fn lemma_find_idx_from(s: Seq<char>, c: char, i: int, e: int)
    requires
        0 <= i <= e <= s.len(),
        e < s.len() ==> s[e] == c,
        e == s.len() ==> (forall|j: int| i <= j < s.len() ==> s[j] != c),
        forall|j: int| i <= j < e ==> s[j] != c,
    ensures
        find_idx(s.subrange(i, s.len() as int), c) == e - i,
{
    let tail = s.subrange(i, s.len() as int);
    if e < s.len() {
        assert(tail[e - i] == c);
        assert forall|j: int| 0 <= j < e - i implies tail[j] != c by {
            assert(tail[j] == s[i + j]);
        }
        lemma_find_idx_is(tail, c, e - i);
    } else {
        assert forall|j: int| 0 <= j < tail.len() implies tail[j] != c by {
            assert(tail[j] == s[i + j]);
        }
        lemma_find_idx_is(tail, c, tail.len() as int);
    }
}

/// Carries what `find_ws_from` found at `e` over to the suffix that
/// starts at `i`.
pub proof fn lemma_find_ws_idx_from(s: Seq<char>, i: int, e: int)
    requires
        0 <= i <= e <= s.len(),
        e < s.len() ==> is_ws(s[e]),
        e == s.len() ==> (forall|j: int| i <= j < s.len() ==> !is_ws(s[j])),
        forall|j: int| i <= j < e ==> !is_ws(s[j]),
    ensures
        find_ws_idx(s.subrange(i, s.len() as int)) == e - i,
{
    let tail = s.subrange(i, s.len() as int);
    if e < s.len() {
        assert(is_ws(tail[e - i]));
        assert forall|j: int| 0 <= j < e - i implies !is_ws(tail[j]) by {
            assert(tail[j] == s[i + j]);
        }
        lemma_find_ws_idx_is(tail, e - i);
    } else {
        assert forall|j: int| 0 <= j < tail.len() implies !is_ws(tail[j]) by {
            assert(tail[j] == s[i + j]);
        }
        lemma_find_ws_idx_is(tail, tail.len() as int);
    }
}

/// Whitespace test, executable form.
pub fn is_ws_exec(c: char) -> (r: bool)
    ensures
        r == is_ws(c),
{
    c == ' ' || c == '\n' || c == '\t' || c == '\r'
}

/// Finds the first whitespace character of `s` at or after `from`.
pub fn find_ws_from(s: &Vec<char>, from: usize) -> (r: usize)
    requires
        from <= s@.len(),
    ensures
        r == from + find_ws_idx(s@.subrange(from as int, s@.len() as int)),
        from <= r <= s@.len(),
        r < s@.len() ==> is_ws(s@[r as int]),
        forall|j: int| from <= j < r ==> !is_ws(s@[j]),
{
    let ghost tail = s@.subrange(from as int, s@.len() as int);
    let n = s.len();
    let mut i = from;
    while i < n
        invariant
            from <= i <= n == s@.len(),
            tail == s@.subrange(from as int, s@.len() as int),
            forall|j: int| from <= j < i ==> !is_ws(s@[j]),
        decreases n - i,
    {
        if is_ws_exec(s[i]) {
            proof {
                assert(is_ws(tail[i - from]));
                assert forall|j: int| 0 <= j < i - from implies !is_ws(tail[j]) by {
                    assert(tail[j] == s@[from + j]);
                }
                lemma_find_ws_idx_is(tail, i - from);
            }
            return i;
        }
        i = i + 1;
    }
    proof {
        assert forall|j: int| 0 <= j < tail.len() implies !is_ws(tail[j]) by {
            assert(tail[j] == s@[from + j]);
        }
        lemma_find_ws_idx_is(tail, tail.len() as int);
    }
    n
}

/// True when `s[from..to]` holds decimal digits only.
pub fn digits_only(s: &Vec<char>, from: usize, to: usize) -> (r: bool)
    requires
        from <= to <= s@.len(),
    ensures
        r == all_digits(s@.subrange(from as int, to as int)),
{
    let ghost part = s@.subrange(from as int, to as int);
    let mut i = from;
    while i < to
        invariant
            from <= i <= to <= s@.len(),
            part == s@.subrange(from as int, to as int),
            forall|j: int| 0 <= j < i - from ==> is_digit(part[j]),
        decreases to - i,
    {
        let c = s[i];
        if c < '0' || c > '9' {
            proof {
                assert(part[i - from] == c);
            }
            return false;
        }
        proof {
            assert(part[i - from] == c);
        }
        i = i + 1;
    }
    true
}

/// Index of the first blank-line separator (`\n\n`) of `s`, or `s.len()`
/// when there is none.
pub open spec fn find_sep(s: Seq<char>) -> int
    decreases s.len(),
{
    if s.len() == 0 {
        0
    } else if s.len() >= 2 && s[0] == '\n' && s[1] == '\n' {
        0
    } else {
        1 + find_sep(s.drop_first())
    }
}

/// What `find_sep` returns: the first separator position, or the length.
pub broadcast proof fn lemma_find_sep(s: Seq<char>)
    ensures
        0 <= #[trigger] find_sep(s) <= s.len(),
        find_sep(s) < s.len() ==> find_sep(s) + 1 < s.len() && s[find_sep(s)] == '\n' && s[find_sep(
            s,
        ) + 1] == '\n',
        forall|j: int|
            0 <= j < find_sep(s) && j + 1 < s.len() ==> !(#[trigger] s[j] == '\n' && s[j + 1]
                == '\n'),
    decreases s.len(),
{
    if s.len() == 0 {
    } else if s.len() >= 2 && s[0] == '\n' && s[1] == '\n' {
    } else {
        lemma_find_sep(s.drop_first());
        assert forall|j: int|
            0 <= j < find_sep(s) && j + 1 < s.len() implies !(#[trigger] s[j] == '\n' && s[j + 1]
            == '\n') by {
            if j > 0 {
                assert(s.drop_first()[j - 1] == s[j]);
                assert(s.drop_first()[j] == s[j + 1]);
            }
        }
    }
}

/// A separator position after only non-separator positions is `find_sep`.
pub proof fn lemma_find_sep_is(s: Seq<char>, i: int)
    requires
        0 <= i <= s.len(),
        i < s.len() ==> i + 1 < s.len() && s[i] == '\n' && s[i + 1] == '\n',
        i == s.len() ==> (forall|j: int|
            0 <= j && j + 1 < s.len() ==> !(#[trigger] s[j] == '\n' && s[j + 1] == '\n')),
        forall|j: int|
            0 <= j < i && j + 1 < s.len() ==> !(#[trigger] s[j] == '\n' && s[j + 1] == '\n'),
    ensures
        find_sep(s) == i,
{
    broadcast use lemma_find_sep;

    let f = find_sep(s);
    if f < i {
        assert(!(s[f] == '\n' && s[f + 1] == '\n'));
    }
    if i < f {
        assert(!(s[i] == '\n' && s[i + 1] == '\n'));
    }
}

/// Finds the first blank-line separator of `s` at or after `from`.
pub fn find_sep_from(s: &Vec<char>, from: usize) -> (r: usize)
    requires
        from <= s@.len(),
    ensures
        r == from + find_sep(s@.subrange(from as int, s@.len() as int)),
        from <= r <= s@.len(),
        r < s@.len() ==> r + 1 < s@.len() && s@[r as int] == '\n' && s@[r as int + 1] == '\n',
{
    let ghost tail = s@.subrange(from as int, s@.len() as int);
    let n = s.len();
    let mut i = from;
    while i < n
        invariant
            from <= i <= n == s@.len(),
            tail == s@.subrange(from as int, s@.len() as int),
            forall|j: int|
                from <= j < i && j + 1 < s@.len() ==> !(#[trigger] s@[j] == '\n' && s@[j + 1]
                    == '\n'),
        decreases n - i,
    {
        if i + 1 < n && s[i] == '\n' && s[i + 1] == '\n' {
            proof {
                assert(tail[i - from] == '\n' && tail[i - from + 1] == '\n');
                assert forall|j: int|
                    0 <= j < i - from && j + 1 < tail.len() implies !(#[trigger] tail[j] == '\n'
                    && tail[j + 1] == '\n') by {
                    assert(tail[j] == s@[from + j] && tail[j + 1] == s@[from + j + 1]);
                }
                lemma_find_sep_is(tail, i - from);
            }
            return i;
        }
        i = i + 1;
    }
    proof {
        assert forall|j: int|
            0 <= j && j + 1 < tail.len() implies !(#[trigger] tail[j] == '\n' && tail[j + 1]
            == '\n') by {
            assert(tail[j] == s@[from + j] && tail[j + 1] == s@[from + j + 1]);
        }
        lemma_find_sep_is(tail, tail.len() as int);
    }
    n
}

/// Signed integer value of a numeral with an optional `+` or `-` sign.
pub open spec fn signed_val(s: Seq<char>) -> int {
    if s.len() > 0 && s[0] == '-' {
        -(dec_val(s.subrange(1, s.len() as int)) as int)
    } else if s.len() > 0 && s[0] == '+' {
        dec_val(s.subrange(1, s.len() as int)) as int
    } else {
        dec_val(s) as int
    }
}

/// True when `s` is a well-formed signed numeral: an optional sign
/// followed by at least one digit, all digits.
pub open spec fn is_signed_numeral(s: Seq<char>) -> bool {
    if s.len() > 0 && (s[0] == '-' || s[0] == '+') {
        s.len() > 1 && all_digits(s.subrange(1, s.len() as int))
    } else {
        s.len() > 0 && all_digits(s)
    }
}

/// Parses `s[from..to]` as `i64::from_str` would: some value exactly when
/// the range is a signed numeral whose value fits in an `i64`.
pub fn parse_i64_range(s: &Vec<char>, from: usize, to: usize) -> (r: Option<i64>)
    requires
        from <= to <= s@.len(),
    ensures
        ({
            let whole = s@.subrange(from as int, to as int);
            &&& r matches Some(v) ==> is_signed_numeral(whole) && v == signed_val(whole)
                && i64::MIN <= signed_val(whole) <= i64::MAX
            &&& (is_signed_numeral(whole) && i64::MIN <= signed_val(whole) <= i64::MAX) ==> (r
                matches Some(v) && v == signed_val(whole))
        }),
{
    let ghost whole = s@.subrange(from as int, to as int);
    if from < to && (s[from] == '-' || s[from] == '+') {
        let neg = s[from] == '-';
        let ghost digits = s@.subrange(from as int + 1, to as int);
        proof {
            assert(whole[0] == s@[from as int]);
            assert(whole.subrange(1, whole.len() as int) =~= digits);
        }
        match parse_digits_range(s, from + 1, to) {
            Some(m) => {
                if neg {
                    if m < 9223372036854775808u64 {
                        Some(-(m as i64))
                    } else if m == 9223372036854775808u64 {
                        Some(i64::MIN)
                    } else {
                        None
                    }
                } else {
                    if m <= i64::MAX as u64 {
                        Some(m as i64)
                    } else {
                        None
                    }
                }
            },
            None => None,
        }
    } else {
        match parse_digits_range(s, from, to) {
            Some(m) => {
                if m <= i64::MAX as u64 {
                    Some(m as i64)
                } else {
                    None
                }
            },
            None => None,
        }
    }
}

} // verus!
