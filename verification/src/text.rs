//! Text helpers shared by the directive interpreter and the path index:
//! white-space tokens, splitting on a separator, joining, and decimal numbers.
//!
//! Every function works on characters, never on bytes, and is specified over
//! `Seq<char>`.

use vstd::prelude::*;

verus! {

/// The views of a sequence of strings.
pub open spec fn texts(v: Seq<String>) -> Seq<Seq<char>> {
    Seq::new(v.len(), |i: int| v[i]@)
}

/// Unicode white space (the `White_Space` property).
pub open spec fn white(c: char) -> bool {
    let n = c as u32;
    ||| (0x09 <= n && n <= 0x0d)
    ||| n == 0x20
    ||| n == 0x85
    ||| n == 0xa0
    ||| n == 0x1680
    ||| (0x2000 <= n && n <= 0x200a)
    ||| n == 0x2028
    ||| n == 0x2029
    ||| n == 0x202f
    ||| n == 0x205f
    ||| n == 0x3000
}

/// The index of the first white-space character at or after `i`, or the
/// length of `s` if there is none.
pub open spec fn word_end(s: Seq<char>, i: int) -> int
    decreases s.len() - i,
{
    if i < 0 || i >= s.len() || white(s[i]) {
        i
    } else {
        word_end(s, i + 1)
    }
}

/// The maximal runs of non-white characters of `s` that start at or after `i`.
pub open spec fn tokens_from(s: Seq<char>, i: int) -> Seq<Seq<char>>
    decreases s.len() - i,
{
    if i < 0 || i >= s.len() {
        Seq::empty()
    } else if white(s[i]) {
        tokens_from(s, i + 1)
    } else {
        proof {
            lemma_word_end_bounds(s, i + 1);
        }
        let e = word_end(s, i + 1);
        seq![s.subrange(i, e)] + tokens_from(s, e)
    }
}

/// The white-space separated tokens of `s`, in order.
pub open spec fn tokens(s: Seq<char>) -> Seq<Seq<char>> {
    tokens_from(s, 0)
}

/// The index of the first `c` at or after `i`, or the length of `s`.
pub open spec fn find_from(s: Seq<char>, c: char, i: int) -> int
    decreases s.len() - i,
{
    if i < 0 || i >= s.len() || s[i] == c {
        i
    } else {
        find_from(s, c, i + 1)
    }
}

/// The pieces of `s` from index `i` on, cut at every `c`.
pub open spec fn split_from(s: Seq<char>, c: char, i: int) -> Seq<Seq<char>>
    decreases s.len() - i,
{
    if i < 0 || i > s.len() {
        Seq::empty()
    } else {
        proof {
            lemma_find_from_bounds(s, c, i);
        }
        let e = find_from(s, c, i);
        if e >= s.len() {
            seq![s.subrange(i, s.len() as int)]
        } else {
            seq![s.subrange(i, e)] + split_from(s, c, e + 1)
        }
    }
}

/// The pieces of `s` cut at every `c`. There is always at least one piece;
/// a separator at either end gives an empty piece there.
pub open spec fn pieces(s: Seq<char>, c: char) -> Seq<Seq<char>> {
    split_from(s, c, 0)
}

/// The first `n` of `parts`, with `sep` between neighbours.
pub open spec fn join_upto(parts: Seq<Seq<char>>, sep: Seq<char>, n: int) -> Seq<char>
    decreases n,
{
    if n <= 0 {
        Seq::empty()
    } else if n == 1 {
        parts[0]
    } else {
        join_upto(parts, sep, n - 1) + sep + parts[n - 1]
    }
}

/// All of `parts`, with `sep` between neighbours.
pub open spec fn joined(parts: Seq<Seq<char>>, sep: Seq<char>) -> Seq<char> {
    join_upto(parts, sep, parts.len() as int)
}

/// Whether two full stops stand side by side somewhere in `s`.
pub open spec fn has_dotdot(s: Seq<char>) -> bool {
    exists|i: int| 0 <= i && i + 1 < s.len() && s[i] == '.' && #[trigger] s[i + 1] == '.'
}

/// `ns`, a slash, and `name`.
pub open spec fn qualified(ns: Seq<char>, name: Seq<char>) -> Seq<char> {
    ns + seq!['/'] + name
}

/// An ASCII decimal digit.
pub open spec fn is_digit(c: char) -> bool {
    0x30 <= c as u32 && c as u32 <= 0x39
}

/// Digits only.
pub open spec fn all_digits(s: Seq<char>) -> bool {
    forall|i: int| 0 <= i < s.len() ==> is_digit(#[trigger] s[i])
}

/// The number that the first `n` decimal digits of `s` write.
pub open spec fn decimal_upto(s: Seq<char>, n: int) -> int
    decreases n,
{
    if n <= 0 {
        0
    } else {
        decimal_upto(s, n - 1) * 10 + (s[n - 1] as u32 - 0x30)
    }
}

/// The number that a string of decimal digits writes.
pub open spec fn decimal_value(s: Seq<char>) -> int {
    decimal_upto(s, s.len() as int)
}

/// The integer written by `s`: an optional sign, then one or more decimal
/// digits and nothing else.
pub open spec fn parse_int(s: Seq<char>) -> Option<int> {
    let signed = s.len() > 0 && (s[0] == '-' || s[0] == '+');
    let body = if signed {
        s.subrange(1, s.len() as int)
    } else {
        s
    };
    if body.len() == 0 || !all_digits(body) {
        None
    } else if signed && s[0] == '-' {
        Some(-decimal_value(body))
    } else {
        Some(decimal_value(body))
    }
}

/// The `i32` written by `s`, if `s` writes an integer that fits.
pub open spec fn parse_i32_spec(s: Seq<char>) -> Option<i32> {
    match parse_int(s) {
        Some(v) => if i32::MIN <= v && v <= i32::MAX {
            Some(v as i32)
        } else {
            None
        },
        None => None,
    }
}

/// A word ends at or after its start and within the text, holds no white
/// space, and is followed by white space or by the end of the text.
pub proof fn lemma_word_end_bounds(s: Seq<char>, i: int)
    requires
        0 <= i <= s.len(),
    ensures
        i <= word_end(s, i) <= s.len(),
        forall|j: int| i <= j < word_end(s, i) ==> !white(#[trigger] s[j]),
        word_end(s, i) < s.len() ==> white(s[word_end(s, i)]),
    decreases s.len() - i,
{
    if i < s.len() && !white(s[i]) {
        lemma_word_end_bounds(s, i + 1);
    }
}

/// The place found lies at or after the start and within the text, holds
/// the character unless it is the end, and nothing before it does.
pub proof fn lemma_find_from_bounds(s: Seq<char>, c: char, i: int)
    requires
        0 <= i <= s.len(),
    ensures
        i <= find_from(s, c, i) <= s.len(),
        forall|j: int| i <= j < find_from(s, c, i) ==> #[trigger] s[j] != c,
        find_from(s, c, i) < s.len() ==> s[find_from(s, c, i)] == c,
    decreases s.len() - i,
{
    if i < s.len() && s[i] != c {
        lemma_find_from_bounds(s, c, i + 1);
    }
}

/// Splitting always yields at least one piece.
pub proof fn lemma_split_nonempty(s: Seq<char>, c: char, i: int)
    requires
        0 <= i <= s.len(),
    ensures
        split_from(s, c, i).len() >= 1,
    decreases s.len() - i,
{
    lemma_find_from_bounds(s, c, i);
    let e = find_from(s, c, i);
    if e < s.len() {
        lemma_split_nonempty(s, c, e + 1);
    }
}

/// A token: not empty, and free of white space.
pub open spec fn solid(t: Seq<char>) -> bool {
    t.len() > 0 && forall|j: int| 0 <= j < t.len() ==> !white(#[trigger] t[j])
}

/// Every token is solid: not empty, and free of white space.
pub proof fn law_tokens_are_solid(s: Seq<char>, i: int)
    requires
        0 <= i <= s.len(),
    ensures
        forall|k: int| 0 <= k < tokens_from(s, i).len() ==> solid(#[trigger] tokens_from(s, i)[k]),
    decreases s.len() - i,
{
    if i < s.len() {
        if white(s[i]) {
            law_tokens_are_solid(s, i + 1);
            assert(tokens_from(s, i) == tokens_from(s, i + 1));
        } else {
            lemma_word_end_bounds(s, i + 1);
            let e = word_end(s, i + 1);
            law_tokens_are_solid(s, e);
            let head = s.subrange(i, e);
            assert(solid(head));
            assert forall|k: int| 0 <= k < tokens_from(s, i).len() implies solid(
                #[trigger] tokens_from(s, i)[k],
            ) by {
                if k == 0 {
                    assert(tokens_from(s, i)[0] == head);
                } else {
                    assert(tokens_from(s, i)[k] == tokens_from(s, e)[k - 1]);
                }
            }
        }
    } else {
        assert(tokens_from(s, i).len() == 0);
    }
}

/// The characters of `s` as a vector.
pub fn to_chars(s: &str) -> (r: Vec<char>)
    ensures
        r@ == s@,
{
    let n: usize = s.unicode_len();
    let mut out: Vec<char> = Vec::new();
    let mut i: usize = 0;
    while i < n
        invariant
            n == s@.len(),
            i <= n,
            out@ == s@.subrange(0, i as int),
        decreases n - i,
    {
        out.push(s.get_char(i));
        i += 1;
        assert(out@ =~= s@.subrange(0, i as int));
    }
    assert(s@.subrange(0, n as int) =~= s@);
    out
}

/// Whether `c` is Unicode white space.
pub fn is_white(c: char) -> (r: bool)
    ensures
        r == white(c),
{
    let n: u32 = c as u32;
    (0x09 <= n && n <= 0x0d) || n == 0x20 || n == 0x85 || n == 0xa0 || n == 0x1680 || (0x2000 <= n
        && n <= 0x200a) || n == 0x2028 || n == 0x2029 || n == 0x202f || n == 0x205f || n == 0x3000
}

/// The white-space separated tokens of `s`.
pub fn split_whitespace(s: &str) -> (r: Vec<String>)
    ensures
        texts(r@) == tokens(s@),
{
    let cs = to_chars(s);
    let n: usize = cs.len();
    let mut out: Vec<String> = Vec::new();
    let mut i: usize = 0;
    while i < n
        invariant
            cs@ == s@,
            n == cs@.len(),
            i <= n,
            texts(out@) + tokens_from(s@, i as int) == tokens(s@),
        decreases n - i,
    {
        if is_white(cs[i]) {
            i += 1;
        } else {
            let mut e: usize = i + 1;
            while e < n && !is_white(cs[e])
                invariant
                    cs@ == s@,
                    n == cs@.len(),
                    i < e <= n,
                    word_end(s@, e as int) == word_end(s@, i + 1),
                decreases n - e,
            {
                e += 1;
            }
            let tok = s.substring_char(i, e).to_owned();
            proof {
                let ghost_out = out@.push(tok);
                assert(texts(ghost_out) =~= texts(out@) + seq![s@.subrange(i as int, e as int)]);
                assert(texts(ghost_out) + tokens_from(s@, e as int) =~= texts(out@) + tokens_from(
                    s@,
                    i as int,
                ));
            }
            out.push(tok);
            i = e;
        }
    }
    assert(texts(out@) + tokens_from(s@, n as int) =~= texts(out@));
    out
}

/// The pieces of `s` cut at every `sep`.
pub fn split(s: &str, sep: char) -> (r: Vec<String>)
    ensures
        texts(r@) == pieces(s@, sep),
        r@.len() >= 1,
{
    let cs = to_chars(s);
    let n: usize = cs.len();
    let mut out: Vec<String> = Vec::new();
    let mut i: usize = 0;
    let mut done = false;
    while !done
        invariant
            cs@ == s@,
            n == cs@.len(),
            i <= n,
            !done ==> texts(out@) + split_from(s@, sep, i as int) == pieces(s@, sep),
            done ==> texts(out@) == pieces(s@, sep),
            done ==> i == n,
        decreases n - i + (if done { 0int } else { 1int }),
    {
        let mut e: usize = i;
        while e < n && cs[e] != sep
            invariant
                cs@ == s@,
                n == cs@.len(),
                i <= e <= n,
                find_from(s@, sep, e as int) == find_from(s@, sep, i as int),
            decreases n - e,
        {
            e += 1;
        }
        let piece = s.substring_char(i, e).to_owned();
        proof {
            let ghost_out = out@.push(piece);
            assert(texts(ghost_out) =~= texts(out@) + seq![s@.subrange(i as int, e as int)]);
            if e < n {
                assert(texts(ghost_out) + split_from(s@, sep, e + 1) =~= texts(out@) + split_from(
                    s@,
                    sep,
                    i as int,
                ));
            } else {
                assert(texts(ghost_out) =~= texts(out@) + split_from(s@, sep, i as int));
            }
        }
        out.push(piece);
        if e < n {
            i = e + 1;
        } else {
            i = n;
            done = true;
        }
    }
    proof {
        lemma_split_nonempty(s@, sep, 0);
    }
    out
}

/// `parts` with `sep` between neighbours.
pub fn join(parts: &Vec<String>, sep: &str) -> (r: String)
    ensures
        r@ == joined(texts(parts@), sep@),
{
    let mut out = String::new();
    let n: usize = parts.len();
    let mut i: usize = 0;
    while i < n
        invariant
            n == parts@.len(),
            i <= n,
            out@ == join_upto(texts(parts@), sep@, i as int),
        decreases n - i,
    {
        if i > 0 {
            out.append(sep);
        }
        out.append(parts[i].as_str());
        proof {
            assert(texts(parts@)[i as int] == parts@[i as int]@);
            assert(out@ =~= join_upto(texts(parts@), sep@, i + 1));
        }
        i += 1;
    }
    out
}

/// Whether `s` is exactly the one character `c`.
pub fn is_char(s: &str, c: char) -> (r: bool)
    ensures
        r == (s@ == seq![c]),
{
    let n: usize = s.unicode_len();
    if n != 1 {
        return false;
    }
    let r = s.get_char(0) == c;
    proof {
        if r {
            assert(s@ =~= seq![c]);
        } else {
            assert(seq![c][0] == c);
        }
    }
    r
}

/// Whether two full stops stand side by side somewhere in `s`.
pub fn contains_dotdot(s: &str) -> (r: bool)
    ensures
        r == has_dotdot(s@),
{
    let cs = to_chars(s);
    let n: usize = cs.len();
    if n < 2 {
        return false;
    }
    let mut i: usize = 0;
    while i < n - 1
        invariant
            cs@ == s@,
            n == cs@.len(),
            n >= 2,
            forall|j: int| 0 <= j < i && j + 1 < n ==> !(s@[j] == '.' && #[trigger] s@[j + 1] == '.'),
        decreases n - i,
    {
        if cs[i] == '.' && cs[i + 1] == '.' {
            return true;
        }
        i += 1;
    }
    false
}

/// `ns`, a slash, and `name`.
pub fn qualify(ns: &str, name: &str) -> (r: String)
    ensures
        r@ == qualified(ns@, name@),
{
    let mut out = ns.to_owned();
    proof {
        reveal_strlit("/");
    }
    out.append("/");
    assert("/"@ =~= seq!['/']);
    out.append(name);
    out
}

/// On digits, a longer prefix never writes a smaller number.
pub proof fn lemma_decimal_grows(s: Seq<char>, m: int, n: int)
    requires
        all_digits(s),
        0 <= m <= n <= s.len(),
    ensures
        0 <= decimal_upto(s, m) <= decimal_upto(s, n),
    decreases n,
{
    if m < n {
        lemma_decimal_grows(s, m, n - 1);
        assert(is_digit(s[n - 1]));
    } else if n > 0 {
        lemma_decimal_grows(s, m - 1, n - 1);
        assert(is_digit(s[n - 1]));
    }
}

/// The `i32` that `s` writes in decimal, with an optional sign; `None` if
/// `s` is not such a number or the number does not fit.
pub fn parse_i32(s: &str) -> (r: Option<i32>)
    ensures
        r == parse_i32_spec(s@),
{
    let cs = to_chars(s);
    let n: usize = cs.len();
    if n == 0 {
        return None;
    }
    let neg = cs[0] == '-';
    let signed = neg || cs[0] == '+';
    let start: usize = if signed {
        1
    } else {
        0
    };
    let ghost body = if signed {
        s@.subrange(1, n as int)
    } else {
        s@
    };
    if start == n {
        return None;
    }
    let mut acc: i64 = 0;
    let mut i: usize = start;
    while i < n
        invariant
            cs@ == s@,
            n == cs@.len(),
            start <= i <= n,
            start < n,
            body.len() == n - start,
            forall|j: int| 0 <= j < body.len() ==> body[j] == s@[j + start],
            parse_int(s@) == (if !all_digits(body) {
                None
            } else if neg {
                Some(-decimal_value(body))
            } else {
                Some(decimal_value(body))
            }),
            forall|j: int| 0 <= j < i - start ==> is_digit(#[trigger] body[j]),
            acc == decimal_upto(body, i - start),
            0 <= acc <= 2147483648,
        decreases n - i,
    {
        let c: u32 = cs[i] as u32;
        if c < 0x30 || c > 0x39 {
            proof {
                assert(!is_digit(body[i - start]));
            }
            return None;
        }
        let d: i64 = (c - 0x30) as i64;
        acc = acc * 10 + d;
        proof {
            assert(is_digit(body[i - start]));
        }
        if acc > 2147483648 {
            proof {
                if all_digits(body) {
                    lemma_decimal_grows(body, i + 1 - start, body.len() as int);
                }
            }
            return None;
        }
        i += 1;
    }
    assert(all_digits(body));
    if neg {
        Some((-acc) as i32)
    } else if acc > 2147483647 {
        None
    } else {
        Some(acc as i32)
    }
}

/// The character that writes the digit `d`.
pub open spec fn digit_char(d: int) -> char {
    if d == 0 {
        '0'
    } else if d == 1 {
        '1'
    } else if d == 2 {
        '2'
    } else if d == 3 {
        '3'
    } else if d == 4 {
        '4'
    } else if d == 5 {
        '5'
    } else if d == 6 {
        '6'
    } else if d == 7 {
        '7'
    } else if d == 8 {
        '8'
    } else {
        '9'
    }
}

/// `n` written in decimal, without leading zeros.
pub open spec fn decimal_text(n: nat) -> Seq<char>
    decreases n,
{
    if n < 10 {
        seq![digit_char(n as int)]
    } else {
        decimal_text(n / 10).push(digit_char((n % 10) as int))
    }
}

/// The text of one digit.
fn digit_str(d: u8) -> (r: &'static str)
    requires
        d < 10,
    ensures
        r@ == seq![digit_char(d as int)],
{
    proof {
        reveal_strlit("0");
        reveal_strlit("1");
        reveal_strlit("2");
        reveal_strlit("3");
        reveal_strlit("4");
        reveal_strlit("5");
        reveal_strlit("6");
        reveal_strlit("7");
        reveal_strlit("8");
        reveal_strlit("9");
    }
    let r = if d == 0 {
        "0"
    } else if d == 1 {
        "1"
    } else if d == 2 {
        "2"
    } else if d == 3 {
        "3"
    } else if d == 4 {
        "4"
    } else if d == 5 {
        "5"
    } else if d == 6 {
        "6"
    } else if d == 7 {
        "7"
    } else if d == 8 {
        "8"
    } else {
        "9"
    };
    assert(r@ =~= seq![digit_char(d as int)]);
    r
}

/// `n` written in decimal.
pub fn decimal(n: u64) -> (r: String)
    ensures
        r@ == decimal_text(n as nat),
    decreases n,
{
    if n < 10 {
        digit_str(n as u8).to_owned()
    } else {
        let mut out = decimal(n / 10);
        out.append(digit_str((n % 10) as u8));
        out
    }
}

/// `v` written in decimal, with a minus sign if it is negative.
pub open spec fn signed_text(v: int) -> Seq<char> {
    if v < 0 {
        "-"@ + decimal_text((-v) as nat)
    } else {
        decimal_text(v as nat)
    }
}

/// `v` written in decimal.
pub fn decimal_i32(v: i32) -> (r: String)
    ensures
        r@ == signed_text(v as int),
{
    if v < 0 {
        let mut out = "-".to_owned();
        out.append(decimal((-(v as i64)) as u64).as_str());
        out
    } else {
        decimal(v as u64)
    }
}

/// Adds one character at the end of a string, by `String::push` of the
/// standard library, whose documentation says that it appends the given
/// character to the end of the string.
#[verifier::external_body]
pub(crate) fn push_char(s: &mut String, c: char)
    ensures
        final(s)@ == old(s)@.push(c),
{
    s.push(c);
}

/// The number written by `s` without a minus sign: an optional plus sign,
/// then one or more decimal digits and nothing else; `None` if `s` is not
/// so written or the number is greater than `max`.
pub open spec fn parse_upto_spec(s: Seq<char>, max: u32) -> Option<u32> {
    let signed = s.len() > 0 && s[0] == '+';
    let body = if signed {
        s.subrange(1, s.len() as int)
    } else {
        s
    };
    if body.len() == 0 || !all_digits(body) || decimal_value(body) > max {
        None
    } else {
        Some(decimal_value(body) as u32)
    }
}

/// The number that `s` writes in decimal, with an optional plus sign, if it
/// is at most `max`.
pub fn parse_upto(s: &str, max: u32) -> (r: Option<u32>)
    ensures
        r == parse_upto_spec(s@, max),
{
    let cs = to_chars(s);
    let n: usize = cs.len();
    if n == 0 {
        return None;
    }
    let signed = cs[0] == '+';
    let start: usize = if signed {
        1
    } else {
        0
    };
    let ghost body = if signed {
        s@.subrange(1, n as int)
    } else {
        s@
    };
    if start == n {
        return None;
    }
    let mut acc: u64 = 0;
    let mut i: usize = start;
    while i < n
        invariant
            cs@ == s@,
            n == cs@.len(),
            start <= i <= n,
            start < n,
            body.len() == n - start,
            forall|j: int| 0 <= j < body.len() ==> body[j] == s@[j + start],
            parse_upto_spec(s@, max) == (if !all_digits(body) || decimal_value(body) > max {
                None
            } else {
                Some(decimal_value(body) as u32)
            }),
            forall|j: int| 0 <= j < i - start ==> is_digit(#[trigger] body[j]),
            acc == decimal_upto(body, i - start),
            0 <= acc <= max,
        decreases n - i,
    {
        let c: u32 = cs[i] as u32;
        if c < 0x30 || c > 0x39 {
            proof {
                assert(!is_digit(body[i - start]));
            }
            return None;
        }
        let d: u64 = (c - 0x30) as u64;
        acc = acc * 10 + d;
        proof {
            assert(is_digit(body[i - start]));
        }
        if acc > max as u64 {
            proof {
                if all_digits(body) {
                    lemma_decimal_grows(body, i + 1 - start, body.len() as int);
                }
            }
            return None;
        }
        i += 1;
    }
    assert(all_digits(body));
    Some(acc as u32)
}

/// Whether `s` begins with `prefix`.
pub fn starts_with(s: &str, prefix: &str) -> (r: bool)
    ensures
        r == prefix@.is_prefix_of(s@),
{
    let a = to_chars(s);
    let b = to_chars(prefix);
    if b.len() > a.len() {
        return false;
    }
    let n: usize = b.len();
    let mut i: usize = 0;
    while i < n
        invariant
            a@ == s@,
            b@ == prefix@,
            n == b@.len(),
            n <= a@.len(),
            i <= n,
            forall|j: int| 0 <= j < i ==> a@[j] == b@[j],
        decreases n - i,
    {
        if a[i] != b[i] {
            assert(s@.subrange(0, n as int)[i as int] != prefix@[i as int]);
            return false;
        }
        i += 1;
    }
    assert(s@.subrange(0, n as int) =~= prefix@);
    true
}

/// `k` zeros.
pub open spec fn zeros(k: int) -> Seq<char>
    decreases k,
{
    if k <= 0 {
        Seq::empty()
    } else {
        zeros(k - 1).push('0')
    }
}

/// `n` written in decimal with zeros before it up to the width `width`.
pub open spec fn padded_text(n: nat, width: nat) -> Seq<char> {
    zeros(width - decimal_text(n).len()) + decimal_text(n)
}

/// `n` written in decimal with zeros before it up to the width `width`.
pub fn padded(n: u64, width: usize) -> (r: String)
    ensures
        r@ == padded_text(n as nat, width as nat),
{
    let digits = decimal(n);
    let len: usize = digits.as_str().unicode_len();
    let mut out = String::new();
    let mut k: usize = 0;
    proof {
        reveal_strlit("0");
        assert("0"@ =~= seq!['0']);
    }
    while len < width && k < width - len
        invariant
            len == digits@.len(),
            digits@ == decimal_text(n as nat),
            "0"@ == seq!['0'],
            len < width ==> k <= width - len,
            len >= width ==> k == 0,
            out@ == zeros(k as int),
        decreases width - k,
    {
        out.append("0");
        k += 1;
        assert(out@ =~= zeros(k as int));
    }
    out.append(digits.as_str());
    out
}

/// Joining a part with further parts puts the separator behind the part.
pub proof fn lemma_join_front(first: Seq<char>, rest: Seq<Seq<char>>, sep: Seq<char>, n: int)
    requires
        1 <= n <= rest.len(),
    ensures
        join_upto(seq![first] + rest, sep, n + 1) == first + sep + join_upto(rest, sep, n),
    decreases n,
{
    let all = seq![first] + rest;
    assert(all[0] == first);
    assert(all[n] == rest[n - 1]);
    if n == 1 {
        assert(join_upto(all, sep, 1) == first);
        assert(join_upto(all, sep, 2) =~= first + sep + rest[0]);
        assert(join_upto(rest, sep, 1) == rest[0]);
    } else {
        lemma_join_front(first, rest, sep, n - 1);
        assert(join_upto(all, sep, n + 1) =~= first + sep + join_upto(rest, sep, n));
    }
}

/// The pieces of a text from `i` on, joined by the character at which the
/// text was cut, are the text from `i` on.
pub proof fn lemma_join_pieces(s: Seq<char>, c: char, i: int)
    requires
        0 <= i <= s.len(),
    ensures
        joined(split_from(s, c, i), seq![c]) == s.subrange(i, s.len() as int),
    decreases s.len() - i,
{
    lemma_find_from_bounds(s, c, i);
    let e = find_from(s, c, i);
    if e >= s.len() {
        assert(split_from(s, c, i) =~= seq![s.subrange(i, s.len() as int)]);
        assert(joined(split_from(s, c, i), seq![c]) == s.subrange(i, s.len() as int));
    } else {
        let first = s.subrange(i, e);
        let rest = split_from(s, c, e + 1);
        lemma_join_pieces(s, c, e + 1);
        lemma_split_nonempty(s, c, e + 1);
        lemma_join_front(first, rest, seq![c], rest.len() as int);
        assert(split_from(s, c, i) == seq![first] + rest);
        assert((seq![first] + rest).len() == rest.len() + 1);
        assert(first + seq![c] + s.subrange(e + 1, s.len() as int) =~= s.subrange(
            i,
            s.len() as int,
        ));
    }
}

/// A text cut at a character and joined by it again is the text.
pub proof fn law_join_pieces(s: Seq<char>, c: char)
    ensures
        joined(pieces(s, c), seq![c]) == s,
{
    lemma_join_pieces(s, c, 0);
    assert(s.subrange(0, s.len() as int) =~= s);
}

} // verus!
