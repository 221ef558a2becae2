//! Stateless grammar primitives for the record tokens: whitespace-separated
//! bare tokens, signed and unsigned decimal integers, floating-point tokens
//! and quoted strings, together with decimal rendering of integers.

use vstd::prelude::*;
use vstd::string::*;

verus! {

// ---------------------------------------------------------------------------
// character classes
// ---------------------------------------------------------------------------

/// Separator characters between two tokens of one record line.
pub open spec fn is_sep_char(c: char) -> bool {
    c == ' ' || c == '\t'
}

/// ASCII whitespace; any of these ends a bare token.
pub open spec fn is_ws_char(c: char) -> bool {
    c == ' ' || c == '\t' || c == '\n' || c == '\r' || c == '\u{c}'
}

pub open spec fn is_digit_char(c: char) -> bool {
    48 <= c as u32 <= 57
}

pub open spec fn digit_of(c: char) -> nat {
    (c as u32 - 48) as nat
}

/// A non-empty piece of text free of whitespace: exactly the texts that are
/// re-extracted verbatim as one token by the tokenizer.
pub open spec fn token_clean(s: Seq<char>) -> bool {
    s.len() > 0 && (forall|m: int| 0 <= m < s.len() ==> !is_ws_char(#[trigger] s[m]))
}

// ---------------------------------------------------------------------------
// scans: end of a separator run, of a token, of a digit run, next quote
// ---------------------------------------------------------------------------

/// First position at or after `i` that does not hold a separator character.
pub open spec fn sep_end(s: Seq<char>, i: int) -> int
    decreases s.len() - i when 0 <= i <= s.len()
{
    if i < s.len() && is_sep_char(s[i]) {
        sep_end(s, i + 1)
    } else {
        i
    }
}

/// First position at or after `i` that holds whitespace (or the end).
pub open spec fn token_end(s: Seq<char>, i: int) -> int
    decreases s.len() - i when 0 <= i <= s.len()
{
    if i < s.len() && !is_ws_char(s[i]) {
        token_end(s, i + 1)
    } else {
        i
    }
}

/// First position at or after `i` that does not hold a decimal digit.
pub open spec fn digits_end(s: Seq<char>, i: int) -> int
    decreases s.len() - i when 0 <= i <= s.len()
{
    if i < s.len() && is_digit_char(s[i]) {
        digits_end(s, i + 1)
    } else {
        i
    }
}

/// First position at or after `i` that holds a double quote (or the end).
pub open spec fn quote_end(s: Seq<char>, i: int) -> int
    decreases s.len() - i when 0 <= i <= s.len()
{
    if i < s.len() && s[i] != '"' {
        quote_end(s, i + 1)
    } else {
        i
    }
}

pub proof fn lemma_sep_end(s: Seq<char>, i: int)
    requires
        0 <= i <= s.len(),
    ensures
        i <= sep_end(s, i) <= s.len(),
        sep_end(s, i) < s.len() ==> !is_sep_char(s[sep_end(s, i)]),
        forall|m: int| i <= m < sep_end(s, i) ==> is_sep_char(#[trigger] s[m]),
    decreases s.len() - i,
{
    if i < s.len() && is_sep_char(s[i]) {
        lemma_sep_end(s, i + 1);
    }
}

pub proof fn lemma_token_end(s: Seq<char>, i: int)
    requires
        0 <= i <= s.len(),
    ensures
        i <= token_end(s, i) <= s.len(),
        token_end(s, i) < s.len() ==> is_ws_char(s[token_end(s, i)]),
        forall|m: int| i <= m < token_end(s, i) ==> !is_ws_char(#[trigger] s[m]),
    decreases s.len() - i,
{
    if i < s.len() && !is_ws_char(s[i]) {
        lemma_token_end(s, i + 1);
    }
}

pub proof fn lemma_digits_end(s: Seq<char>, i: int)
    requires
        0 <= i <= s.len(),
    ensures
        i <= digits_end(s, i) <= s.len(),
        digits_end(s, i) < s.len() ==> !is_digit_char(s[digits_end(s, i)]),
        forall|m: int| i <= m < digits_end(s, i) ==> is_digit_char(#[trigger] s[m]),
    decreases s.len() - i,
{
    if i < s.len() && is_digit_char(s[i]) {
        lemma_digits_end(s, i + 1);
    }
}

pub proof fn lemma_quote_end(s: Seq<char>, i: int)
    requires
        0 <= i <= s.len(),
    ensures
        i <= quote_end(s, i) <= s.len(),
        quote_end(s, i) < s.len() ==> s[quote_end(s, i)] == '"',
        forall|m: int| i <= m < quote_end(s, i) ==> #[trigger] s[m] != '"',
    decreases s.len() - i,
{
    if i < s.len() && s[i] != '"' {
        lemma_quote_end(s, i + 1);
    }
}

/// A run of separator characters ending at a non-separator pins `sep_end`.
pub proof fn lemma_sep_end_run(s: Seq<char>, i: int, j: int)
    requires
        0 <= i <= j <= s.len(),
        forall|m: int| i <= m < j ==> is_sep_char(#[trigger] s[m]),
        j == s.len() || !is_sep_char(s[j]),
    ensures
        sep_end(s, i) == j,
    decreases j - i,
{
    if i < j {
        lemma_sep_end_run(s, i + 1, j);
    }
}

/// A run of non-whitespace characters ending at whitespace pins `token_end`.
pub proof fn lemma_token_end_run(s: Seq<char>, i: int, j: int)
    requires
        0 <= i <= j <= s.len(),
        forall|m: int| i <= m < j ==> !is_ws_char(#[trigger] s[m]),
        j == s.len() || is_ws_char(s[j]),
    ensures
        token_end(s, i) == j,
    decreases j - i,
{
    if i < j {
        lemma_token_end_run(s, i + 1, j);
    }
}

/// A run of quote-free characters ending at a quote pins `quote_end`.
pub proof fn lemma_quote_end_run(s: Seq<char>, i: int, j: int)
    requires
        0 <= i <= j <= s.len(),
        forall|m: int| i <= m < j ==> #[trigger] s[m] != '"',
        j == s.len() || s[j] == '"',
    ensures
        quote_end(s, i) == j,
    decreases j - i,
{
    if i < j {
        lemma_quote_end_run(s, i + 1, j);
    }
}

fn sep_end_exec(line: &str, i: usize) -> (j: usize)
    requires
        i <= line@.len(),
    ensures
        j as int == sep_end(line@, i as int),
{
    let len = line.unicode_len();
    let mut j = i;
    loop
        invariant
            i <= j <= len,
            len == line@.len(),
            sep_end(line@, i as int) == sep_end(line@, j as int),
        ensures
            j <= len == line@.len(),
            sep_end(line@, i as int) == sep_end(line@, j as int),
            j == len || !is_sep_char(line@[j as int]),
        decreases len - j,
    {
        if j == len {
            break ;
        }
        let c = line.get_char(j);
        if c == ' ' || c == '\t' {
            j = j + 1;
        } else {
            break ;
        }
    }
    j
}

fn token_end_exec(line: &str, i: usize) -> (j: usize)
    requires
        i <= line@.len(),
    ensures
        j as int == token_end(line@, i as int),
{
    let len = line.unicode_len();
    let mut j = i;
    loop
        invariant
            i <= j <= len,
            len == line@.len(),
            token_end(line@, i as int) == token_end(line@, j as int),
        ensures
            j <= len == line@.len(),
            token_end(line@, i as int) == token_end(line@, j as int),
            j == len || is_ws_char(line@[j as int]),
        decreases len - j,
    {
        if j == len {
            break ;
        }
        let c = line.get_char(j);
        if c == ' ' || c == '\t' || c == '\n' || c == '\r' || c == '\u{c}' {
            break ;
        } else {
            j = j + 1;
        }
    }
    j
}

fn digits_end_exec(line: &str, i: usize) -> (j: usize)
    requires
        i <= line@.len(),
    ensures
        j as int == digits_end(line@, i as int),
{
    let len = line.unicode_len();
    let mut j = i;
    loop
        invariant
            i <= j <= len,
            len == line@.len(),
            digits_end(line@, i as int) == digits_end(line@, j as int),
        ensures
            j <= len == line@.len(),
            digits_end(line@, i as int) == digits_end(line@, j as int),
            j == len || !is_digit_char(line@[j as int]),
        decreases len - j,
    {
        if j == len {
            break ;
        }
        let c = line.get_char(j);
        let cv = c as u32;
        if 48 <= cv && cv <= 57 {
            j = j + 1;
        } else {
            break ;
        }
    }
    j
}

fn quote_end_exec(line: &str, i: usize) -> (j: usize)
    requires
        i <= line@.len(),
    ensures
        j as int == quote_end(line@, i as int),
{
    let len = line.unicode_len();
    let mut j = i;
    loop
        invariant
            i <= j <= len,
            len == line@.len(),
            quote_end(line@, i as int) == quote_end(line@, j as int),
        ensures
            j <= len == line@.len(),
            quote_end(line@, i as int) == quote_end(line@, j as int),
            j == len || line@[j as int] == '"',
        decreases len - j,
    {
        if j == len {
            break ;
        }
        let c = line.get_char(j);
        if c != '"' {
            j = j + 1;
        } else {
            break ;
        }
    }
    j
}

// ---------------------------------------------------------------------------
// bare tokens
// ---------------------------------------------------------------------------

/// One bare token preceded by at least one separator: the token text and the
/// position just past it, or nothing where no separator or no token follows.
pub open spec fn spec_take_token(s: Seq<char>, i: int) -> Option<(Seq<char>, int)> {
    let j = sep_end(s, i);
    let k = token_end(s, j);
    if j == i || k == j {
        None
    } else {
        Some((s.subrange(j, k), k))
    }
}

/// Extract the next whitespace-separated token of `line` after position `i`.
pub fn take_token(line: &str, i: usize) -> (r: Option<(String, usize)>)
    requires
        i <= line@.len(),
    ensures
        match r {
            Some((t, k)) => {
                &&& spec_take_token(line@, i as int) == Some((t@, k as int))
                &&& i < k <= line@.len()
                &&& token_clean(t@)
            },
            None => spec_take_token(line@, i as int) is None,
        },
{
    proof {
        lemma_sep_end(line@, i as int);
    }
    let j = sep_end_exec(line, i);
    if j == i {
        return None;
    }
    proof {
        lemma_token_end(line@, j as int);
    }
    let k = token_end_exec(line, j);
    if k == j {
        return None;
    }
    let t = line.substring_char(j, k);
    Some((t.to_owned(), k))
}

// ---------------------------------------------------------------------------
// quoted strings
// ---------------------------------------------------------------------------

/// One double-quoted string preceded by at least one separator: the text
/// between the quotes (which may itself hold whitespace) and the position just
/// past the closing quote.
pub open spec fn spec_take_quoted(s: Seq<char>, i: int) -> Option<(Seq<char>, int)> {
    let j = sep_end(s, i);
    if j == i || j >= s.len() || s[j] != '"' {
        None
    } else {
        let k = quote_end(s, j + 1);
        if k >= s.len() {
            None
        } else {
            Some((s.subrange(j + 1, k), k + 1))
        }
    }
}

/// Extract the next quoted string of `line` after position `i`.
pub fn take_quoted(line: &str, i: usize) -> (r: Option<(String, usize)>)
    requires
        i <= line@.len(),
    ensures
        match r {
            Some((t, k)) => {
                &&& spec_take_quoted(line@, i as int) == Some((t@, k as int))
                &&& i < k <= line@.len()
                &&& forall|m: int| 0 <= m < t@.len() ==> #[trigger] t@[m] != '"'
            },
            None => spec_take_quoted(line@, i as int) is None,
        },
{
    proof {
        lemma_sep_end(line@, i as int);
    }
    let j = sep_end_exec(line, i);
    if j == i {
        return None;
    }
    let len = line.unicode_len();
    if j == len || line.get_char(j) != '"' {
        return None;
    }
    proof {
        lemma_quote_end(line@, j + 1);
    }
    let k = quote_end_exec(line, j + 1);
    if k == len {
        return None;
    }
    let t = line.substring_char(j + 1, k);
    Some((t.to_owned(), k + 1))
}

// ---------------------------------------------------------------------------
// decimal integers: value, validity, parsing
// ---------------------------------------------------------------------------

pub open spec fn all_digits(s: Seq<char>) -> bool {
    forall|m: int| 0 <= m < s.len() ==> is_digit_char(#[trigger] s[m])
}

/// Value of a digit string read as a decimal numeral.
pub open spec fn dec_val(s: Seq<char>) -> nat
    decreases s.len(),
{
    if s.len() == 0 {
        0
    } else {
        dec_val(s.drop_last()) * 10 + digit_of(s.last())
    }
}

/// Prefixes of a digit string never exceed the whole string's value.
pub proof fn lemma_dec_val_take(s: Seq<char>, k: int)
    requires
        0 <= k <= s.len(),
    ensures
        dec_val(s.take(k)) <= dec_val(s),
    decreases s.len() - k,
{
    if k < s.len() {
        lemma_dec_val_take(s, k + 1);
        assert(s.take(k + 1).drop_last() =~= s.take(k));
        assert(dec_val(s.take(k + 1)) == dec_val(s.take(k)) * 10 + digit_of(s.take(k + 1).last()));
    } else {
        assert(s.take(k) =~= s);
    }
}

/// Position of the first character after an optional leading sign.
pub open spec fn sign_skip(s: Seq<char>) -> int {
    if s.len() > 0 && (s[0] == '+' || s[0] == '-') {
        1
    } else {
        0
    }
}

pub open spec fn is_negative(s: Seq<char>) -> bool {
    s.len() > 0 && s[0] == '-'
}

pub open spec fn int_body(s: Seq<char>) -> Seq<char> {
    s.subrange(sign_skip(s), s.len() as int)
}

/// An unsigned decimal numeral that fits in 64 bits.
pub open spec fn valid_u64_token(s: Seq<char>) -> bool {
    s.len() > 0 && all_digits(s) && dec_val(s) <= u64::MAX
}

/// An optionally signed decimal numeral whose value fits in 32 signed bits.
pub open spec fn valid_i32_token(s: Seq<char>) -> bool {
    let b = int_body(s);
    &&& b.len() > 0
    &&& all_digits(b)
    &&& if is_negative(s) {
        dec_val(b) <= 0x8000_0000
    } else {
        dec_val(b) <= 0x7fff_ffff
    }
}

pub open spec fn i32_token_val(s: Seq<char>) -> int {
    if is_negative(s) {
        -(dec_val(int_body(s)) as int)
    } else {
        dec_val(int_body(s)) as int
    }
}

/// Parse a whole token as an unsigned 64-bit decimal numeral.
pub fn parse_u64_token(t: &str) -> (r: Option<u64>)
    ensures
        r is Some <==> valid_u64_token(t@),
        r is Some ==> r.unwrap() as nat == dec_val(t@),
{
    let len = t.unicode_len();
    if len == 0 {
        return None;
    }
    let mut acc: u64 = 0;
    let mut m: usize = 0;
    loop
        invariant
            m <= len,
            len == t@.len(),
            all_digits(t@.take(m as int)),
            acc as nat == dec_val(t@.take(m as int)),
        ensures
            m == len == t@.len(),
            all_digits(t@.take(m as int)),
            acc as nat == dec_val(t@.take(m as int)),
        decreases len - m,
    {
        if m == len {
            break ;
        }
        let c = t.get_char(m);
        let cv = c as u32;
        if !(48 <= cv && cv <= 57) {
            assert(!is_digit_char(t@[m as int]));
            return None;
        }
        let d = (cv - 48) as u64;
        proof {
            assert(t@.take(m + 1).drop_last() =~= t@.take(m as int));
            assert(dec_val(t@.take(m + 1)) == acc as nat * 10 + d as nat);
        }
        if acc > (u64::MAX - d) / 10 {
            proof {
                // the numeral read so far already exceeds u64::MAX
                assert(acc as nat * 10 + d as nat > u64::MAX) by {
                    let lim = (u64::MAX - d) as int;
                    assert(lim == 10 * (lim / 10) + lim % 10);
                    assert(acc as int * 10 >= (lim / 10) * 10 + 10);
                };
                if all_digits(t@) {
                    lemma_dec_val_take(t@, m + 1);
                }
            }
            return None;
        }
        proof {
            assert(acc as nat * 10 + d as nat <= u64::MAX) by {
                let lim = (u64::MAX - d) as int;
                assert(lim == 10 * (lim / 10) + lim % 10);
                assert(acc as int * 10 <= (lim / 10) * 10);
            };
        }
        acc = acc * 10 + d;
        m = m + 1;
    }
    proof {
        assert(t@.take(len as int) =~= t@);
    }
    Some(acc)
}

/// Parse a whole token as a signed 32-bit decimal numeral.
pub fn parse_i32_token(t: &str) -> (r: Option<i32>)
    ensures
        r is Some <==> valid_i32_token(t@),
        r is Some ==> r.unwrap() as int == i32_token_val(t@),
{
    let len = t.unicode_len();
    if len == 0 {
        return None;
    }
    let c0 = t.get_char(0);
    let neg = c0 == '-';
    let start: usize = if c0 == '-' || c0 == '+' {
        1
    } else {
        0
    };
    let b = t.substring_char(start, len);
    proof {
        assert(b@ =~= int_body(t@));
    }
    let mag = match parse_u64_token(b) {
        Some(v) => v,
        None => {
            return None;
        },
    };
    if neg {
        if mag > 0x8000_0000u64 {
            return None;
        }
        let v = -(mag as i64);
        Some(v as i32)
    } else {
        if mag > 0x7fff_ffffu64 {
            return None;
        }
        Some(mag as i32)
    }
}

// ---------------------------------------------------------------------------
// decimal integers: rendering
// ---------------------------------------------------------------------------

pub open spec fn digit_char(d: nat) -> char {
    if d == 0 {
        '0'
    } else if d == 1 {
        '1'
    } else if d == 2 {
        '2'
    } else if d == 3 {
        '3'
    } else if d == 4 {
        '4'
    } else if d == 5 {
        '5'
    } else if d == 6 {
        '6'
    } else if d == 7 {
        '7'
    } else if d == 8 {
        '8'
    } else {
        '9'
    }
}

/// The canonical decimal numeral of `n`: no sign, no leading zeros.
pub open spec fn dec_digits(n: nat) -> Seq<char>
    decreases n,
{
    if n < 10 {
        seq![digit_char(n)]
    } else {
        dec_digits(n / 10).push(digit_char(n % 10))
    }
}

/// The text the library writes for a signed 32-bit integer.
pub open spec fn spec_i32_text(v: int) -> Seq<char> {
    if v < 0 {
        seq!['-'] + dec_digits((-v) as nat)
    } else {
        dec_digits(v as nat)
    }
}

/// Rendering then reading a numeral gives the number back.
pub proof fn lemma_dec_digits_val(n: nat)
    ensures
        dec_digits(n).len() >= 1,
        all_digits(dec_digits(n)),
        dec_val(dec_digits(n)) == n,
        is_digit_char(dec_digits(n)[0]),
        token_clean(dec_digits(n)),
    decreases n,
{
    if n < 10 {
        let s = seq![digit_char(n)];
        assert(s.drop_last() =~= Seq::<char>::empty());
        assert(dec_val(Seq::<char>::empty()) == 0);
        assert(s.last() == digit_char(n));
        assert(dec_val(s) == dec_val(s.drop_last()) * 10 + digit_of(s.last()));
        assert(dec_val(s) == digit_of(digit_char(n)));
        assert(digit_of(digit_char(n)) == n);
    } else {
        lemma_dec_digits_val(n / 10);
        let s = dec_digits(n);
        assert(s.drop_last() =~= dec_digits(n / 10));
        assert(s.last() == digit_char(n % 10));
        assert(dec_val(s) == (n / 10) * 10 + digit_of(digit_char(n % 10)));
        assert(digit_of(digit_char(n % 10)) == n % 10);
        assert((n / 10) * 10 + n % 10 == n);
    }
}

/// Rendering then reading a signed numeral gives the integer back.
pub proof fn lemma_i32_text_val(v: int)
    requires
        -0x8000_0000 <= v <= 0x7fff_ffff,
    ensures
        valid_i32_token(spec_i32_text(v)),
        i32_token_val(spec_i32_text(v)) == v,
        token_clean(spec_i32_text(v)),
{
    if v < 0 {
        lemma_dec_digits_val((-v) as nat);
        assert(int_body(spec_i32_text(v)) =~= dec_digits((-v) as nat));
    } else {
        lemma_dec_digits_val(v as nat);
        assert(int_body(spec_i32_text(v)) =~= dec_digits(v as nat));
    }
}

fn digit_str(d: u64) -> (r: &'static str)
    requires
        d < 10,
    ensures
        r@ =~= seq![digit_char(d as nat)],
{
    proof {
        reveal_strlit("0");
        reveal_strlit("1");
        reveal_strlit("2");
        reveal_strlit("3");
        reveal_strlit("4");
        reveal_strlit("5");
        reveal_strlit("6");
        reveal_strlit("7");
        reveal_strlit("8");
        reveal_strlit("9");
    }
    if d == 0 {
        "0"
    } else if d == 1 {
        "1"
    } else if d == 2 {
        "2"
    } else if d == 3 {
        "3"
    } else if d == 4 {
        "4"
    } else if d == 5 {
        "5"
    } else if d == 6 {
        "6"
    } else if d == 7 {
        "7"
    } else if d == 8 {
        "8"
    } else {
        "9"
    }
}

/// Render an unsigned integer as its canonical decimal numeral.
pub fn u64_text(n: u64) -> (r: String)
    ensures
        r@ == dec_digits(n as nat),
    decreases n,
{
    if n < 10 {
        digit_str(n).to_owned()
    } else {
        let mut s = u64_text(n / 10);
        s.append(digit_str(n % 10));
        proof {
            assert(dec_digits((n / 10) as nat) + seq![digit_char((n % 10) as nat)] =~= dec_digits(
                (n / 10) as nat,
            ).push(digit_char((n % 10) as nat)));
        }
        s
    }
}

/// Render a count as its canonical decimal numeral.
pub fn usize_text(n: usize) -> (r: String)
    ensures
        r@ == dec_digits(n as nat),
{
    u64_text(n as u64)
}

/// Render a signed 32-bit integer as its canonical decimal numeral.
pub fn i32_text(v: i32) -> (r: String)
    ensures
        r@ == spec_i32_text(v as int),
{
    if v >= 0 {
        u64_text(v as u64)
    } else {
        let m = (-(v as i64)) as u64;
        proof {
            reveal_strlit("-");
            assert("-"@ =~= seq!['-']);
        }
        let mut s = String::from_str("-");
        let d = u64_text(m);
        s.append(d.as_str());
        s
    }
}

// ---------------------------------------------------------------------------
// floating-point tokens
// ---------------------------------------------------------------------------

/// Case-insensitive match of `c` against the lower-case ASCII letter `l`.
pub open spec fn eq_lower(c: char, l: char) -> bool {
    c == l || c as u32 == l as u32 - 32
}

/// `nan`, `inf` or `infinity` in any letter case (sign already stripped).
pub open spec fn is_special_float(s: Seq<char>) -> bool {
    ||| (s.len() == 3 && eq_lower(s[0], 'n') && eq_lower(s[1], 'a') && eq_lower(s[2], 'n'))
    ||| (s.len() == 3 && eq_lower(s[0], 'i') && eq_lower(s[1], 'n') && eq_lower(s[2], 'f'))
    ||| (s.len() == 8 && eq_lower(s[0], 'i') && eq_lower(s[1], 'n') && eq_lower(s[2], 'f')
        && eq_lower(s[3], 'i') && eq_lower(s[4], 'n') && eq_lower(s[5], 'i') && eq_lower(
        s[6],
        't',
    ) && eq_lower(s[7], 'y'))
}

/// An exponent part filling the rest of the token: `e` or `E`, an optional
/// sign, then at least one digit.
pub open spec fn valid_exponent(s: Seq<char>, i: int) -> bool {
    &&& 0 <= i < s.len()
    &&& (s[i] == 'e' || s[i] == 'E')
    &&& {
        let j = if i + 1 < s.len() && (s[i + 1] == '+' || s[i + 1] == '-') {
            i + 2
        } else {
            i + 1
        };
        j < s.len() && digits_end(s, j) == s.len()
    }
}

/// A decimal mantissa with optional fraction and exponent (sign stripped):
/// `digits [. digits*] [exp]` or `. digits+ [exp]`.
pub open spec fn valid_numeric_float(s: Seq<char>) -> bool {
    let d1 = digits_end(s, 0);
    ||| (d1 > 0 && d1 == s.len())
    ||| (d1 > 0 && d1 < s.len() && s[d1] == '.' && {
        let d2 = digits_end(s, d1 + 1);
        d2 == s.len() || valid_exponent(s, d2)
    })
    ||| (d1 > 0 && d1 < s.len() && s[d1] != '.' && valid_exponent(s, d1))
    ||| (d1 == 0 && s.len() > 1 && s[0] == '.' && {
        let d2 = digits_end(s, 1);
        d2 > 1 && (d2 == s.len() || valid_exponent(s, d2))
    })
}

/// A floating-point token: an optional sign, then either a special word
/// (`nan`, `inf`, `infinity`) or a decimal mantissa with optional exponent.
pub open spec fn valid_float_token(s: Seq<char>) -> bool {
    is_special_float(s.subrange(sign_skip(s), s.len() as int)) || valid_numeric_float(
        s.subrange(sign_skip(s), s.len() as int),
    )
}

fn eq_lower_exec(c: char, l: char) -> (r: bool)
    ensures
        r == eq_lower(c, l),
{
    c == l || (l as u32 >= 32 && c as u32 == l as u32 - 32)
}

fn check_exponent(b: &str, i: usize) -> (r: bool)
    requires
        i <= b@.len(),
    ensures
        r == valid_exponent(b@, i as int),
{
    let len = b.unicode_len();
    if i == len {
        return false;
    }
    let c = b.get_char(i);
    if !(c == 'e' || c == 'E') {
        return false;
    }
    let j: usize = if i + 1 < len {
        let c1 = b.get_char(i + 1);
        if c1 == '+' || c1 == '-' {
            i + 2
        } else {
            i + 1
        }
    } else {
        i + 1
    };
    if j == len {
        return false;
    }
    let k = digits_end_exec(b, j);
    k == len
}

fn check_float_body(b: &str) -> (r: bool)
    ensures
        r == (is_special_float(b@) || valid_numeric_float(b@)),
{
    let len = b.unicode_len();
    let special = if len == 3 {
        (eq_lower_exec(b.get_char(0), 'n') && eq_lower_exec(b.get_char(1), 'a') && eq_lower_exec(
            b.get_char(2),
            'n',
        )) || (eq_lower_exec(b.get_char(0), 'i') && eq_lower_exec(b.get_char(1), 'n')
            && eq_lower_exec(b.get_char(2), 'f'))
    } else if len == 8 {
        eq_lower_exec(b.get_char(0), 'i') && eq_lower_exec(b.get_char(1), 'n') && eq_lower_exec(
            b.get_char(2),
            'f',
        ) && eq_lower_exec(b.get_char(3), 'i') && eq_lower_exec(b.get_char(4), 'n')
            && eq_lower_exec(b.get_char(5), 'i') && eq_lower_exec(b.get_char(6), 't')
            && eq_lower_exec(b.get_char(7), 'y')
    } else {
        false
    };
    if special {
        return true;
    }
    let d1 = digits_end_exec(b, 0);
    proof {
        lemma_digits_end(b@, 0);
    }
    if d1 > 0 {
        if d1 == len {
            true
        } else {
            let c = b.get_char(d1);
            if c == '.' {
                let d2 = digits_end_exec(b, d1 + 1);
                proof {
                    lemma_digits_end(b@, d1 + 1);
                }
                if d2 == len {
                    true
                } else {
                    check_exponent(b, d2)
                }
            } else {
                check_exponent(b, d1)
            }
        }
    } else {
        if len > 1 && b.get_char(0) == '.' {
            let d2 = digits_end_exec(b, 1);
            proof {
                lemma_digits_end(b@, 1);
            }
            if d2 > 1 {
                if d2 == len {
                    true
                } else {
                    check_exponent(b, d2)
                }
            } else {
                false
            }
        } else {
            false
        }
    }
}

/// Decide whether a whole token is a floating-point token.
pub fn check_float_token(t: &str) -> (r: bool)
    ensures
        r == valid_float_token(t@),
{
    let len = t.unicode_len();
    if len == 0 {
        let ghost b = t@.subrange(sign_skip(t@), t@.len() as int);
        proof {
            assert(b =~= Seq::<char>::empty());
            assert(digits_end(b, 0) == 0);
        }
        return false;
    }
    let c0 = t.get_char(0);
    let start: usize = if c0 == '-' || c0 == '+' {
        1
    } else {
        0
    };
    let b = t.substring_char(start, len);
    proof {
        assert(b@ =~= t@.subrange(sign_skip(t@), t@.len() as int));
    }
    check_float_body(b)
}

} // verus!
