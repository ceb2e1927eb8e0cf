//! The lexical form of the string literals that the library decodes, and
//! their values: a plain string literal whose escapes are all well formed, or a
//! raw string literal, each with an optional identifier suffix. A carriage
//! return is accepted in neither (the compiler normalises line ends before it
//! reads a literal).
use vstd::prelude::*;
use vstd::string::StrSliceExecFns;

verus! {

pub open spec fn is_hex_digit(c: char) -> bool {
    ('0' <= c && c <= '9') || ('a' <= c && c <= 'f') || ('A' <= c && c <= 'F')
}

pub open spec fn hex_digit_value(c: char) -> int {
    if '0' <= c && c <= '9' {
        c as int - '0' as int
    } else if 'a' <= c && c <= 'f' {
        c as int - 'a' as int + 10
    } else {
        c as int - 'A' as int + 10
    }
}

/// The number that the hexadecimal digits `s[i..j]` spell.
pub open spec fn hex_value(s: Seq<char>, i: int, j: int) -> int
    decreases j - i,
{
    if j <= i {
        0
    } else {
        hex_value(s, i, j - 1) * 16 + hex_digit_value(s[j - 1])
    }
}

/// How many `#` stand in a row from position `i` of `s`.
pub open spec fn hash_run(s: Seq<char>, i: int) -> nat
    decreases s.len() - i,
{
    if 0 <= i < s.len() && s[i] == '#' {
        1 + hash_run(s, i + 1)
    } else {
        0
    }
}

/// Whether `v` is the code of a character: at most `0x10FFFF`, and not a
/// surrogate.
pub open spec fn is_char_code(v: int) -> bool {
    0 <= v <= 0x10FFFF && !(0xD800 <= v <= 0xDFFF)
}

/// Whether `c` is a simple escape after a backslash: `n`, `r`, `t`, `\`, `0`,
/// `'` or `"`.
pub open spec fn is_simple_escape(c: char) -> bool {
    c == 'n' || c == 'r' || c == 't' || c == '\\' || c == '0' || c == '\'' || c == '"'
}

/// The character that the simple escape `c` stands for.
pub open spec fn simple_escape_value(c: char) -> char {
    if c == 'n' {
        '\n'
    } else if c == 'r' {
        '\r'
    } else if c == 't' {
        '\t'
    } else if c == '0' {
        '\0'
    } else {
        c
    }
}

/// Reading the digits of a `\u{..}` escape from position `i`, after `digits`
/// digits of value `v`: hexadecimal digits, at most six, with `_` allowed after
/// the first; then `}`. The position after the `}` and the value, if the
/// escape is well formed.
pub open spec fn unicode_end(s: Seq<char>, i: int, digits: int, v: int) -> Option<(int, int)>
    decreases s.len() - i,
{
    if i < 0 || i >= s.len() {
        None
    } else if is_hex_digit(s[i]) {
        if digits >= 6 {
            None
        } else {
            unicode_end(s, i + 1, digits + 1, v * 16 + hex_digit_value(s[i]))
        }
    } else if s[i] == '_' && digits > 0 {
        unicode_end(s, i + 1, digits, v)
    } else if s[i] == '}' && digits > 0 {
        Some((i + 1, v))
    } else {
        None
    }
}

/// The position after the closing quote of a plain string literal whose
/// opening quote stands before position `i`, or `-1` where there is none: up
/// to that quote stand characters other than a carriage return, and escapes:
/// the simple ones, a backslash before a line feed, `\x` with two hexadecimal
/// digits of a value below `0x80`, and `\u{..}` that spells a character code.
pub open spec fn cooked_end(s: Seq<char>, i: int) -> int
    decreases s.len() - i,
{
    if i < 0 || i >= s.len() {
        -1
    } else if s[i] == '"' {
        i + 1
    } else if s[i] == '\r' {
        -1
    } else if s[i] == '\\' {
        if i + 1 >= s.len() {
            -1
        } else {
            let e = s[i + 1];
            if is_simple_escape(e) || e == '\n' {
                cooked_end(s, i + 2)
            } else if e == 'x' {
                if i + 3 < s.len() && '0' <= s[i + 2] && s[i + 2] <= '7' && is_hex_digit(s[i + 3]) {
                    cooked_end(s, i + 4)
                } else {
                    -1
                }
            } else if e == 'u' && i + 2 < s.len() && s[i + 2] == '{' {
                match unicode_end(s, i + 3, 0, 0) {
                    Some((j, v)) => if i < j <= s.len() && is_char_code(v) {
                        cooked_end(s, j)
                    } else {
                        -1
                    },
                    None => -1,
                }
            } else {
                -1
            }
        }
    } else {
        cooked_end(s, i + 1)
    }
}

/// The first position from `i` on that is not a space, a tab or a line feed.
pub open spec fn skip_whitespace(s: Seq<char>, i: int) -> int
    decreases s.len() - i,
{
    if 0 <= i < s.len() && (s[i] == ' ' || s[i] == '\t' || s[i] == '\n') {
        skip_whitespace(s, i + 1)
    } else {
        i
    }
}

/// The value of a plain string literal from position `i` up to its closing
/// quote: each character stands for itself, each escape for the character it
/// names, and a backslash before a line feed for nothing, together with the
/// whitespace that follows it.
pub open spec fn cooked_value(s: Seq<char>, i: int) -> Seq<char>
    decreases s.len() - i,
{
    if i < 0 || i >= s.len() || s[i] == '"' || s[i] == '\r' {
        Seq::empty()
    } else if s[i] == '\\' {
        if i + 1 >= s.len() {
            Seq::empty()
        } else {
            let e = s[i + 1];
            if is_simple_escape(e) {
                seq![simple_escape_value(e)] + cooked_value(s, i + 2)
            } else if e == '\n' {
                let j = skip_whitespace(s, i + 2);
                if i < j <= s.len() {
                    cooked_value(s, j)
                } else {
                    Seq::empty()
                }
            } else if e == 'x' && i + 3 < s.len() {
                seq![hex_value(s, i + 2, i + 4) as char] + cooked_value(s, i + 4)
            } else if e == 'u' {
                match unicode_end(s, i + 3, 0, 0) {
                    Some((j, v)) => if i < j <= s.len() {
                        seq![v as char] + cooked_value(s, j)
                    } else {
                        Seq::empty()
                    },
                    None => Seq::empty(),
                }
            } else {
                Seq::empty()
            }
        }
    } else {
        seq![s[i]] + cooked_value(s, i + 1)
    }
}

/// The position after the closing delimiter of a raw string literal with `n`
/// hashes whose body starts at position `i`, or `-1` where there is none: the
/// body holds no carriage return and ends at the first quote followed by `n`
/// hashes.
pub open spec fn raw_end(s: Seq<char>, i: int, n: nat) -> int
    decreases s.len() - i,
{
    if i < 0 || i >= s.len() || s[i] == '\r' {
        -1
    } else if s[i] == '"' && hash_run(s, i + 1) >= n {
        i + 1 + n
    } else {
        raw_end(s, i + 1, n)
    }
}

/// The body of a raw string literal with `n` hashes that starts at position
/// `i`: its characters, as written.
pub open spec fn raw_value(s: Seq<char>, i: int, n: nat) -> Seq<char>
    decreases s.len() - i,
{
    if i < 0 || i >= s.len() || s[i] == '\r' || (s[i] == '"' && hash_run(s, i + 1) >= n) {
        Seq::empty()
    } else {
        seq![s[i]] + raw_value(s, i + 1, n)
    }
}

/// The position where the suffix of the string literal `s` starts, or `-1`
/// where `s` does not start with a string literal: a plain one, or a raw one
/// with at most 255 hashes.
pub open spec fn literal_end(s: Seq<char>) -> int {
    if s.len() == 0 {
        -1
    } else if s[0] == '"' {
        cooked_end(s, 1)
    } else if s[0] == 'r' {
        let n = hash_run(s, 1);
        if n <= 255 && 1 + n < s.len() && s[1 + n as int] == '"' {
            raw_end(s, 2 + n as int, n)
        } else {
            -1
        }
    } else {
        -1
    }
}

pub open spec fn is_suffix_char(c: char) -> bool {
    ('a' <= c && c <= 'z') || ('A' <= c && c <= 'Z') || ('0' <= c && c <= '9') || c == '_' || c >= '\u{80}'
}

/// Whether `s[i..]` can be a literal's suffix: empty, or letters, digits, `_`
/// and characters beyond ASCII that do not start with an ASCII digit.
pub open spec fn suffix_from(s: Seq<char>, i: int) -> bool {
    &&& (0 <= i < s.len() ==> !('0' <= s[i] && s[i] <= '9'))
    &&& forall|k: int| i <= k < s.len() ==> is_suffix_char(#[trigger] s[k])
}

/// Whether `s` is the text of a string literal that the library decodes: a
/// string literal followed by a suffix.
pub open spec fn str_literal_text(s: Seq<char>) -> bool {
    &&& literal_end(s) >= 0
    &&& suffix_from(s, literal_end(s))
}

/// Whether the suffix of the string literal `s` is ASCII alone.
pub open spec fn ascii_suffix(s: Seq<char>) -> bool {
    forall|k: int| literal_end(s) <= k < s.len() ==> #[trigger] s[k] <= '\u{7f}'
}

/// The value of the string literal `s`.
pub open spec fn string_value(s: Seq<char>) -> Seq<char> {
    if s[0] == '"' {
        cooked_value(s, 1)
    } else {
        let n = hash_run(s, 1);
        raw_value(s, 2 + n as int, n)
    }
}

fn chars_of(text: &str) -> (cs: Vec<char>)
    ensures
        cs@ == text@,
{
    let n = text.unicode_len();
    let mut cs: Vec<char> = Vec::new();
    let mut i: usize = 0;
    while i < n
        invariant
            n == text@.len(),
            i <= n,
            cs@ == text@.subrange(0, i as int),
        decreases n - i,
    {
        cs.push(text.get_char(i));
        i = i + 1;
    }
    cs
}

fn hex_digit_at(c: char) -> (res: bool)
    ensures
        res == is_hex_digit(c),
{
    ('0' <= c && c <= '9') || ('a' <= c && c <= 'f') || ('A' <= c && c <= 'F')
}

fn hex_digit_value_of(c: char) -> (d: u32)
    requires
        is_hex_digit(c),
    ensures
        d == hex_digit_value(c),
        d < 16,
{
    if '0' <= c && c <= '9' {
        (c as u32) - ('0' as u32)
    } else if 'a' <= c && c <= 'f' {
        (c as u32) - ('a' as u32) + 10
    } else {
        (c as u32) - ('A' as u32) + 10
    }
}

fn hash_run_at(s: &Vec<char>, i: usize) -> (k: usize)
    requires
        i <= s.len(),
    ensures
        k == hash_run(s@, i as int),
        i + k <= s.len(),
{
    let mut j: usize = i;
    while j < s.len() && s[j] == '#'
        invariant
            i <= j <= s.len(),
            hash_run(s@, i as int) == (j - i) + hash_run(s@, j as int),
        decreases s.len() - j,
    {
        j = j + 1;
    }
    j - i
}

/// Sixteen to the power `n`, for `n` up to six.
pub open spec fn hex_bound(n: int) -> int {
    if n <= 0 {
        1
    } else if n == 1 {
        0x10
    } else if n == 2 {
        0x100
    } else if n == 3 {
        0x1000
    } else if n == 4 {
        0x10000
    } else if n == 5 {
        0x100000
    } else {
        0x1000000
    }
}

fn unicode_end_at(s: &Vec<char>, start: usize) -> (res: Option<(usize, u32)>)
    requires
        start <= s.len(),
    ensures
        match res {
            Some((j, v)) => unicode_end(s@, start as int, 0, 0) == Some((j as int, v as int)),
            None => unicode_end(s@, start as int, 0, 0) is None,
        },
{
    let mut i: usize = start;
    let mut digits: usize = 0;
    let mut v: u32 = 0;
    loop
        invariant
            i <= s.len(),
            digits <= 6,
            v < hex_bound(digits as int),
            unicode_end(s@, start as int, 0, 0) == unicode_end(s@, i as int, digits as int, v as int),
        decreases s.len() - i,
    {
        if i >= s.len() {
            return None;
        }
        let c = s[i];
        if hex_digit_at(c) {
            if digits >= 6 {
                return None;
            }
            let d = hex_digit_value_of(c);
            v = v * 16 + d;
            digits = digits + 1;
        } else if c == '_' && digits > 0 {
        } else if c == '}' && digits > 0 {
            return Some((i + 1, v));
        } else {
            return None;
        }
        i = i + 1;
    }
}

fn suffix_at(s: &Vec<char>, i: usize) -> (res: bool)
    requires
        i <= s.len(),
    ensures
        res == suffix_from(s@, i as int),
{
    if i < s.len() && '0' <= s[i] && s[i] <= '9' {
        return false;
    }
    let mut j: usize = i;
    while j < s.len()
        invariant
            i <= j <= s.len(),
            forall|k: int| i <= k < j ==> is_suffix_char(#[trigger] s@[k]),
        decreases s.len() - j,
    {
        let c = s[j];
        if !(('a' <= c && c <= 'z') || ('A' <= c && c <= 'Z') || ('0' <= c && c <= '9') || c == '_' || c >= '\u{80}') {
            return false;
        }
        j = j + 1;
    }
    true
}

fn cooked_end_at(s: &Vec<char>, start: usize) -> (res: Option<usize>)
    requires
        start <= s.len(),
    ensures
        match res {
            Some(j) => cooked_end(s@, start as int) == j && j <= s.len(),
            None => cooked_end(s@, start as int) == -1,
        },
{
    let mut i: usize = start;
    loop
        invariant
            i <= s.len(),
            cooked_end(s@, start as int) == cooked_end(s@, i as int),
        decreases s.len() - i,
    {
        if i >= s.len() {
            return None;
        }
        let c = s[i];
        if c == '"' {
            return Some(i + 1);
        }
        if c == '\r' {
            return None;
        }
        if c == '\\' {
            if s.len() - i < 2 {
                return None;
            }
            let e = s[i + 1];
            if e == 'n' || e == 'r' || e == 't' || e == '\\' || e == '0' || e == '\'' || e == '"' || e == '\n' {
                i = i + 2;
            } else if e == 'x' {
                if s.len() - i > 3 && '0' <= s[i + 2] && s[i + 2] <= '7' && hex_digit_at(s[i + 3]) {
                    i = i + 4;
                } else {
                    return None;
                }
            } else if e == 'u' && s.len() - i > 2 && s[i + 2] == '{' {
                match unicode_end_at(s, i + 3) {
                    Some((j, v)) => {
                        if i < j && j <= s.len() && v <= 0x10FFFF && !(0xD800 <= v && v <= 0xDFFF) {
                            i = j;
                        } else {
                            return None;
                        }
                    },
                    None => {
                        return None;
                    },
                }
            } else {
                return None;
            }
        } else {
            i = i + 1;
        }
    }
}

fn raw_end_at(s: &Vec<char>, start: usize, n: usize) -> (res: Option<usize>)
    requires
        start <= s.len(),
    ensures
        match res {
            Some(j) => raw_end(s@, start as int, n as nat) == j && j <= s.len(),
            None => raw_end(s@, start as int, n as nat) == -1,
        },
{
    let mut i: usize = start;
    loop
        invariant
            i <= s.len(),
            raw_end(s@, start as int, n as nat) == raw_end(s@, i as int, n as nat),
        decreases s.len() - i,
    {
        if i >= s.len() {
            return None;
        }
        let c = s[i];
        if c == '\r' {
            return None;
        }
        if c == '"' {
            let h = hash_run_at(s, i + 1);
            if h >= n {
                return Some(i + 1 + n);
            }
        }
        i = i + 1;
    }
}

/// Whether `text` is the text of a string literal that the library decodes.
pub fn is_str_literal_text(text: &str) -> (res: bool)
    ensures
        res == str_literal_text(text@),
{
    let s = chars_of(text);
    let end = if s.len() == 0 {
        None
    } else if s[0] == '"' {
        cooked_end_at(&s, 1)
    } else if s[0] == 'r' {
        let n = hash_run_at(&s, 1);
        if n <= 255 && n < s.len() - 1 && s[1 + n] == '"' {
            raw_end_at(&s, 2 + n, n)
        } else {
            None
        }
    } else {
        None
    };
    match end {
        Some(j) => suffix_at(&s, j),
        None => false,
    }
}

} // verus!
