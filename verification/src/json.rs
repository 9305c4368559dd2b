//! The JSON surface syntax of the mirror manifest.
//!
//! The specification side is a family of `spec` functions over a `Seq<char>`
//! and a cursor, each returning where the cursor stands after the recognized
//! construct (`None` on a syntax error).  The executable side mirrors those
//! functions step for step, and every executable function is proved to return
//! exactly what its specification-level counterpart says.
//!
//! Only strings are ever *kept* at this layer; every other JSON value can
//! merely be *skipped*, which is all the manifest needs for fields it does
//! not know.

use vstd::prelude::*;

verus! {

// ------------------------------------------------------------------
// Character classes
// ------------------------------------------------------------------

/// The four whitespace characters JSON allows between tokens.
pub open spec fn is_json_ws(c: char) -> bool {
    c == ' ' || c == '\t' || c == '\n' || c == '\r'
}

/// An ASCII decimal digit.
pub open spec fn is_digit(c: char) -> bool {
    48 <= c as u32 && c as u32 <= 57
}

/// The value of a hexadecimal digit, or -1 for any other character.
pub open spec fn hex_digit_value(c: char) -> int {
    if 48 <= c as u32 && c as u32 <= 57 {
        c as u32 - 48
    } else if 97 <= c as u32 && c as u32 <= 102 {
        c as u32 - 87
    } else if 65 <= c as u32 && c as u32 <= 70 {
        c as u32 - 55
    } else {
        -1
    }
}

pub open spec fn is_hex_digit(c: char) -> bool {
    hex_digit_value(c) >= 0
}

fn is_ws(c: char) -> (r: bool)
    ensures
        r == is_json_ws(c),
{
    c == ' ' || c == '\t' || c == '\n' || c == '\r'
}

fn digit(c: char) -> (r: bool)
    ensures
        r == is_digit(c),
{
    let u = c as u32;
    48 <= u && u <= 57
}

fn hex_val(c: char) -> (r: i32)
    ensures
        r as int == hex_digit_value(c),
{
    let u = c as u32;
    if 48 <= u && u <= 57 {
        (u - 48) as i32
    } else if 97 <= u && u <= 102 {
        (u - 87) as i32
    } else if 65 <= u && u <= 70 {
        (u - 55) as i32
    } else {
        -1
    }
}

// ------------------------------------------------------------------
// Whitespace and digit runs
// ------------------------------------------------------------------

/// The first position at or after `i` holding no JSON whitespace.
pub open spec fn spec_skip_ws(s: Seq<char>, i: int) -> int
    decreases s.len() - i,
{
    if 0 <= i && i < s.len() && is_json_ws(s[i]) {
        spec_skip_ws(s, i + 1)
    } else {
        i
    }
}

/// The first position at or after `i` holding no decimal digit.
pub open spec fn spec_skip_digits(s: Seq<char>, i: int) -> int
    decreases s.len() - i,
{
    if 0 <= i && i < s.len() && is_digit(s[i]) {
        spec_skip_digits(s, i + 1)
    } else {
        i
    }
}

pub(crate) fn skip_ws(s: &Vec<char>, i: usize) -> (r: usize)
    requires
        i <= s@.len(),
    ensures
        r as int == spec_skip_ws(s@, i as int),
        i <= r && r <= s@.len(),
{
    let mut j = i;
    while j < s.len() && is_ws(s[j])
        invariant
            i <= j && j <= s@.len(),
            spec_skip_ws(s@, i as int) == spec_skip_ws(s@, j as int),
        decreases s@.len() - j,
    {
        j = j + 1;
    }
    j
}

pub(crate) fn skip_digits(s: &Vec<char>, i: usize) -> (r: usize)
    requires
        i <= s@.len(),
    ensures
        r as int == spec_skip_digits(s@, i as int),
        i <= r && r <= s@.len(),
{
    let mut j = i;
    while j < s.len() && digit(s[j])
        invariant
            i <= j && j <= s@.len(),
            spec_skip_digits(s@, i as int) == spec_skip_digits(s@, j as int),
        decreases s@.len() - j,
    {
        j = j + 1;
    }
    j
}

// ------------------------------------------------------------------
// Numbers (only ever skipped)
// ------------------------------------------------------------------

/// An optional exponent part (`e`/`E`, optional sign, one or more digits).
pub open spec fn spec_skip_exponent(s: Seq<char>, i: int) -> Option<int> {
    if 0 <= i && i < s.len() && (s[i] == 'e' || s[i] == 'E') {
        let j = if i + 1 < s.len() && (s[i + 1] == '+' || s[i + 1] == '-') {
            i + 2
        } else {
            i + 1
        };
        if j < s.len() && is_digit(s[j]) {
            Some(spec_skip_digits(s, j))
        } else {
            None
        }
    } else {
        Some(i)
    }
}

/// An optional fraction part (`.` and one or more digits), then the exponent.
pub open spec fn spec_skip_fraction(s: Seq<char>, i: int) -> Option<int> {
    if 0 <= i && i < s.len() && s[i] == '.' {
        if i + 1 < s.len() && is_digit(s[i + 1]) {
            spec_skip_exponent(s, spec_skip_digits(s, i + 1))
        } else {
            None
        }
    } else {
        spec_skip_exponent(s, i)
    }
}

/// A full JSON number starting at `i`: optional minus, integer part with no
/// leading zero, fraction, exponent.
pub open spec fn spec_skip_number(s: Seq<char>, i: int) -> Option<int> {
    if i < 0 || i >= s.len() {
        None
    } else {
        let j = if s[i] == '-' {
            i + 1
        } else {
            i
        };
        if j >= s.len() {
            None
        } else if s[j] == '0' {
            spec_skip_fraction(s, j + 1)
        } else if is_digit(s[j]) {
            spec_skip_fraction(s, spec_skip_digits(s, j))
        } else {
            None
        }
    }
}

fn skip_exponent(s: &Vec<char>, i: usize) -> (r: Option<usize>)
    requires
        i <= s@.len(),
    ensures
        match r {
            Some(j) => spec_skip_exponent(s@, i as int) == Some(j as int) && i <= j && j
                <= s@.len(),
            None => spec_skip_exponent(s@, i as int) is None,
        },
{
    if i < s.len() && (s[i] == 'e' || s[i] == 'E') {
        let j = if i + 1 < s.len() && (s[i + 1] == '+' || s[i + 1] == '-') {
            i + 2
        } else {
            i + 1
        };
        if j < s.len() && digit(s[j]) {
            Some(skip_digits(s, j))
        } else {
            None
        }
    } else {
        Some(i)
    }
}

fn skip_fraction(s: &Vec<char>, i: usize) -> (r: Option<usize>)
    requires
        i <= s@.len(),
    ensures
        match r {
            Some(j) => spec_skip_fraction(s@, i as int) == Some(j as int) && i <= j && j
                <= s@.len(),
            None => spec_skip_fraction(s@, i as int) is None,
        },
{
    if i < s.len() && s[i] == '.' {
        if i + 1 < s.len() && digit(s[i + 1]) {
            skip_exponent(s, skip_digits(s, i + 1))
        } else {
            None
        }
    } else {
        skip_exponent(s, i)
    }
}

pub(crate) fn skip_number(s: &Vec<char>, i: usize) -> (r: Option<usize>)
    requires
        i <= s@.len(),
    ensures
        match r {
            Some(j) => spec_skip_number(s@, i as int) == Some(j as int) && i < j && j <= s@.len(),
            None => spec_skip_number(s@, i as int) is None,
        },
{
    if i >= s.len() {
        return None;
    }
    let j = if s[i] == '-' {
        i + 1
    } else {
        i
    };
    if j >= s.len() {
        None
    } else if s[j] == '0' {
        skip_fraction(s, j + 1)
    } else if digit(s[j]) {
        let k = skip_digits(s, j + 1);
        skip_fraction(s, k)
    } else {
        None
    }
}

// ------------------------------------------------------------------
// Strings
// ------------------------------------------------------------------

/// The value of four hexadecimal digits starting at `i`.
pub open spec fn spec_hex4(s: Seq<char>, i: int) -> Option<int> {
    if i < 0 || i + 4 > s.len() {
        None
    } else if is_hex_digit(s[i]) && is_hex_digit(s[i + 1]) && is_hex_digit(s[i + 2])
        && is_hex_digit(s[i + 3]) {
        Some(
            4096 * hex_digit_value(s[i]) + 256 * hex_digit_value(s[i + 1]) + 16 * hex_digit_value(
                s[i + 2],
            ) + hex_digit_value(s[i + 3]),
        )
    } else {
        None
    }
}

/// A `\u` escape starting right after the `u`: either one code unit outside
/// the surrogate range, or a surrogate pair written as two `\u` escapes.
pub open spec fn spec_parse_unicode_escape(s: Seq<char>, i: int) -> Option<(char, int)> {
    match spec_hex4(s, i) {
        None => None,
        Some(n1) => {
            if 0xD800 <= n1 && n1 <= 0xDBFF {
                if i + 6 <= s.len() && s[i + 4] == '\\' && s[i + 5] == 'u' {
                    match spec_hex4(s, i + 6) {
                        None => None,
                        Some(n2) => {
                            if 0xDC00 <= n2 && n2 <= 0xDFFF {
                                Some(
                                    (
                                        (0x10000 + (n1 - 0xD800) * 0x400 + (n2 - 0xDC00)) as char,
                                        i + 10,
                                    ),
                                )
                            } else {
                                None
                            }
                        },
                    }
                } else {
                    None
                }
            } else if 0xDC00 <= n1 && n1 <= 0xDFFF {
                None
            } else {
                Some((n1 as char, i + 4))
            }
        },
    }
}

/// One escape sequence, starting right after the backslash.
pub open spec fn spec_parse_escape(s: Seq<char>, i: int) -> Option<(char, int)> {
    if i < 0 || i >= s.len() {
        None
    } else if s[i] == '"' {
        Some(('"', i + 1))
    } else if s[i] == '\\' {
        Some(('\\', i + 1))
    } else if s[i] == '/' {
        Some(('/', i + 1))
    } else if s[i] == 'b' {
        Some(('\u{0008}', i + 1))
    } else if s[i] == 'f' {
        Some(('\u{000C}', i + 1))
    } else if s[i] == 'n' {
        Some(('\n', i + 1))
    } else if s[i] == 'r' {
        Some(('\r', i + 1))
    } else if s[i] == 't' {
        Some(('\t', i + 1))
    } else if s[i] == 'u' {
        spec_parse_unicode_escape(s, i + 1)
    } else {
        None
    }
}

/// The characters of a string body starting at `i` (right after the opening
/// quote), up to and including the closing quote.  Raw control characters are
/// refused, as JSON demands.
pub open spec fn spec_parse_string_body(s: Seq<char>, i: int) -> Option<(Seq<char>, int)>
    decreases s.len() - i,
{
    if i < 0 || i >= s.len() {
        None
    } else if s[i] == '"' {
        Some((Seq::empty(), i + 1))
    } else if s[i] == '\\' {
        match spec_parse_escape(s, i + 1) {
            None => None,
            Some((c, j)) => {
                if j <= i + 1 || s.len() < j {
                    // escapes always advance and stay in bounds; this branch
                    // only keeps the recursion visibly well-founded
                    None
                } else {
                    match spec_parse_string_body(s, j) {
                        None => None,
                        Some((rest, k)) => Some((seq![c] + rest, k)),
                    }
                }
            },
        }
    } else if (s[i] as u32) < 0x20 {
        None
    } else {
        match spec_parse_string_body(s, i + 1) {
            None => None,
            Some((rest, k)) => Some((seq![s[i]] + rest, k)),
        }
    }
}

/// A complete JSON string starting at `i`: opening quote, body, closing quote.
pub open spec fn spec_parse_string(s: Seq<char>, i: int) -> Option<(Seq<char>, int)> {
    if 0 <= i && i < s.len() && s[i] == '"' {
        spec_parse_string_body(s, i + 1)
    } else {
        None
    }
}

/// String parsing loses and changes nothing: a quoted run of characters that
/// need no escaping parses back to exactly those characters, and ends right
/// after the closing quote.
pub proof fn lemma_parse_plain_string(s: Seq<char>, i: int, t: Seq<char>)
    requires
        0 <= i,
        i + t.len() + 2 <= s.len(),
        s[i] == '"',
        s.subrange(i + 1, i + 1 + t.len()) == t,
        s[i + 1 + t.len()] == '"',
        forall|k: int| 0 <= k < t.len() ==> t[k] != '"' && t[k] != '\\' && (t[k] as u32) >= 0x20,
    ensures
        spec_parse_string(s, i) == Some((t, i + t.len() + 2)),
{
    assert forall|k: int| 0 <= k < t.len() implies s[i + 1 + k] == t[k] by {
        assert(t[k] == s.subrange(i + 1, i + 1 + t.len())[k]);
    }
    lemma_parse_plain_string_body(s, i + 1, t);
}

proof fn lemma_parse_plain_string_body(s: Seq<char>, i: int, t: Seq<char>)
    requires
        0 <= i,
        i + t.len() + 1 <= s.len(),
        forall|k: int| 0 <= k < t.len() ==> s[i + k] == t[k],
        s[i + t.len()] == '"',
        forall|k: int| 0 <= k < t.len() ==> t[k] != '"' && t[k] != '\\' && (t[k] as u32) >= 0x20,
    ensures
        spec_parse_string_body(s, i) == Some((t, i + t.len() + 1)),
    decreases t.len(),
{
    if t.len() == 0 {
        assert(t =~= Seq::<char>::empty());
    } else {
        let t2 = t.subrange(1, t.len() as int);
        assert(s[i + 0] == t[0]);
        assert forall|k: int| 0 <= k < t2.len() implies s[i + 1 + k] == t2[k] by {
            assert(t2[k] == t[k + 1]);
            assert(s[i + (k + 1)] == t[k + 1]);
        }
        assert forall|k: int|
            0 <= k < t2.len() implies t2[k] != '"' && t2[k] != '\\' && (t2[k] as u32) >= 0x20 by {
            assert(t2[k] == t[k + 1]);
        }
        lemma_parse_plain_string_body(s, i + 1, t2);
        assert(seq![t[0]] + t2 =~= t);
    }
}

/// Prepending an already-read prefix to the outcome of a string body parse;
/// the shape of the loop invariant in [`parse_string`].
pub open spec fn spec_string_body_with_prefix(s: Seq<char>, i: int, prefix: Seq<char>) -> Option<
    (Seq<char>, int),
> {
    match spec_parse_string_body(s, i) {
        None => None,
        Some((rest, k)) => Some((prefix + rest, k)),
    }
}

fn parse_unicode_escape(s: &Vec<char>, i: usize) -> (r: Option<(char, usize)>)
    requires
        i <= s@.len(),
    ensures
        match r {
            Some((c, j)) => spec_parse_unicode_escape(s@, i as int) == Some((c, j as int)) && i < j
                && j <= s@.len(),
            None => spec_parse_unicode_escape(s@, i as int) is None,
        },
{
    match hex4(s, i) {
        None => None,
        Some(n1) => {
            if 0xD800 <= n1 && n1 <= 0xDBFF {
                if s.len() - i >= 6 && s[i + 4] == '\\' && s[i + 5] == 'u' {
                    match hex4(s, i + 6) {
                        None => None,
                        Some(n2) => {
                            if 0xDC00 <= n2 && n2 <= 0xDFFF {
                                let code: u32 = 0x10000 + (n1 - 0xD800) * 0x400 + (n2 - 0xDC00);
                                assert(crate::text::is_scalar_value(code));
                                let n = s.len();
                                assert(i + 10 <= n);
                                if let Some(c) = crate::text::char_from_u32(code) {
                                    Some((c, i + 10))
                                } else {
                                    assert(false);
                                    None
                                }
                            } else {
                                None
                            }
                        },
                    }
                } else {
                    None
                }
            } else if 0xDC00 <= n1 && n1 <= 0xDFFF {
                None
            } else {
                assert(crate::text::is_scalar_value(n1));
                let n = s.len();
                assert(i + 4 <= n);
                if let Some(c) = crate::text::char_from_u32(n1) {
                    Some((c, i + 4))
                } else {
                    assert(false);
                    None
                }
            }
        },
    }
}

fn hex4(s: &Vec<char>, i: usize) -> (r: Option<u32>)
    requires
        i <= s@.len(),
    ensures
        match r {
            Some(n) => spec_hex4(s@, i as int) == Some(n as int) && n <= 0xFFFF && i + 4
                <= s@.len(),
            None => spec_hex4(s@, i as int) is None,
        },
{
    if s.len() - i < 4 {
        return None;
    }
    let a = hex_val(s[i]);
    let b = hex_val(s[i + 1]);
    let c = hex_val(s[i + 2]);
    let d = hex_val(s[i + 3]);
    if a >= 0 && b >= 0 && c >= 0 && d >= 0 {
        Some((4096 * a + 256 * b + 16 * c + d) as u32)
    } else {
        None
    }
}

fn parse_escape(s: &Vec<char>, i: usize) -> (r: Option<(char, usize)>)
    requires
        i <= s@.len(),
    ensures
        match r {
            Some((c, j)) => spec_parse_escape(s@, i as int) == Some((c, j as int)) && i < j && j
                <= s@.len(),
            None => spec_parse_escape(s@, i as int) is None,
        },
{
    if i >= s.len() {
        return None;
    }
    let c = s[i];
    if c == '"' {
        Some(('"', i + 1))
    } else if c == '\\' {
        Some(('\\', i + 1))
    } else if c == '/' {
        Some(('/', i + 1))
    } else if c == 'b' {
        Some(('\u{0008}', i + 1))
    } else if c == 'f' {
        Some(('\u{000C}', i + 1))
    } else if c == 'n' {
        Some(('\n', i + 1))
    } else if c == 'r' {
        Some(('\r', i + 1))
    } else if c == 't' {
        Some(('\t', i + 1))
    } else if c == 'u' {
        parse_unicode_escape(s, i + 1)
    } else {
        None
    }
}

/// Reads one JSON string and hands back its decoded characters.
pub(crate) fn parse_string(s: &Vec<char>, i: usize) -> (r: Option<(Vec<char>, usize)>)
    requires
        i <= s@.len(),
    ensures
        match r {
            Some((t, j)) => spec_parse_string(s@, i as int) == Some((t@, j as int)) && i < j && j
                <= s@.len(),
            None => spec_parse_string(s@, i as int) is None,
        },
{
    if i >= s.len() || s[i] != '"' {
        return None;
    }
    let mut acc: Vec<char> = Vec::new();
    let mut j: usize = i + 1;
    loop
        invariant
            i + 1 <= j && j <= s@.len(),
            spec_parse_string(s@, i as int) == spec_string_body_with_prefix(s@, j as int, acc@),
        decreases s@.len() - j,
    {
        if j >= s.len() {
            return None;
        }
        let c = s[j];
        if c == '"' {
            proof {
                assert(acc@ + Seq::<char>::empty() =~= acc@);
            }
            return Some((acc, j + 1));
        } else if c == '\\' {
            match parse_escape(s, j + 1) {
                None => {
                    return None;
                },
                Some((ec, j2)) => {
                    proof {
                        match spec_parse_string_body(s@, j2 as int) {
                            Some((rest, k)) => {
                                assert(acc@ + (seq![ec] + rest) =~= acc@.push(ec) + rest);
                            },
                            None => {},
                        }
                    }
                    acc.push(ec);
                    j = j2;
                },
            }
        } else if (c as u32) < 0x20 {
            return None;
        } else {
            proof {
                match spec_parse_string_body(s@, j as int + 1) {
                    Some((rest, k)) => {
                        assert(acc@ + (seq![c] + rest) =~= acc@.push(c) + rest);
                    },
                    None => {},
                }
            }
            acc.push(c);
            j = j + 1;
        }
    }
}

// ------------------------------------------------------------------
// Skipping arbitrary values
// ------------------------------------------------------------------

/// Recognizes one complete JSON value starting at `i` and yields the position
/// after it.  `fuel` bounds how deeply arrays and objects may nest; one unit
/// is spent per level, so any fuel of at least the text length is enough.
pub open spec fn spec_skip_value(s: Seq<char>, i: int, fuel: nat) -> Option<int>
    decreases fuel, s.len() - i, 0int,
{
    if i < 0 || i >= s.len() {
        None
    } else if s[i] == '"' {
        match spec_parse_string(s, i) {
            None => None,
            Some((t, j)) => Some(j),
        }
    } else if s[i] == '-' || is_digit(s[i]) {
        spec_skip_number(s, i)
    } else if s[i] == 't' {
        if i + 4 <= s.len() && s[i + 1] == 'r' && s[i + 2] == 'u' && s[i + 3] == 'e' {
            Some(i + 4)
        } else {
            None
        }
    } else if s[i] == 'f' {
        if i + 5 <= s.len() && s[i + 1] == 'a' && s[i + 2] == 'l' && s[i + 3] == 's' && s[i + 4]
            == 'e' {
            Some(i + 5)
        } else {
            None
        }
    } else if s[i] == 'n' {
        if i + 4 <= s.len() && s[i + 1] == 'u' && s[i + 2] == 'l' && s[i + 3] == 'l' {
            Some(i + 4)
        } else {
            None
        }
    } else if s[i] == '[' {
        if fuel == 0 {
            None
        } else {
            let j = spec_skip_ws(s, i + 1);
            if j < s.len() && s[j] == ']' {
                Some(j + 1)
            } else if i < j && j <= s.len() {
                spec_skip_array_items(s, j, (fuel - 1) as nat)
            } else {
                None
            }
        }
    } else if s[i] == '{' {
        if fuel == 0 {
            None
        } else {
            let j = spec_skip_ws(s, i + 1);
            if j < s.len() && s[j] == '}' {
                Some(j + 1)
            } else if i < j && j <= s.len() {
                spec_skip_object_members(s, j, (fuel - 1) as nat)
            } else {
                None
            }
        }
    } else {
        None
    }
}

/// One or more array items starting at `i`, up to and including the `]`.
pub open spec fn spec_skip_array_items(s: Seq<char>, i: int, fuel: nat) -> Option<int>
    decreases fuel, s.len() - i, 1int,
{
    if i < 0 || i > s.len() {
        None
    } else {
        match spec_skip_value(s, i, fuel) {
            None => None,
            Some(j0) => {
                let j = spec_skip_ws(s, j0);
                if j < s.len() && s[j] == ',' {
                    let k = spec_skip_ws(s, j + 1);
                    if i < k && k <= s.len() {
                        spec_skip_array_items(s, k, fuel)
                    } else {
                        None
                    }
                } else if j < s.len() && s[j] == ']' {
                    Some(j + 1)
                } else {
                    None
                }
            },
        }
    }
}

/// One or more object members starting at `i` (at a key), up to and including
/// the `}`.
pub open spec fn spec_skip_object_members(s: Seq<char>, i: int, fuel: nat) -> Option<int>
    decreases fuel, s.len() - i, 2int,
{
    if i < 0 || i > s.len() {
        None
    } else {
        match spec_parse_string(s, i) {
            None => None,
            Some((key, j0)) => {
                let j = spec_skip_ws(s, j0);
                if j < s.len() && s[j] == ':' {
                    let k = spec_skip_ws(s, j + 1);
                    if i < k && k <= s.len() {
                        match spec_skip_value(s, k, fuel) {
                            None => None,
                            Some(m0) => {
                                let m = spec_skip_ws(s, m0);
                                if m < s.len() && s[m] == ',' {
                                    let p = spec_skip_ws(s, m + 1);
                                    if i < p && p <= s.len() {
                                        spec_skip_object_members(s, p, fuel)
                                    } else {
                                        None
                                    }
                                } else if m < s.len() && s[m] == '}' {
                                    Some(m + 1)
                                } else {
                                    None
                                }
                            },
                        }
                    } else {
                        None
                    }
                } else {
                    None
                }
            },
        }
    }
}

pub(crate) fn skip_value(s: &Vec<char>, i: usize, fuel: usize) -> (r: Option<usize>)
    requires
        i <= s@.len(),
    ensures
        match r {
            Some(j) => spec_skip_value(s@, i as int, fuel as nat) == Some(j as int) && i < j && j
                <= s@.len(),
            None => spec_skip_value(s@, i as int, fuel as nat) is None,
        },
    decreases fuel, s@.len() - i, 0int,
{
    if i >= s.len() {
        return None;
    }
    let c = s[i];
    if c == '"' {
        match parse_string(s, i) {
            None => None,
            Some((t, j)) => Some(j),
        }
    } else if c == '-' || digit(c) {
        skip_number(s, i)
    } else if c == 't' {
        if s.len() - i >= 4 && s[i + 1] == 'r' && s[i + 2] == 'u' && s[i + 3] == 'e' {
            Some(i + 4)
        } else {
            None
        }
    } else if c == 'f' {
        if s.len() - i >= 5 && s[i + 1] == 'a' && s[i + 2] == 'l' && s[i + 3] == 's' && s[i + 4]
            == 'e' {
            Some(i + 5)
        } else {
            None
        }
    } else if c == 'n' {
        if s.len() - i >= 4 && s[i + 1] == 'u' && s[i + 2] == 'l' && s[i + 3] == 'l' {
            Some(i + 4)
        } else {
            None
        }
    } else if c == '[' {
        if fuel == 0 {
            return None;
        }
        let j = skip_ws(s, i + 1);
        if j < s.len() && s[j] == ']' {
            Some(j + 1)
        } else {
            skip_array_items(s, j, fuel - 1)
        }
    } else if c == '{' {
        if fuel == 0 {
            return None;
        }
        let j = skip_ws(s, i + 1);
        if j < s.len() && s[j] == '}' {
            Some(j + 1)
        } else {
            skip_object_members(s, j, fuel - 1)
        }
    } else {
        None
    }
}

fn skip_array_items(s: &Vec<char>, i: usize, fuel: usize) -> (r: Option<usize>)
    requires
        i <= s@.len(),
    ensures
        match r {
            Some(j) => spec_skip_array_items(s@, i as int, fuel as nat) == Some(j as int) && i < j
                && j <= s@.len(),
            None => spec_skip_array_items(s@, i as int, fuel as nat) is None,
        },
    decreases fuel, s@.len() - i, 1int,
{
    match skip_value(s, i, fuel) {
        None => None,
        Some(j0) => {
            let j = skip_ws(s, j0);
            if j < s.len() && s[j] == ',' {
                let k = skip_ws(s, j + 1);
                if i < k {
                    skip_array_items(s, k, fuel)
                } else {
                    None
                }
            } else if j < s.len() && s[j] == ']' {
                Some(j + 1)
            } else {
                None
            }
        },
    }
}

fn skip_object_members(s: &Vec<char>, i: usize, fuel: usize) -> (r: Option<usize>)
    requires
        i <= s@.len(),
    ensures
        match r {
            Some(j) => spec_skip_object_members(s@, i as int, fuel as nat) == Some(j as int) && i
                < j && j <= s@.len(),
            None => spec_skip_object_members(s@, i as int, fuel as nat) is None,
        },
    decreases fuel, s@.len() - i, 2int,
{
    match parse_string(s, i) {
        None => None,
        Some((key, j0)) => {
            let j = skip_ws(s, j0);
            if j < s.len() && s[j] == ':' {
                let k = skip_ws(s, j + 1);
                if i < k {
                    match skip_value(s, k, fuel) {
                        None => None,
                        Some(m0) => {
                            let m = skip_ws(s, m0);
                            if m < s.len() && s[m] == ',' {
                                let p = skip_ws(s, m + 1);
                                if i < p {
                                    skip_object_members(s, p, fuel)
                                } else {
                                    None
                                }
                            } else if m < s.len() && s[m] == '}' {
                                Some(m + 1)
                            } else {
                                None
                            }
                        },
                    }
                } else {
                    None
                }
            } else {
                None
            }
        },
    }
}

} // verus!
