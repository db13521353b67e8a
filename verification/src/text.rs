//! Character classes and scanning primitives for the logcat line grammar.
//!
//! The five logcat formats are decomposed with three kinds of scans: a
//! maximal run of characters from a fixed class, the first occurrence of the
//! two-character separator `": "`, and the last occurrence of the
//! two-character opener `" ("`.  Each scan exists twice: as a recursive spec
//! function that defines it, and as an executable loop proved against it.
use vstd::prelude::*;

verus! {

/// The six single-letter logcat severity codes.
pub open spec fn is_level_char(c: char) -> bool {
    c == 'V' || c == 'D' || c == 'I' || c == 'W' || c == 'E' || c == 'F'
}

/// Executable test for a severity letter.
pub fn level_char(c: char) -> (r: bool)
    ensures
        r == is_level_char(c),
{
    c == 'V' || c == 'D' || c == 'I' || c == 'W' || c == 'E' || c == 'F'
}

pub open spec fn is_digit_char(c: char) -> bool {
    '0' <= c && c <= '9'
}

/// A character admitted inside a parenthesised process id: a digit or a space.
pub open spec fn is_pid_char(c: char) -> bool {
    is_digit_char(c) || c == ' '
}

/// ASCII whitespace as the line grammar accepts it between numeric fields.
pub open spec fn is_ws_char(c: char) -> bool {
    c == ' ' || c == '\t' || c == '\r' || c == '\x0b' || c == '\x0c'
}

/// A line containing a newline never matches any format: the free-text
/// fields of every format exclude it.
pub open spec fn newline_free(s: Seq<char>) -> bool {
    forall|i: int| 0 <= i < s.len() ==> s[i] != '\n'
}

/// The character classes a run scan can be asked for.
#[derive(Copy, Clone, Debug, PartialEq, Eq, Structural)]
pub enum CharClass {
    Digit,
    Pid,
    Ws,
}

pub open spec fn in_class(cls: CharClass, c: char) -> bool {
    match cls {
        CharClass::Digit => is_digit_char(c),
        CharClass::Pid => is_pid_char(c),
        CharClass::Ws => is_ws_char(c),
    }
}

/// Executable membership test for a character class.
pub fn class_char(cls: CharClass, c: char) -> (r: bool)
    ensures
        r == in_class(cls, c),
{
    match cls {
        CharClass::Digit => '0' <= c && c <= '9',
        CharClass::Pid => ('0' <= c && c <= '9') || c == ' ',
        CharClass::Ws => c == ' ' || c == '\t' || c == '\r' || c == '\x0b' || c == '\x0c',
    }
}

/// The end of the maximal run of `cls` characters that starts at `from`:
/// the first index at or after `from` whose character is outside the class,
/// or the length of `s` if the run reaches the end.
pub open spec fn run_end(cls: CharClass, s: Seq<char>, from: int) -> int
    decreases s.len() - from,
{
    if 0 <= from && from < s.len() && in_class(cls, s[from]) {
        run_end(cls, s, from + 1)
    } else {
        from
    }
}

/// A run known character by character determines `run_end` exactly.
pub proof fn lemma_run_end_exact(cls: CharClass, s: Seq<char>, from: int, to: int)
    requires
        0 <= from <= to <= s.len(),
        forall|i: int| from <= i < to ==> in_class(cls, s[i]),
        to < s.len() ==> !in_class(cls, s[to]),
    ensures
        run_end(cls, s, from) == to,
    decreases to - from,
{
    if from < to {
        lemma_run_end_exact(cls, s, from + 1, to);
    }
}

/// Executable maximal-run scan, proved to compute `run_end`.
pub fn scan_run(cls: CharClass, s: &str, from: usize) -> (r: usize)
    requires
        from <= s@.len(),
    ensures
        r == run_end(cls, s@, from as int),
        from <= r <= s@.len(),
{
    let n: usize = s.unicode_len();
    let mut i: usize = from;
    loop
        invariant
            from <= i <= n,
            n == s@.len(),
            run_end(cls, s@, from as int) == run_end(cls, s@, i as int),
        decreases n - i,
    {
        if i == n {
            return i;
        }
        let c: char = s.get_char(i);
        if !class_char(cls, c) {
            return i;
        }
        i = i + 1;
    }
}

/// The first index at or after `from` where the separator `": "` stands;
/// the length of `s` when there is none.
pub open spec fn colon_sep_from(s: Seq<char>, from: int) -> int
    decreases s.len() - from,
{
    if from < 0 || from + 2 > s.len() {
        s.len() as int
    } else if s[from] == ':' && s[from + 1] == ' ' {
        from
    } else {
        colon_sep_from(s, from + 1)
    }
}

pub proof fn lemma_colon_sep(s: Seq<char>, from: int)
    requires
        0 <= from <= s.len(),
    ensures
        from <= colon_sep_from(s, from) <= s.len(),
        colon_sep_from(s, from) < s.len() ==> colon_sep_from(s, from) + 2 <= s.len()
            && s[colon_sep_from(s, from)] == ':' && s[colon_sep_from(s, from) + 1] == ' ',
        forall|j: int| from <= j < colon_sep_from(s, from) && j + 2 <= s.len()
            ==> !((#[trigger] s[j]) == ':' && s[j + 1] == ' '),
    decreases s.len() - from,
{
    if from + 2 <= s.len() && !(s[from] == ':' && s[from + 1] == ' ') {
        lemma_colon_sep(s, from + 1);
    }
}

/// A separator whose position is known determines `colon_sep_from` exactly.
pub proof fn lemma_colon_sep_exact(s: Seq<char>, from: int, at: int)
    requires
        0 <= from <= at,
        at + 2 <= s.len(),
        s[at] == ':' && s[at + 1] == ' ',
        forall|j: int| from <= j < at ==> !((#[trigger] s[j]) == ':' && s[j + 1] == ' '),
    ensures
        colon_sep_from(s, from) == at,
    decreases at - from,
{
    if from < at {
        lemma_colon_sep_exact(s, from + 1, at);
    }
}

/// Executable scan for the first `": "` separator.
pub fn scan_colon_sep(s: &str, from: usize) -> (r: usize)
    requires
        from <= s@.len(),
    ensures
        r == colon_sep_from(s@, from as int),
        from <= r <= s@.len(),
{
    let n: usize = s.unicode_len();
    let mut i: usize = from;
    loop
        invariant
            from <= i <= n,
            n == s@.len(),
            colon_sep_from(s@, from as int) == colon_sep_from(s@, i as int),
        decreases n - i,
    {
        if n - i < 2 {
            assert(colon_sep_from(s@, i as int) == n);
            return n;
        }
        if s.get_char(i) == ':' && s.get_char(i + 1) == ' ' {
            return i;
        }
        i = i + 1;
    }
}

/// The greatest index `p` at or before `upto` where the opener `" ("`
/// stands; `-1` when there is none.
pub open spec fn last_paren_from(s: Seq<char>, upto: int) -> int
    decreases upto + 1,
{
    if upto < 0 {
        -1
    } else if upto + 1 < s.len() && s[upto] == ' ' && s[upto + 1] == '(' {
        upto
    } else {
        last_paren_from(s, upto - 1)
    }
}

pub proof fn lemma_last_paren(s: Seq<char>, upto: int)
    requires
        -1 <= upto < s.len(),
    ensures
        -1 <= last_paren_from(s, upto) <= upto,
        last_paren_from(s, upto) >= 0 ==> last_paren_from(s, upto) + 1 < s.len()
            && s[last_paren_from(s, upto)] == ' ' && s[last_paren_from(s, upto) + 1] == '(',
        forall|q: int| last_paren_from(s, upto) < q <= upto && q + 1 < s.len()
            ==> !((#[trigger] s[q]) == ' ' && s[q + 1] == '('),
    decreases upto + 1,
{
    if upto >= 0 && !(upto + 1 < s.len() && s[upto] == ' ' && s[upto + 1] == '(') {
        lemma_last_paren(s, upto - 1);
    }
}

/// An opener whose position is known determines `last_paren_from` exactly.
pub proof fn lemma_last_paren_exact(s: Seq<char>, upto: int, at: int)
    requires
        0 <= at <= upto,
        at + 1 < s.len(),
        s[at] == ' ' && s[at + 1] == '(',
        forall|q: int| at < q <= upto && q + 1 < s.len()
            ==> !((#[trigger] s[q]) == ' ' && s[q + 1] == '('),
    ensures
        last_paren_from(s, upto) == at,
    decreases upto - at,
{
    if at < upto {
        lemma_last_paren_exact(s, upto - 1, at);
    }
}

/// Executable scan for the last `" ("` opener at or before `upto`.
pub fn scan_last_paren(s: &str, upto: usize) -> (r: Option<usize>)
    requires
        upto < s@.len(),
    ensures
        match r {
            Some(p) => last_paren_from(s@, upto as int) == p,
            None => last_paren_from(s@, upto as int) == -1,
        },
{
    let n: usize = s.unicode_len();
    let mut p: usize = upto;
    loop
        invariant
            p <= upto < n,
            n == s@.len(),
            last_paren_from(s@, upto as int) == last_paren_from(s@, p as int),
        decreases p + 1,
    {
        if p + 1 < n && s.get_char(p) == ' ' && s.get_char(p + 1) == '(' {
            return Some(p);
        }
        if p == 0 {
            assert(last_paren_from(s@, 0) == last_paren_from(s@, -1));
            return None;
        }
        p = p - 1;
    }
}

/// True when `s` is exactly an 18-character logcat time stamp,
/// `MM-DD HH:MM:SS.mmm` with every letter standing for a digit.
pub open spec fn is_timestamp(s: Seq<char>) -> bool {
    &&& s.len() == 18
    &&& is_digit_char(s[0])
    &&& is_digit_char(s[1])
    &&& s[2] == '-'
    &&& is_digit_char(s[3])
    &&& is_digit_char(s[4])
    &&& s[5] == ' '
    &&& is_digit_char(s[6])
    &&& is_digit_char(s[7])
    &&& s[8] == ':'
    &&& is_digit_char(s[9])
    &&& is_digit_char(s[10])
    &&& s[11] == ':'
    &&& is_digit_char(s[12])
    &&& is_digit_char(s[13])
    &&& s[14] == '.'
    &&& is_digit_char(s[15])
    &&& is_digit_char(s[16])
    &&& is_digit_char(s[17])
}

fn digit_at(s: &str, i: usize) -> (r: bool)
    requires
        i < s@.len(),
    ensures
        r == is_digit_char(s@[i as int]),
{
    let c: char = s.get_char(i);
    '0' <= c && c <= '9'
}

/// Executable check that the first 18 characters of `s` form a time stamp.
pub fn timestamp_prefix(s: &str) -> (r: bool)
    requires
        18 <= s@.len(),
    ensures
        r == is_timestamp(s@.subrange(0, 18)),
{
    let r: bool = digit_at(s, 0) && digit_at(s, 1) && s.get_char(2) == '-'
        && digit_at(s, 3) && digit_at(s, 4) && s.get_char(5) == ' '
        && digit_at(s, 6) && digit_at(s, 7) && s.get_char(8) == ':'
        && digit_at(s, 9) && digit_at(s, 10) && s.get_char(11) == ':'
        && digit_at(s, 12) && digit_at(s, 13) && s.get_char(14) == '.'
        && digit_at(s, 15) && digit_at(s, 16) && digit_at(s, 17);
    proof {
        let t = s@.subrange(0, 18);
        assert(forall|i: int| 0 <= i < 18 ==> t[i] == s@[i]);
    }
    r
}

/// Executable check that `s` holds no newline character.
pub fn check_newline_free(s: &str) -> (r: bool)
    ensures
        r == newline_free(s@),
{
    let n: usize = s.unicode_len();
    let mut i: usize = 0;
    loop
        invariant
            0 <= i <= n,
            n == s@.len(),
            forall|j: int| 0 <= j < i ==> s@[j] != '\n',
        decreases n - i,
    {
        if i == n {
            return true;
        }
        if s.get_char(i) == '\n' {
            return false;
        }
        i = i + 1;
    }
}

/// `s` with every leading and trailing whitespace character removed.
pub open spec fn trim_ws(s: Seq<char>) -> Seq<char> {
    let a = run_end(CharClass::Ws, s, 0);
    let b = rev_ws_start(s, s.len() as int);
    if a >= b {
        Seq::empty()
    } else {
        s.subrange(a, b)
    }
}

/// The start of the maximal whitespace run that ends just before `upto`.
pub open spec fn rev_ws_start(s: Seq<char>, upto: int) -> int
    decreases upto,
{
    if 0 < upto && upto <= s.len() && is_ws_char(s[upto - 1]) {
        rev_ws_start(s, upto - 1)
    } else {
        upto
    }
}

/// Executable trim of leading and trailing whitespace, proved to compute
/// `trim_ws`.
pub fn trim(s: &str) -> (r: String)
    ensures
        r@ == trim_ws(s@),
{
    let n: usize = s.unicode_len();
    let a: usize = scan_run(CharClass::Ws, s, 0);
    let mut b: usize = n;
    loop
        invariant
            0 <= b <= n,
            n == s@.len(),
            rev_ws_start(s@, n as int) == rev_ws_start(s@, b as int),
        ensures
            0 <= b <= n,
            n == s@.len(),
            rev_ws_start(s@, n as int) == b,
        decreases b,
    {
        if b == 0 {
            break;
        }
        let c: char = s.get_char(b - 1);
        if !class_char(CharClass::Ws, c) {
            break;
        }
        b = b - 1;
    }
    if a >= b {
        String::new()
    } else {
        s.substring_char(a, b).to_owned()
    }
}

} // verus!
