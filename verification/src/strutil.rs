//! Verified text utilities shared by the parser and the writer: string
//! equality, whitespace classification, token scanning, trimming, and
//! decimal rendering of lengths.

use vstd::prelude::*;

verus! {

/// Character-wise string equality.
pub fn str_eq(a: &str, b: &str) -> (r: bool)
    ensures
        r == (a@ == b@),
{
    let la = a.unicode_len();
    let lb = b.unicode_len();
    if la != lb {
        return false;
    }
    let mut i: usize = 0;
    while i < la
        invariant
            la == a@.len(),
            la == b@.len(),
            i <= la,
            forall|j: int| 0 <= j < i ==> a@[j] == b@[j],
        decreases la - i,
    {
        if a.get_char(i) != b.get_char(i) {
            return false;
        }
        i = i + 1;
    }
    proof {
        assert(a@ =~= b@);
    }
    true
}

/// ASCII whitespace: the characters the tokenizer and the trimmer treat
/// as separators.
pub open spec fn is_ws(c: char) -> bool {
    c == ' ' || c == '\t' || c == '\n' || c == '\r' || c == '\x0c'
}

/// Executable whitespace test.
pub fn is_ws_char(c: char) -> (r: bool)
    ensures
        r == is_ws(c),
{
    c == ' ' || c == '\t' || c == '\n' || c == '\r' || c == '\x0c'
}

/// The first index at or after `from` holding a non-whitespace character,
/// or `s.len()` if there is none.
pub open spec fn token_start(s: Seq<char>, from: int) -> int
    decreases s.len() - from,
{
    if from >= s.len() {
        s.len() as int
    } else if !is_ws(s[from]) {
        from
    } else {
        token_start(s, from + 1)
    }
}

/// The first index at or after `from` holding a whitespace character, or
/// `s.len()` if there is none.
pub open spec fn token_end(s: Seq<char>, from: int) -> int
    decreases s.len() - from,
{
    if from >= s.len() {
        s.len() as int
    } else if is_ws(s[from]) {
        from
    } else {
        token_end(s, from + 1)
    }
}

/// The index after the last non-whitespace character strictly before
/// `upto`, or 0 if there is none.
pub open spec fn trim_end_idx(s: Seq<char>, upto: int) -> int
    decreases upto,
{
    if upto <= 0 {
        0
    } else if is_ws(s[upto - 1]) {
        trim_end_idx(s, upto - 1)
    } else {
        upto
    }
}

/// `s` with leading and trailing whitespace removed.
pub open spec fn spec_trim(s: Seq<char>) -> Seq<char> {
    let a = token_start(s, 0);
    let b = trim_end_idx(s, s.len() as int);
    if a <= b {
        s.subrange(a, b)
    } else {
        Seq::empty()
    }
}

/// The index of the first `:` at or after `from`, or `s.len()` if there
/// is none.
pub open spec fn colon_pos(s: Seq<char>, from: int) -> int
    decreases s.len() - from,
{
    if from >= s.len() {
        s.len() as int
    } else if s[from] == ':' {
        from
    } else {
        colon_pos(s, from + 1)
    }
}

/// If every character from `from` on is whitespace, no token starts there.
pub proof fn lemma_token_start_all_ws(s: Seq<char>, from: int)
    requires
        0 <= from <= s.len(),
        forall|j: int| from <= j < s.len() ==> is_ws(s[j]),
    ensures
        token_start(s, from) == s.len(),
    decreases s.len() - from,
{
    if from < s.len() {
        lemma_token_start_all_ws(s, from + 1);
    }
}

/// Everything skipped by `trim_end_idx` is whitespace, and the character
/// just before the cut, if any, is not.
pub proof fn lemma_trim_end(s: Seq<char>, upto: int)
    requires
        0 <= upto <= s.len(),
    ensures
        0 <= trim_end_idx(s, upto) <= upto,
        forall|j: int| trim_end_idx(s, upto) <= j < upto ==> is_ws(s[j]),
        trim_end_idx(s, upto) > 0 ==> !is_ws(s[trim_end_idx(s, upto) - 1]),
    decreases upto,
{
    if upto > 0 && is_ws(s[upto - 1]) {
        lemma_trim_end(s, upto - 1);
    }
}

/// Finds the first token at or after `from`: its start and its end.
pub fn scan_token(s: &str, from: usize) -> (r: (usize, usize))
    requires
        from <= s@.len(),
    ensures
        r.0 == token_start(s@, from as int),
        r.1 == token_end(s@, r.0 as int),
        from <= r.0 <= r.1 <= s@.len(),
{
    let n = s.unicode_len();
    let mut i: usize = from;
    while i < n && is_ws_char(s.get_char(i))
        invariant
            n == s@.len(),
            from <= i <= n,
            token_start(s@, from as int) == token_start(s@, i as int),
        decreases n - i,
    {
        i = i + 1;
    }
    let start = i;
    while i < n && !is_ws_char(s.get_char(i))
        invariant
            n == s@.len(),
            start <= i <= n,
            token_end(s@, start as int) == token_end(s@, i as int),
        decreases n - i,
    {
        i = i + 1;
    }
    (start, i)
}

/// Finds the first `:` in `s`, or returns `s`'s length if there is none.
pub fn find_colon(s: &str) -> (r: usize)
    ensures
        r == colon_pos(s@, 0),
        r <= s@.len(),
{
    let n = s.unicode_len();
    let mut i: usize = 0;
    while i < n && s.get_char(i) != ':'
        invariant
            n == s@.len(),
            i <= n,
            colon_pos(s@, 0) == colon_pos(s@, i as int),
        decreases n - i,
    {
        i = i + 1;
    }
    i
}

/// Removes leading and trailing whitespace.
pub fn trim_str(s: &str) -> (r: &str)
    ensures
        r@ == spec_trim(s@),
{
    let n = s.unicode_len();
    let mut b: usize = n;
    while b > 0 && is_ws_char(s.get_char(b - 1))
        invariant
            n == s@.len(),
            b <= n,
            trim_end_idx(s@, n as int) == trim_end_idx(s@, b as int),
        decreases b,
    {
        b = b - 1;
    }
    let mut a: usize = 0;
    while a < b && is_ws_char(s.get_char(a))
        invariant
            a <= b <= n,
            n == s@.len(),
            token_start(s@, 0) == token_start(s@, a as int),
        decreases b - a,
    {
        a = a + 1;
    }
    proof {
        lemma_trim_end(s@, n as int);
        if a == b {
            lemma_token_start_all_ws(s@, a as int);
        }
    }
    s.substring_char(a, b)
}

/// The digit character for a value below ten.
pub open spec fn dec_digit(d: int) -> char {
    if d == 0 {
        '0'
    } else if d == 1 {
        '1'
    } else if d == 2 {
        '2'
    } else if d == 3 {
        '3'
    } else if d == 4 {
        '4'
    } else if d == 5 {
        '5'
    } else if d == 6 {
        '6'
    } else if d == 7 {
        '7'
    } else if d == 8 {
        '8'
    } else {
        '9'
    }
}

/// The decimal rendering of `n`, most significant digit first, with no
/// leading zeros (except for `n == 0` itself).
pub open spec fn dec_of(n: nat) -> Seq<char>
    decreases n,
{
    if n < 10 {
        seq![dec_digit(n as int)]
    } else {
        dec_of(n / 10) + seq![dec_digit((n % 10) as int)]
    }
}

/// The digit character of a value below ten, as a one-character string.
fn digit_str(d: usize) -> (r: &'static str)
    requires
        d < 10,
    ensures
        r@ == seq![dec_digit(d as int)],
{
    proof {
        reveal_strlit("0");
        reveal_strlit("1");
        reveal_strlit("2");
        reveal_strlit("3");
        reveal_strlit("4");
        reveal_strlit("5");
        reveal_strlit("6");
        reveal_strlit("7");
        reveal_strlit("8");
        reveal_strlit("9");
    }
    match d {
        0 => "0",
        1 => "1",
        2 => "2",
        3 => "3",
        4 => "4",
        5 => "5",
        6 => "6",
        7 => "7",
        8 => "8",
        _ => "9",
    }
}

/// Renders `n` in decimal.
pub fn dec_string(n: usize) -> (r: String)
    ensures
        r@ == dec_of(n as nat),
    decreases n,
{
    if n < 10 {
        digit_str(n).to_owned()
    } else {
        let mut s = dec_string(n / 10);
        s.append(digit_str(n % 10));
        s
    }
}

} // verus!
