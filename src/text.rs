//! Character-level building blocks shared by every statement parser.
//!
//! Parsing works on the text as a `Vec<char>` and a cursor position.  Each
//! parser is described by a spec function from `(text, position)` to the
//! position after the match (or `None`), and its executable counterpart is
//! proved to compute exactly that.
use vstd::prelude::*;

verus! {

/// The failure of a parse: no alternative matched at the current position.
#[derive(Debug, PartialEq, Eq, Structural, Clone, Copy)]
pub struct ParseError {}

/// What every public parser returns: the unconsumed input and the value.
pub type PResult<'a, T> = Result<(&'a str, T), ParseError>;

/// The classes of characters that the grammar scans runs of.
#[derive(Clone, Copy, PartialEq, Eq, Structural)]
pub enum CharClass {
    /// Space, tab, carriage return, line feed.
    Space,
    /// Letters, digits, `_`, `-` and `.`.
    IdentChar,
    /// The ASCII digits.
    Digit,
    /// Anything but a single quote.
    NotSingleQuote,
    /// What a double-quoted string may hold without a backslash.
    Unescaped,
    /// Anything but `:`.
    NotColon,
}

pub open spec fn is_ws(c: char) -> bool {
    c == ' ' || c == '\t' || c == '\n' || c == '\r'
}

pub open spec fn is_alpha(c: char) -> bool {
    ('a' <= c && c <= 'z') || ('A' <= c && c <= 'Z')
}

pub open spec fn is_digit(c: char) -> bool {
    '0' <= c && c <= '9'
}

pub open spec fn is_ident_start(c: char) -> bool {
    is_alpha(c) || c == '_'
}

pub open spec fn is_ident_char(c: char) -> bool {
    is_alpha(c) || is_digit(c) || c == '_' || c == '-' || c == '.'
}

/// Line feed, carriage return, or a character from space up but `"` and `\\`.
pub open spec fn is_unescaped(c: char) -> bool {
    c == '\n' || c == '\r' || (' ' <= c && c != '"' && c != '\\')
}

pub open spec fn in_class(k: CharClass, c: char) -> bool {
    match k {
        CharClass::Space => is_ws(c),
        CharClass::IdentChar => is_ident_char(c),
        CharClass::Digit => is_digit(c),
        CharClass::NotSingleQuote => c != '\'',
        CharClass::Unescaped => is_unescaped(c),
        CharClass::NotColon => c != ':',
    }
}

/// The end of the longest run of characters of class `k` that starts at `i`.
pub open spec fn scan(s: Seq<char>, i: int, k: CharClass) -> int
    decreases s.len() - i,
{
    if 0 <= i < s.len() && in_class(k, s[i]) {
        scan(s, i + 1, k)
    } else {
        i
    }
}

/// Position after the whitespace that starts at `i`.
pub open spec fn skip_ws(s: Seq<char>, i: int) -> int {
    scan(s, i, CharClass::Space)
}

/// `s` holds the text `t` at position `i`.
pub open spec fn has_tag(s: Seq<char>, i: int, t: Seq<char>) -> bool {
    0 <= i && i + t.len() <= s.len() && s.subrange(i, i + t.len()) == t
}

/// `s` holds the character `c` at position `i`.
pub open spec fn has_char(s: Seq<char>, i: int, c: char) -> bool {
    0 <= i < s.len() && s[i] == c
}

/// At least one whitespace character at `i`; the position after the run.
pub open spec fn spec_ws1(s: Seq<char>, i: int) -> Option<int> {
    if 0 <= i < s.len() && is_ws(s[i]) {
        Some(skip_ws(s, i))
    } else {
        None
    }
}

/// Position after optional whitespace and a `;`.
pub open spec fn spec_stmt_end(s: Seq<char>, i: int) -> Option<int> {
    let j = skip_ws(s, i);
    if has_char(s, j, ';') {
        Some(j + 1)
    } else {
        None
    }
}

/// An executable position agrees with a spec one.
pub open spec fn same_pos(r: Option<usize>, m: Option<int>) -> bool {
    match m {
        Some(p) => r matches Some(x) && x == p,
        None => r is None,
    }
}

/// A public parser's result agrees with a spec result `(end, text)`:
/// the rest of the input after `end`, and the text.
pub open spec fn text_out(s: Seq<char>, r: PResult<&str>, m: Option<(int, Seq<char>)>) -> bool {
    match m {
        Some((e, v)) => r matches Ok((rest, x)) && rest@ == s.subrange(e, s.len() as int) && x@ == v,
        None => r is Err,
    }
}

/// Same as `text_out`, for a result held in a `String`.
pub open spec fn string_out(s: Seq<char>, r: PResult<String>, m: Option<(int, Seq<char>)>) -> bool {
    match m {
        Some((e, v)) => r matches Ok((rest, x)) && rest@ == s.subrange(e, s.len() as int) && x@ == v,
        None => r is Err,
    }
}

/// An internal parser's result `(end, text)` agrees with a spec result.
pub open spec fn same_string(r: Option<(usize, String)>, m: Option<(int, Seq<char>)>) -> bool {
    match m {
        Some((e, v)) => r matches Some((p, x)) && p == e && x@ == v,
        None => r is None,
    }
}

pub proof fn lemma_scan_bounds(s: Seq<char>, i: int, k: CharClass)
    requires
        0 <= i <= s.len(),
    ensures
        i <= scan(s, i, k) <= s.len(),
        forall|m: int| i <= m < scan(s, i, k) ==> in_class(k, #[trigger] s[m]),
        scan(s, i, k) < s.len() ==> !in_class(k, s[scan(s, i, k)]),
    decreases s.len() - i,
{
    if i < s.len() && in_class(k, s[i]) {
        lemma_scan_bounds(s, i + 1, k);
    }
}

pub fn char_in_class(k: CharClass, c: char) -> (b: bool)
    ensures
        b == in_class(k, c),
{
    match k {
        CharClass::Space => c == ' ' || c == '\t' || c == '\n' || c == '\r',
        CharClass::IdentChar => is_identifier(c),
        CharClass::Digit => '0' <= c && c <= '9',
        CharClass::NotSingleQuote => c != '\'',
        CharClass::Unescaped => c == '\n' || c == '\r' || (' ' <= c && c != '"' && c != '\\'),
        CharClass::NotColon => c != ':',
    }
}

/// A character that may follow the first one of an identifier.
pub fn is_identifier(c: char) -> (b: bool)
    ensures
        b == is_ident_char(c),
{
    ('a' <= c && c <= 'z') || ('A' <= c && c <= 'Z') || ('0' <= c && c <= '9') || c == '_'
        || c == '-' || c == '.'
}

pub fn scan_at(s: &Vec<char>, i: usize, k: CharClass) -> (r: usize)
    requires
        i <= s.len(),
    ensures
        r == scan(s@, i as int, k),
        i <= r <= s.len(),
{
    let mut j = i;
    while j < s.len() && char_in_class(k, s[j])
        invariant
            i <= j <= s.len(),
            scan(s@, j as int, k) == scan(s@, i as int, k),
        decreases s.len() - j,
    {
        j = j + 1;
    }
    j
}

pub fn skip_ws_at(s: &Vec<char>, i: usize) -> (r: usize)
    requires
        i <= s.len(),
    ensures
        r == skip_ws(s@, i as int),
        i <= r <= s.len(),
{
    scan_at(s, i, CharClass::Space)
}

pub fn char_at(s: &Vec<char>, i: usize, c: char) -> (b: bool)
    ensures
        b == has_char(s@, i as int, c),
{
    i < s.len() && s[i] == c
}

pub fn tag_at(s: &Vec<char>, i: usize, t: &str) -> (b: bool)
    requires
        i <= s.len(),
    ensures
        b == has_tag(s@, i as int, t@),
{
    let n = t.unicode_len();
    if n > s.len() - i {
        return false;
    }
    let mut k: usize = 0;
    while k < n
        invariant
            n == t@.len(),
            i + n <= s.len(),
            k <= n,
            forall|m: int| 0 <= m < k ==> s@[i + m] == t@[m],
        decreases n - k,
    {
        if s[i + k] != t.get_char(k) {
            assert(s@.subrange(i as int, i + n)[k as int] != t@[k as int]);
            return false;
        }
        k = k + 1;
    }
    assert(s@.subrange(i as int, i + n) =~= t@);
    true
}

pub fn ws1_at(s: &Vec<char>, i: usize) -> (r: Option<usize>)
    requires
        i <= s.len(),
    ensures
        same_pos(r, spec_ws1(s@, i as int)),
        r matches Some(p) ==> i < p <= s.len(),
{
    if i < s.len() && char_in_class(CharClass::Space, s[i]) {
        proof {
            lemma_scan_bounds(s@, i as int, CharClass::Space);
        }
        Some(skip_ws_at(s, i))
    } else {
        None
    }
}

pub fn stmt_end_at(s: &Vec<char>, i: usize) -> (r: Option<usize>)
    requires
        i <= s.len(),
    ensures
        same_pos(r, spec_stmt_end(s@, i as int)),
        r matches Some(p) ==> i < p <= s.len(),
{
    let j = skip_ws_at(s, i);
    if char_at(s, j, ';') {
        Some(j + 1)
    } else {
        None
    }
}

/// The characters of `s`, in order.
pub fn to_chars(s: &str) -> (r: Vec<char>)
    ensures
        r@ == s@,
{
    let mut v: Vec<char> = Vec::new();
    for c in it: s.chars()
        invariant
            v@ == it.seq().take(it.index() as int),
    {
        v.push(c);
    }
    v
}

/// The text being parsed, with its characters in a vector for indexing.
pub struct Input<'a> {
    pub text: &'a str,
    pub chars: Vec<char>,
}

impl<'a> View for Input<'a> {
    type V = Seq<char>;

    open spec fn view(&self) -> Seq<char> {
        self.chars@
    }
}

impl<'a> Input<'a> {
    pub open spec fn wf(&self) -> bool {
        self.chars@ == self.text@
    }

    pub fn new(text: &'a str) -> (r: Input<'a>)
        ensures
            r.wf(),
            r.text == text,
            r@ == text@,
    {
        Input { text, chars: to_chars(text) }
    }

    pub fn len(&self) -> (r: usize)
        ensures
            r == self@.len(),
    {
        self.chars.len()
    }

    /// The characters from `from` to `to`, as a `String`.
    pub fn string(&self, from: usize, to: usize) -> (r: String)
        requires
            self.wf(),
            from <= to <= self@.len(),
        ensures
            r@ == self@.subrange(from as int, to as int),
    {
        self.text.substring_char(from, to).to_owned()
    }

    /// The characters from `from` to `to`, as a slice of the text.
    pub fn slice(&self, from: usize, to: usize) -> (r: &'a str)
        requires
            self.wf(),
            from <= to <= self@.len(),
        ensures
            r@ == self@.subrange(from as int, to as int),
    {
        self.text.substring_char(from, to)
    }

    /// The text after position `from`.
    pub fn rest(&self, from: usize) -> (r: &'a str)
        requires
            self.wf(),
            from <= self@.len(),
        ensures
            r@ == self@.subrange(from as int, self@.len() as int),
    {
        self.text.substring_char(from, self.chars.len())
    }
}

} // verus!
