//! Scanning text: classes of characters, runs of them, identifiers and numbers.
//!
//! The spec functions take the whole text and a position in it and say where
//! the thing that starts there ends. [`Source`] computes the same positions on
//! a text held in memory.

use vstd::prelude::*;

verus! {

/// True for the characters that Unicode calls white space.
pub open spec fn is_whitespace(c: char) -> bool {
    ||| '\u{9}' <= c <= '\u{d}'
    ||| c == ' '
    ||| c == '\u{85}'
    ||| c == '\u{a0}'
    ||| c == '\u{1680}'
    ||| '\u{2000}' <= c <= '\u{200a}'
    ||| c == '\u{2028}'
    ||| c == '\u{2029}'
    ||| c == '\u{202f}'
    ||| c == '\u{205f}'
    ||| c == '\u{3000}'
}

/// True for the ten decimal digits.
pub open spec fn is_digit(c: char) -> bool {
    '0' <= c <= '9'
}

/// True for the characters that may begin an identifier: an ASCII letter or
/// an underscore.
pub open spec fn is_ident_start(c: char) -> bool {
    ||| 'a' <= c <= 'z'
    ||| 'A' <= c <= 'Z'
    ||| c == '_'
}

/// True for the characters that may continue an identifier: an ASCII letter,
/// a digit or an underscore.
pub open spec fn is_ident_part(c: char) -> bool {
    is_ident_start(c) || is_digit(c)
}

/// A class of characters that a run can be made of.
#[derive(Clone, Copy, Debug, PartialEq, Eq)]
pub enum CharClass {
    /// White space
    Whitespace,
    /// Decimal digits
    Digit,
    /// Letters, digits and underscores
    IdentPart,
    /// Everything but a double quote
    NotQuote,
}

impl CharClass {
    /// Whether `c` belongs to the class.
    pub open spec fn holds(self, c: char) -> bool {
        match self {
            CharClass::Whitespace => is_whitespace(c),
            CharClass::Digit => is_digit(c),
            CharClass::IdentPart => is_ident_part(c),
            CharClass::NotQuote => c != '"',
        }
    }

    /// Tests whether `c` belongs to the class.
    pub fn test(self, c: char) -> (r: bool)
        ensures
            r == self.holds(c),
    {
        match self {
            CharClass::Whitespace => {
                ('\u{9}' <= c && c <= '\u{d}') || c == ' ' || c == '\u{85}' || c == '\u{a0}' || c
                    == '\u{1680}' || ('\u{2000}' <= c && c <= '\u{200a}') || c == '\u{2028}' || c
                    == '\u{2029}' || c == '\u{202f}' || c == '\u{205f}' || c == '\u{3000}'
            },
            CharClass::Digit => '0' <= c && c <= '9',
            CharClass::IdentPart => {
                ('a' <= c && c <= 'z') || ('A' <= c && c <= 'Z') || c == '_' || ('0' <= c && c
                    <= '9')
            },
            CharClass::NotQuote => c != '"',
        }
    }
}

/// Where the longest run of characters of `class` that starts at `pos` ends.
pub open spec fn run_end(s: Seq<char>, pos: int, class: CharClass) -> int
    decreases s.len() - pos,
{
    if 0 <= pos < s.len() && class.holds(s[pos]) {
        run_end(s, pos + 1, class)
    } else {
        pos
    }
}

/// Where the white space that starts at `pos` ends.
pub open spec fn skip_ws(s: Seq<char>, pos: int) -> int {
    run_end(s, pos, CharClass::Whitespace)
}

/// A run ends inside the text, holds only characters of its class, and stops
/// at the first character that is not of the class.
pub proof fn lemma_run_end(s: Seq<char>, pos: int, class: CharClass)
    requires
        0 <= pos <= s.len(),
    ensures
        pos <= run_end(s, pos, class) <= s.len(),
        forall|i: int| pos <= i < run_end(s, pos, class) ==> class.holds(#[trigger] s[i]),
        run_end(s, pos, class) < s.len() ==> !class.holds(s[run_end(s, pos, class)]),
    decreases s.len() - pos,
{
    if pos < s.len() && class.holds(s[pos]) {
        lemma_run_end(s, pos + 1, class);
    }
}

/// The end of a run is the only position with the properties of
/// [`lemma_run_end`].
pub proof fn lemma_run_end_is(s: Seq<char>, pos: int, end: int, class: CharClass)
    requires
        0 <= pos <= end <= s.len(),
        forall|i: int| pos <= i < end ==> class.holds(#[trigger] s[i]),
        end < s.len() ==> !class.holds(s[end]),
    ensures
        run_end(s, pos, class) == end,
    decreases end - pos,
{
    if pos < end {
        assert(class.holds(s[pos]));
        lemma_run_end_is(s, pos + 1, end, class);
    }
}

/// Where the identifier that starts at `pos` ends, if one starts there.
pub open spec fn ident_end(s: Seq<char>, pos: int) -> Option<int> {
    if 0 <= pos < s.len() && is_ident_start(s[pos]) {
        Some(run_end(s, pos + 1, CharClass::IdentPart))
    } else {
        None
    }
}

/// Where the identifier that starts at `pos` ends, if it is exactly `word`.
pub open spec fn keyword_end(s: Seq<char>, pos: int, word: Seq<char>) -> Option<int> {
    match ident_end(s, pos) {
        Some(end) => if s.subrange(pos, end) == word {
            Some(end)
        } else {
            None
        },
        None => None,
    }
}

/// Where the digits that start at `pos` end, if there is at least one.
pub open spec fn digits_end(s: Seq<char>, pos: int) -> Option<int> {
    if 0 <= pos < s.len() && is_digit(s[pos]) {
        Some(run_end(s, pos + 1, CharClass::Digit))
    } else {
        None
    }
}

/// Where the whole number that starts at `pos` ends: a single `0`, or a digit
/// other than zero with the digits that follow it.
pub open spec fn whole_end(s: Seq<char>, pos: int) -> Option<int> {
    if 0 <= pos < s.len() && is_digit(s[pos]) {
        if s[pos] == '0' {
            Some(pos + 1)
        } else {
            Some(run_end(s, pos + 1, CharClass::Digit))
        }
    } else {
        None
    }
}

/// Where the decimal number that starts at `pos` ends: an optional minus
/// sign, a whole number, a point and at least one digit.
pub open spec fn decimal_end(s: Seq<char>, pos: int) -> Option<int> {
    let start = if 0 <= pos < s.len() && s[pos] == '-' {
        pos + 1
    } else {
        pos
    };
    match whole_end(s, start) {
        Some(point) => if point < s.len() && s[point] == '.' {
            digits_end(s, point + 1)
        } else {
            None
        },
        None => None,
    }
}

/// Where the text in double quotes that starts at `pos` ends, if a quote
/// opens there and another closes it. The content lies between `pos + 1` and
/// the result minus one.
pub open spec fn quoted_end(s: Seq<char>, pos: int) -> Option<int> {
    if 0 <= pos < s.len() && s[pos] == '"' {
        let close = run_end(s, pos + 1, CharClass::NotQuote);
        if close < s.len() {
            Some(close + 1)
        } else {
            None
        }
    } else {
        None
    }
}

/// The first position at or after `pos` where `*/` stands, if there is one.
pub open spec fn comment_close(s: Seq<char>, pos: int) -> Option<int>
    decreases s.len() - pos,
{
    if pos < 0 || pos + 1 >= s.len() {
        None
    } else if s[pos] == '*' && s[pos + 1] == '/' {
        Some(pos)
    } else {
        comment_close(s, pos + 1)
    }
}

/// Where the white space at the end of `s` begins, looking no further back
/// than `low`.
pub open spec fn trim_end(s: Seq<char>, low: int, high: int) -> int
    decreases high - low,
{
    if low < high <= s.len() && is_whitespace(s[high - 1]) {
        trim_end(s, low, high - 1)
    } else {
        high
    }
}

/// `s` without the white space at its two ends.
pub open spec fn trimmed(s: Seq<char>) -> Seq<char> {
    let low = skip_ws(s, 0);
    s.subrange(low, trim_end(s, low, s.len() as int))
}

/// The number that the decimal digits `s` write.
pub open spec fn digits_value(s: Seq<char>) -> nat
    decreases s.len(),
{
    if s.len() == 0 {
        0
    } else {
        (digits_value(s.drop_last()) * 10 + (s.last() as nat - '0' as nat)) as nat
    }
}

/// Reading more digits never gives a smaller number.
pub proof fn lemma_digits_value_grows(s: Seq<char>, n: int)
    requires
        0 <= n <= s.len(),
        forall|i: int| 0 <= i < s.len() ==> is_digit(#[trigger] s[i]),
    ensures
        digits_value(s.take(n)) <= digits_value(s),
    decreases s.len() - n,
{
    if n < s.len() {
        let t = s.drop_last();
        assert(t.take(n) =~= s.take(n));
        lemma_digits_value_grows(t, n);
        assert(is_digit(s.last()));
    } else {
        assert(s.take(n) =~= s);
    }
}

/// A text held in memory, with its characters at hand by position.
pub struct Source {
    text: String,
    chars: Vec<char>,
}

impl View for Source {
    type V = Seq<char>;

    closed spec fn view(&self) -> Seq<char> {
        self.chars@
    }
}

impl Source {
    #[verifier::type_invariant]
    spec fn consistent(self) -> bool {
        self.chars@ == self.text@
    }

    /// Takes `text` in and lays out its characters.
    pub fn new(text: String) -> (res: Self)
        ensures
            res@ == text@,
    {
        let mut chars: Vec<char> = Vec::new();
        for c in it: text.as_str().chars()
            invariant
                chars@ == it.seq().take(it.index() as int),
                it.seq() == text@,
        {
            chars.push(c);
        }
        assert(chars@ =~= text@);
        Source { text, chars }
    }

    /// The number of characters.
    pub fn len(&self) -> (n: usize)
        ensures
            n == self@.len(),
    {
        self.chars.len()
    }

    /// The character at `pos`.
    pub fn at(&self, pos: usize) -> (c: char)
        requires
            pos < self@.len(),
        ensures
            c == self@[pos as int],
    {
        self.chars[pos]
    }

    /// Whether the character `c` stands at `pos`.
    pub fn has(&self, pos: usize, c: char) -> (r: bool)
        ensures
            r == (pos < self@.len() && self@[pos as int] == c),
            r ==> pos < usize::MAX,
    {
        pos < self.chars.len() && self.chars[pos] == c
    }

    /// The text from `from` up to `to`.
    pub fn slice(&self, from: usize, to: usize) -> (r: String)
        requires
            from <= to <= self@.len(),
        ensures
            r@ == self@.subrange(from as int, to as int),
    {
        proof {
            use_type_invariant(self);
        }
        self.text.as_str().substring_char(from, to).to_owned()
    }

    /// Where the run of characters of `class` that starts at `pos` ends.
    pub fn run(&self, pos: usize, class: CharClass) -> (end: usize)
        requires
            pos <= self@.len(),
        ensures
            end == run_end(self@, pos as int, class),
            pos <= end <= self@.len(),
    {
        let mut i: usize = pos;
        while i < self.chars.len() && class.test(self.chars[i])
            invariant
                pos <= i <= self@.len(),
                run_end(self@, pos as int, class) == run_end(self@, i as int, class),
            decreases self@.len() - i,
        {
            i += 1;
        }
        i
    }

    /// Where the white space that starts at `pos` ends.
    pub fn skip(&self, pos: usize) -> (end: usize)
        requires
            pos <= self@.len(),
        ensures
            end == skip_ws(self@, pos as int),
            pos <= end <= self@.len(),
    {
        self.run(pos, CharClass::Whitespace)
    }

    /// Where the identifier that starts at `pos` ends.
    pub fn ident(&self, pos: usize) -> (end: Option<usize>)
        requires
            pos <= self@.len(),
        ensures
            match end {
                Some(e) => ident_end(self@, pos as int) == Some(e as int) && pos < e
                    <= self@.len(),
                None => ident_end(self@, pos as int) is None,
            },
    {
        if pos < self.chars.len() {
            let c = self.chars[pos];
            if ('a' <= c && c <= 'z') || ('A' <= c && c <= 'Z') || c == '_' {
                return Some(self.run(pos + 1, CharClass::IdentPart));
            }
        }
        None
    }

    /// Whether the text from `from` up to `to` is exactly `word`.
    pub fn matches_word(&self, from: usize, to: usize, word: &str) -> (r: bool)
        requires
            from <= to <= self@.len(),
        ensures
            r == (self@.subrange(from as int, to as int) == word@),
    {
        let n = word.unicode_len();
        if to - from != n {
            return false;
        }
        let mut i: usize = 0;
        while i < n
            invariant
                i <= n,
                n == word@.len(),
                n == to - from,
                from <= to <= self@.len(),
                forall|j: int| 0 <= j < i ==> self@[from + j] == word@[j],
            decreases n - i,
        {
            if self.chars[from + i] != word.get_char(i) {
                assert(self@.subrange(from as int, to as int)[i as int] != word@[i as int]);
                return false;
            }
            i += 1;
        }
        assert(self@.subrange(from as int, to as int) =~= word@);
        true
    }

    /// Where the identifier that starts at `pos` ends, if it is exactly `word`.
    pub fn keyword(&self, pos: usize, word: &str) -> (end: Option<usize>)
        requires
            pos <= self@.len(),
        ensures
            match end {
                Some(e) => keyword_end(self@, pos as int, word@) == Some(e as int) && pos < e
                    <= self@.len(),
                None => keyword_end(self@, pos as int, word@) is None,
            },
    {
        match self.ident(pos) {
            Some(e) => if self.matches_word(pos, e, word) {
                Some(e)
            } else {
                None
            },
            None => None,
        }
    }

    /// Where the digits that start at `pos` end.
    pub fn digits(&self, pos: usize) -> (end: Option<usize>)
        requires
            pos <= self@.len(),
        ensures
            match end {
                Some(e) => digits_end(self@, pos as int) == Some(e as int) && pos < e
                    <= self@.len() && forall|i: int| pos <= i < e ==> is_digit(#[trigger] self@[i]),
                None => digits_end(self@, pos as int) is None,
            },
    {
        if pos < self.chars.len() && CharClass::Digit.test(self.chars[pos]) {
            proof {
                lemma_run_end(self@, pos + 1, CharClass::Digit);
            }
            Some(self.run(pos + 1, CharClass::Digit))
        } else {
            None
        }
    }

    /// Where the whole number that starts at `pos` ends.
    pub fn whole(&self, pos: usize) -> (end: Option<usize>)
        requires
            pos <= self@.len(),
        ensures
            match end {
                Some(e) => whole_end(self@, pos as int) == Some(e as int) && pos < e
                    <= self@.len(),
                None => whole_end(self@, pos as int) is None,
            },
    {
        if pos < self.chars.len() && CharClass::Digit.test(self.chars[pos]) {
            if self.chars[pos] == '0' {
                Some(pos + 1)
            } else {
                Some(self.run(pos + 1, CharClass::Digit))
            }
        } else {
            None
        }
    }

    /// Where the decimal number that starts at `pos` ends.
    pub fn decimal(&self, pos: usize) -> (end: Option<usize>)
        requires
            pos <= self@.len(),
        ensures
            match end {
                Some(e) => decimal_end(self@, pos as int) == Some(e as int) && pos < e
                    <= self@.len(),
                None => decimal_end(self@, pos as int) is None,
            },
    {
        let start = if self.has(pos, '-') {
            pos + 1
        } else {
            pos
        };
        match self.whole(start) {
            Some(point) => if self.has(point, '.') {
                self.digits(point + 1)
            } else {
                None
            },
            None => None,
        }
    }

    /// Where the quoted text that starts at `pos` ends.
    pub fn quoted(&self, pos: usize) -> (end: Option<usize>)
        requires
            pos <= self@.len(),
        ensures
            match end {
                Some(e) => quoted_end(self@, pos as int) == Some(e as int) && pos + 2 <= e
                    <= self@.len(),
                None => quoted_end(self@, pos as int) is None,
            },
    {
        if self.has(pos, '"') {
            let close = self.run(pos + 1, CharClass::NotQuote);
            if close < self.chars.len() {
                Some(close + 1)
            } else {
                None
            }
        } else {
            None
        }
    }

    /// The first position at or after `pos` where `*/` stands.
    pub fn find_comment_close(&self, pos: usize) -> (at: Option<usize>)
        requires
            pos <= self@.len(),
        ensures
            match at {
                Some(a) => comment_close(self@, pos as int) == Some(a as int) && pos <= a && a
                    + 2 <= self@.len() && a + 2 <= usize::MAX,
                None => comment_close(self@, pos as int) is None,
            },
    {
        let n = self.chars.len();
        let mut i: usize = pos;
        while i < n && i + 1 < n
            invariant
                pos <= i <= n,
                n == self@.len(),
                comment_close(self@, pos as int) == comment_close(self@, i as int),
            decreases n - i,
        {
            if self.chars[i] == '*' && self.chars[i + 1] == '/' {
                return Some(i);
            }
            i += 1;
        }
        None
    }

    /// The text from `from` up to `to` without the white space at its ends.
    pub fn trimmed_slice(&self, from: usize, to: usize) -> (r: String)
        requires
            from <= to <= self@.len(),
        ensures
            r@ == trimmed(self@.subrange(from as int, to as int)),
    {
        let ghost part = self@.subrange(from as int, to as int);
        let mut low: usize = from;
        while low < to && CharClass::Whitespace.test(self.chars[low])
            invariant
                from <= low <= to <= self@.len(),
                part == self@.subrange(from as int, to as int),
                skip_ws(part, 0) == skip_ws(part, low - from),
            decreases to - low,
        {
            low += 1;
        }
        let mut high: usize = to;
        while low < high && CharClass::Whitespace.test(self.chars[high - 1])
            invariant
                from <= low <= high <= to <= self@.len(),
                part == self@.subrange(from as int, to as int),
                trim_end(part, low - from, to - from) == trim_end(part, low - from, high - from),
            decreases high - low,
        {
            high -= 1;
        }
        assert(self@.subrange(low as int, high as int) =~= part.subrange(
            low - from,
            high - from,
        ));
        self.slice(low, high)
    }

    /// The number that the digits from `from` up to `to` write, if it is no
    /// more than `max`.
    pub fn number(&self, from: usize, to: usize, max: u64) -> (r: Option<u64>)
        requires
            from <= to <= self@.len(),
            forall|i: int| from <= i < to ==> is_digit(#[trigger] self@[i]),
        ensures
            match r {
                Some(v) => v == digits_value(self@.subrange(from as int, to as int)) && v
                    <= max,
                None => digits_value(self@.subrange(from as int, to as int)) > max,
            },
    {
        let ghost part = self@.subrange(from as int, to as int);
        let mut value: u64 = 0;
        let mut i: usize = from;
        assert(part.take(0) =~= Seq::<char>::empty());
        while i < to
            invariant
                from <= i <= to <= self@.len(),
                part == self@.subrange(from as int, to as int),
                forall|j: int| from <= j < to ==> is_digit(#[trigger] self@[j]),
                value == digits_value(part.take(i - from)),
                value <= max,
            decreases to - i,
        {
            let c = self.chars[i];
            assert(is_digit(self@[i as int]));
            let digit: u128 = (c as u32 - '0' as u32) as u128;
            let next: u128 = (value as u128) * 10 + digit;
            proof {
                let longer = part.take(i - from + 1);
                assert(longer.drop_last() =~= part.take(i - from));
                assert(longer.last() == c);
                assert(next == digits_value(longer));
                assert forall|j: int| 0 <= j < part.len() implies is_digit(
                    #[trigger] part[j],
                ) by {
                    assert(is_digit(self@[from + j]));
                }
                lemma_digits_value_grows(part, i - from + 1);
            }
            if next > max as u128 {
                return None;
            }
            value = next as u64;
            i += 1;
        }
        assert(part.take(to - from) =~= part);
        Some(value)
    }
}

} // verus!
