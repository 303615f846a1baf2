//! Compiled regular expressions and the character tests built on them.

use crate::lexical::{ascii_alnum, is_ascii_alnum, is_punc, puncs};
use crate::text::{from_chars, to_chars};
use regex::Regex;
use vstd::prelude::*;

verus! {

#[verifier::external_type_specification]
#[verifier::external_body]
pub struct ExRegex(regex::Regex);

#[verifier::external_type_specification]
#[verifier::external_body]
pub struct ExRegexError(regex::Error);

/// Whether `re` has a match anywhere in `haystack`: what
/// `regex::Regex::is_match` returns for the two.
pub uninterp spec fn regex_accepts(re: regex::Regex, haystack: Seq<char>) -> bool;

/// Whether `regex::Regex::new` accepts `pattern`.
pub uninterp spec fn regex_valid(pattern: Seq<char>) -> bool;

/// Whether the expression that `regex::Regex::new` compiles from `pattern`
/// has a match anywhere in `haystack`.
pub uninterp spec fn regex_matches(pattern: Seq<char>, haystack: Seq<char>) -> bool;

/// `re` behaves as the expression compiled from `pattern`.
pub open spec fn compiled_from(re: regex::Regex, pattern: Seq<char>) -> bool {
    forall|h: Seq<char>| #[trigger] regex_accepts(re, h) == regex_matches(pattern, h)
}

/// `regex::Regex::new`: whether compilation succeeds, and what the compiled
/// expression matches, depend on the pattern text alone.
pub assume_specification[ regex::Regex::new ](re: &str) -> (r: Result<Regex, regex::Error>)
    ensures
        r is Ok == regex_valid(re@),
        r matches Ok(compiled) ==> forall|h: Seq<char>| #[trigger]
            regex_accepts(compiled, h) == regex_matches(re@, h),
;

/// `regex::Regex::is_match`: the answer depends only on the expression and
/// on the haystack.
pub assume_specification[ regex::Regex::is_match ](re: &Regex, haystack: &str) -> (r: bool)
    ensures
        r == regex_accepts(*re, haystack@),
;

/// Pattern for a single Unified CJK ideograph.
pub open spec fn cjk_source() -> Seq<char> {
    "\\p{Unified_Ideograph}"@
}

/// Pattern for a text of ASCII letters and spaces only.
pub open spec fn english_source() -> Seq<char> {
    "^[A-Za-z ]+$"@
}

/// Pattern for a date: four digits, two digits, two digits, with any single
/// character between the groups.
pub open spec fn date_source() -> Seq<char> {
    "^\\d{4}.\\d{2}.\\d{2}$"@
}

/// Pattern for a time of day written `HH:MM:SS`.
pub open spec fn time_source() -> Seq<char> {
    "^\\d{2}:\\d{2}:\\d{2}$"@
}

/// `c` is a Unified CJK ideograph, by the Unicode property.
pub open spec fn unified_ideograph(c: char) -> bool {
    regex_matches(cjk_source(), seq![c])
}

/// Number of characters of `text` that, taken alone, match `re`.
pub open spec fn count_matching(re: regex::Regex, text: Seq<char>) -> nat
    decreases text.len(),
{
    if text.len() == 0 {
        0
    } else {
        count_matching(re, text.drop_last()) + if regex_accepts(re, seq![text.last()]) {
            1nat
        } else {
            0nat
        }
    }
}

/// Number of Unified CJK ideographs in `text`.
pub open spec fn ideograph_count(text: Seq<char>) -> nat
    decreases text.len(),
{
    if text.len() == 0 {
        0
    } else {
        ideograph_count(text.drop_last()) + if unified_ideograph(text.last()) {
            1nat
        } else {
            0nat
        }
    }
}

proof fn lemma_count_ideographs(re: regex::Regex, text: Seq<char>)
    requires
        compiled_from(re, cjk_source()),
    ensures
        count_matching(re, text) == ideograph_count(text),
    decreases text.len(),
{
    if text.len() > 0 {
        lemma_count_ideographs(re, text.drop_last());
    }
}

/// Characters that survive filtering: ideographs, punctuation of the three
/// sets, ASCII letters and digits.
pub open spec fn allowed(c: char) -> bool {
    unified_ideograph(c) || puncs().contains(c) || ascii_alnum(c)
}

/// `s` with every character that is not `allowed` dropped.
pub open spec fn retain_allowed(s: Seq<char>) -> Seq<char>
    decreases s.len(),
{
    if s.len() == 0 {
        s
    } else if allowed(s.last()) {
        retain_allowed(s.drop_last()).push(s.last())
    } else {
        retain_allowed(s.drop_last())
    }
}

/// Which of the four patterns failed to compile.
#[derive(Clone, Copy, Debug, PartialEq, Eq, Structural)]
pub enum PatternError {
    Cjk,
    English,
    Date,
    Time,
}

/// The four compiled expressions the filters use. Built once, then shared.
pub struct Patterns {
    cjk: Regex,
    english: Regex,
    date: Regex,
    time: Regex,
}

/// The error that `Patterns::new` reports, if any: the first pattern, in
/// field order, that does not compile.
pub open spec fn first_invalid() -> Option<PatternError> {
    if !regex_valid(cjk_source()) {
        Some(PatternError::Cjk)
    } else if !regex_valid(english_source()) {
        Some(PatternError::English)
    } else if !regex_valid(date_source()) {
        Some(PatternError::Date)
    } else if !regex_valid(time_source()) {
        Some(PatternError::Time)
    } else {
        None
    }
}

impl Patterns {
    #[verifier::type_invariant]
    spec fn wf(&self) -> bool {
        &&& compiled_from(self.cjk, cjk_source())
        &&& compiled_from(self.english, english_source())
        &&& compiled_from(self.date, date_source())
        &&& compiled_from(self.time, time_source())
    }

    /// Compiles the four patterns.
    pub fn new() -> (r: Result<Patterns, PatternError>)
        ensures
            r is Ok <==> first_invalid() is None,
            r matches Err(e) ==> first_invalid() == Some(e),
    {
        let cjk = match Regex::new("\\p{Unified_Ideograph}") {
            Ok(re) => re,
            Err(_) => { return Err(PatternError::Cjk); },
        };
        let english = match Regex::new("^[A-Za-z ]+$") {
            Ok(re) => re,
            Err(_) => { return Err(PatternError::English); },
        };
        let date = match Regex::new("^\\d{4}.\\d{2}.\\d{2}$") {
            Ok(re) => re,
            Err(_) => { return Err(PatternError::Date); },
        };
        let time = match Regex::new("^\\d{2}:\\d{2}:\\d{2}$") {
            Ok(re) => re,
            Err(_) => { return Err(PatternError::Time); },
        };
        Ok(Patterns { cjk, english, date, time })
    }

    /// The ideograph expression.
    pub fn cjk(&self) -> (re: &Regex)
        ensures
            compiled_from(*re, cjk_source()),
    {
        proof {
            use_type_invariant(self);
        }
        &self.cjk
    }

    /// Whether `text` consists of ASCII letters and spaces only.
    pub fn is_english_only(&self, text: &str) -> (r: bool)
        ensures
            r == regex_matches(english_source(), text@),
    {
        proof {
            use_type_invariant(self);
        }
        self.english.is_match(text)
    }

    /// Whether `text` is a date.
    pub fn is_date(&self, text: &str) -> (r: bool)
        ensures
            r == regex_matches(date_source(), text@),
    {
        proof {
            use_type_invariant(self);
        }
        self.date.is_match(text)
    }

    /// Whether `text` is a time of day.
    pub fn is_time(&self, text: &str) -> (r: bool)
        ensures
            r == regex_matches(time_source(), text@),
    {
        proof {
            use_type_invariant(self);
        }
        self.time.is_match(text)
    }

    /// Whether `c` is a Unified CJK ideograph.
    pub fn is_cjk(&self, c: char) -> (r: bool)
        ensures
            r == unified_ideograph(c),
    {
        char_matches(self.cjk(), c)
    }

    /// Counts the Unified CJK ideographs in `text`.
    pub fn count_cjk(&self, text: &str) -> (n: usize)
        ensures
            n == ideograph_count(text@),
    {
        let re = self.cjk();
        proof {
            lemma_count_ideographs(*re, text@);
        }
        count_matching_chars(text, re)
    }
}

/// Whether the one-character text `c` matches `regex`.
pub fn char_matches(regex: &Regex, c: char) -> (r: bool)
    ensures
        r == regex_accepts(*regex, seq![c]),
{
    let mut one: Vec<char> = Vec::new();
    one.push(c);
    assert(one@ =~= seq![c]);
    let s = from_chars(&one);
    regex.is_match(s.as_str())
}

/// Counts the characters of `text` that, taken alone, match `regex`.
pub fn count_matching_chars(text: &str, regex: &Regex) -> (n: usize)
    ensures
        n == count_matching(*regex, text@),
{
    let chars = to_chars(text);
    let len: usize = chars.len();
    let mut n: usize = 0;
    let mut i: usize = 0;
    while i < len
        invariant
            i <= len,
            len == chars.len(),
            n <= i,
            n == count_matching(*regex, chars@.take(i as int)),
        decreases len - i,
    {
        proof {
            assert(chars@.take(i + 1).drop_last() =~= chars@.take(i as int));
        }
        if char_matches(regex, chars[i]) {
            n += 1;
        }
        i += 1;
    }
    assert(chars@.take(len as int) =~= chars@);
    n
}

/// Whether filtering keeps `c`, given whether `c` is an ideograph.
pub fn keeps_char(c: char, ideograph: bool) -> (r: bool)
    ensures
        r == (ideograph || puncs().contains(c) || ascii_alnum(c)),
{
    ideograph || is_punc(c) || is_ascii_alnum(c)
}

/// Drops every character that is neither an ideograph, nor punctuation, nor
/// an ASCII letter or digit.
pub fn filter_irrelevant_chars(patterns: &Patterns, text: &str) -> (r: String)
    ensures
        r@ == retain_allowed(text@),
{
    let chars = to_chars(text);
    let len: usize = chars.len();
    let mut kept: Vec<char> = Vec::new();
    let mut i: usize = 0;
    while i < len
        invariant
            i <= len,
            len == chars.len(),
            kept@ == retain_allowed(chars@.take(i as int)),
        decreases len - i,
    {
        proof {
            assert(chars@.take(i + 1).drop_last() =~= chars@.take(i as int));
        }
        let c = chars[i];
        if keeps_char(c, patterns.is_cjk(c)) {
            kept.push(c);
        }
        i += 1;
    }
    assert(chars@.take(len as int) =~= chars@);
    from_chars(&kept)
}

/// Filtering is idempotent: a filtered text passes the filter unchanged.
pub proof fn lemma_retain_allowed_idempotent(s: Seq<char>)
    ensures
        retain_allowed(retain_allowed(s)) == retain_allowed(s),
    decreases s.len(),
{
    if s.len() > 0 {
        let t = s.drop_last();
        lemma_retain_allowed_idempotent(t);
        if allowed(s.last()) {
            let r = retain_allowed(t);
            assert(r.push(s.last()).drop_last() =~= r);
        }
    }
}

} // verus!
