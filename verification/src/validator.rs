//! The paragraph validator: nine rejection rules, tried in a fixed order.

use crate::patterns::{date_source, english_source, regex_matches, time_source, Patterns};
use crate::text::{contains, contains_seq, to_chars};
use vstd::prelude::*;

verus! {

/// A rejection rule. The variants are declared in the order in which the
/// rules are tried.
#[derive(Clone, Copy, Debug, PartialEq, Eq, Structural)]
pub enum Rule {
    /// The paragraph has no characters.
    Empty,
    /// The paragraph is the notice that stands in for a deleted reply.
    Deleted,
    /// The paragraph carries the marker of a cross-posted message.
    CrossPosted,
    /// The paragraph has fewer than 5 or more than 20 characters.
    Length,
    /// The paragraph holds a web address.
    Url,
    /// The paragraph is made of ASCII letters and spaces only.
    EnglishOnly,
    /// The paragraph is a date.
    Date,
    /// The paragraph is a time of day.
    Time,
    /// The paragraph has fewer than a fifth as many distinct characters as
    /// characters.
    Repetitive,
}

/// What the three anchored patterns say of a paragraph.
#[derive(Clone, Copy, Debug, PartialEq, Eq, Structural)]
pub struct PatternHits {
    pub english: bool,
    pub date: bool,
    pub time: bool,
}

/// The notice that stands in for a deleted reply.
pub open spec fn deleted_notice() -> Seq<char> {
    "此回覆已被刪除"@
}

/// The marker of a cross-posted message.
pub open spec fn cross_post_marker() -> Seq<char> {
    "分享自 LIHKG 討論區"@
}

/// Start of a plain web address.
pub open spec fn http_scheme() -> Seq<char> {
    "http://"@
}

/// Start of a secure web address.
pub open spec fn https_scheme() -> Seq<char> {
    "https://"@
}

/// Position of a rule in the order of evaluation, from 1.
pub open spec fn rank(rule: Rule) -> nat {
    match rule {
        Rule::Empty => 1,
        Rule::Deleted => 2,
        Rule::CrossPosted => 3,
        Rule::Length => 4,
        Rule::Url => 5,
        Rule::EnglishOnly => 6,
        Rule::Date => 7,
        Rule::Time => 8,
        Rule::Repetitive => 9,
    }
}

/// Whether `rule`, taken alone, rejects the paragraph `p`.
pub open spec fn fails(rule: Rule, p: Seq<char>, hits: PatternHits) -> bool {
    match rule {
        Rule::Empty => p.len() == 0,
        Rule::Deleted => p == deleted_notice(),
        Rule::CrossPosted => contains_seq(p, cross_post_marker()),
        Rule::Length => p.len() < 5 || p.len() > 20,
        Rule::Url => contains_seq(p, http_scheme()) || contains_seq(p, https_scheme()),
        Rule::EnglishOnly => hits.english,
        Rule::Date => hits.date,
        Rule::Time => hits.time,
        Rule::Repetitive => p.to_set().len() * 5 < p.len(),
    }
}

/// The first of the five rules that need no pattern to reject `p`, if any.
pub open spec fn first_plain_failure(p: Seq<char>) -> Option<Rule> {
    if p.len() == 0 {
        Some(Rule::Empty)
    } else if p == deleted_notice() {
        Some(Rule::Deleted)
    } else if contains_seq(p, cross_post_marker()) {
        Some(Rule::CrossPosted)
    } else if p.len() < 5 || p.len() > 20 {
        Some(Rule::Length)
    } else if contains_seq(p, http_scheme()) || contains_seq(p, https_scheme()) {
        Some(Rule::Url)
    } else {
        None
    }
}

/// The first rule, in order, that rejects `p`; `None` when `p` is accepted.
pub open spec fn first_failure(p: Seq<char>, hits: PatternHits) -> Option<Rule> {
    match first_plain_failure(p) {
        Some(rule) => Some(rule),
        None => if hits.english {
            Some(Rule::EnglishOnly)
        } else if hits.date {
            Some(Rule::Date)
        } else if hits.time {
            Some(Rule::Time)
        } else if p.to_set().len() * 5 < p.len() {
            Some(Rule::Repetitive)
        } else {
            None
        },
    }
}

/// What the three compiled patterns say of `p`.
pub open spec fn pattern_hits(p: Seq<char>) -> PatternHits {
    PatternHits {
        english: regex_matches(english_source(), p),
        date: regex_matches(date_source(), p),
        time: regex_matches(time_source(), p),
    }
}

/// Position of a rule in the order of evaluation, from 1: the number of
/// rules that were tried when this one rejected.
pub fn rule_number(rule: Rule) -> (n: u8)
    ensures
        n == rank(rule),
{
    match rule {
        Rule::Empty => 1,
        Rule::Deleted => 2,
        Rule::CrossPosted => 3,
        Rule::Length => 4,
        Rule::Url => 5,
        Rule::EnglishOnly => 6,
        Rule::Date => 7,
        Rule::Time => 8,
        Rule::Repetitive => 9,
    }
}

/// Whether two character vectors hold the same text.
pub fn same_chars(a: &Vec<char>, b: &Vec<char>) -> (r: bool)
    ensures
        r == (a@ == b@),
{
    if a.len() != b.len() {
        return false;
    }
    let n: usize = a.len();
    let mut i: usize = 0;
    while i < n
        invariant
            i <= n,
            n == a.len(),
            n == b.len(),
            forall|k: int| 0 <= k < i ==> a@[k] == b@[k],
        decreases n - i,
    {
        if a[i] != b[i] {
            return false;
        }
        i += 1;
    }
    assert(a@ =~= b@);
    true
}

/// Number of distinct characters in `chars`.
pub fn distinct_count(chars: &Vec<char>) -> (n: usize)
    ensures
        n == chars@.to_set().len(),
        n <= chars.len(),
{
    let len: usize = chars.len();
    let mut seen: Vec<char> = Vec::new();
    let mut i: usize = 0;
    assert(seen@.to_set() =~= chars@.take(0).to_set());
    while i < len
        invariant
            i <= len,
            len == chars.len(),
            seen.len() <= i,
            seen@.no_duplicates(),
            seen@.to_set() == chars@.take(i as int).to_set(),
        decreases len - i,
    {
        let c = chars[i];
        proof {
            assert(chars@.take(i + 1) =~= chars@.take(i as int).push(c));
            chars@.take(i as int).lemma_push_to_set_commute(c);
            seen@.lemma_push_to_set_commute(c);
        }
        let mut found = false;
        let mut j: usize = 0;
        while j < seen.len()
            invariant
                j <= seen.len(),
                found == exists|k: int| 0 <= k < j && seen@[k] == c,
            decreases seen.len() - j,
        {
            if seen[j] == c {
                found = true;
            }
            j += 1;
        }
        if !found {
            seen.push(c);
        } else {
            assert(seen@.contains(c));
            assert(seen@.to_set().insert(c) =~= seen@.to_set());
        }
        i += 1;
    }
    proof {
        assert(chars@.take(len as int) =~= chars@);
        seen@.unique_seq_to_set();
    }
    seen.len()
}

/// The first of the five pattern-free rules that rejects `chars`, if any.
pub fn plain_rejection(chars: &Vec<char>) -> (r: Option<Rule>)
    ensures
        r == first_plain_failure(chars@),
{
    let n: usize = chars.len();
    if n == 0 {
        return Some(Rule::Empty);
    }
    if same_chars(chars, &to_chars("此回覆已被刪除")) {
        return Some(Rule::Deleted);
    }
    if contains(chars, &to_chars("分享自 LIHKG 討論區")) {
        return Some(Rule::CrossPosted);
    }
    if n < 5 || n > 20 {
        return Some(Rule::Length);
    }
    if contains(chars, &to_chars("http://")) || contains(chars, &to_chars("https://")) {
        return Some(Rule::Url);
    }
    None
}

/// Whether `chars` has fewer than a fifth as many distinct characters as
/// characters.
pub fn is_repetitive(chars: &Vec<char>) -> (r: bool)
    ensures
        r == (chars@.to_set().len() * 5 < chars@.len()),
{
    let distinct: usize = distinct_count(chars);
    let len: usize = chars.len();
    if distinct > len / 5 {
        false
    } else {
        distinct * 5 < len
    }
}

/// The first rule that rejects `para`, given what the three patterns say of
/// it; `None` when the paragraph is accepted.
pub fn rejection_given(para: &str, hits: PatternHits) -> (r: Option<Rule>)
    ensures
        r == first_failure(para@, hits),
{
    let chars = to_chars(para);
    match plain_rejection(&chars) {
        Some(rule) => Some(rule),
        None => {
            if hits.english {
                Some(Rule::EnglishOnly)
            } else if hits.date {
                Some(Rule::Date)
            } else if hits.time {
                Some(Rule::Time)
            } else if is_repetitive(&chars) {
                Some(Rule::Repetitive)
            } else {
                None
            }
        },
    }
}

/// The first rule that rejects `para`; `None` when the paragraph is
/// accepted. A pattern is consulted only when every earlier rule has passed.
pub fn rejection(patterns: &Patterns, para: &str) -> (r: Option<Rule>)
    ensures
        r == first_failure(para@, pattern_hits(para@)),
{
    let chars = to_chars(para);
    match plain_rejection(&chars) {
        Some(rule) => { return Some(rule); },
        None => {},
    }
    if patterns.is_english_only(para) {
        return Some(Rule::EnglishOnly);
    }
    if patterns.is_date(para) {
        return Some(Rule::Date);
    }
    if patterns.is_time(para) {
        return Some(Rule::Time);
    }
    if is_repetitive(&chars) {
        return Some(Rule::Repetitive);
    }
    None
}

/// Whether `para` passes every rule.
pub fn is_valid_para(patterns: &Patterns, para: &str) -> (r: bool)
    ensures
        r == (first_failure(para@, pattern_hits(para@)) is None),
        r ==> 5 <= para@.len() <= 20,
        r ==> !contains_seq(para@, http_scheme()) && !contains_seq(para@, https_scheme()),
        r ==> para@ != deleted_notice(),
{
    rejection(patterns, para).is_none()
}

/// An accepted paragraph has between 5 and 20 characters, holds no web
/// address and is not the deleted-reply notice.
pub proof fn lemma_accepted_paragraph(p: Seq<char>, hits: PatternHits)
    requires
        first_failure(p, hits) is None,
    ensures
        5 <= p.len() <= 20,
        !contains_seq(p, http_scheme()),
        !contains_seq(p, https_scheme()),
        p != deleted_notice(),
{
}

/// The verdict names the first rule that fails: a paragraph is rejected by
/// `rule` exactly when `rule` fails and every rule before it passes.
pub proof fn lemma_rejected_by_first_failing_rule(p: Seq<char>, hits: PatternHits, rule: Rule)
    ensures
        first_failure(p, hits) == Some(rule) <==> (fails(rule, p, hits) && forall|earlier: Rule|
            rank(earlier) < rank(rule) ==> !#[trigger] fails(earlier, p, hits)),
        first_failure(p, hits) is None <==> forall|any: Rule| !#[trigger] fails(any, p, hits),
{
    assert(fails(Rule::Empty, p, hits) == (p.len() == 0));
    assert(fails(Rule::Deleted, p, hits) == (p == deleted_notice()));
    assert(fails(Rule::CrossPosted, p, hits) == contains_seq(p, cross_post_marker()));
    assert(fails(Rule::Length, p, hits) == (p.len() < 5 || p.len() > 20));
    assert(fails(Rule::Url, p, hits) == (contains_seq(p, http_scheme()) || contains_seq(
        p,
        https_scheme(),
    )));
    assert(fails(Rule::EnglishOnly, p, hits) == hits.english);
    assert(fails(Rule::Date, p, hits) == hits.date);
    assert(fails(Rule::Time, p, hits) == hits.time);
    assert(fails(Rule::Repetitive, p, hits) == (p.to_set().len() * 5 < p.len()));
}

/// A rejection does not depend on any later rule: if `rule` rejects under
/// one set of pattern answers, it rejects under every other set that agrees
/// on the rules up to and including `rule`.
pub proof fn lemma_later_rules_ignored(
    p: Seq<char>,
    hits: PatternHits,
    other: PatternHits,
    rule: Rule,
)
    requires
        first_failure(p, hits) == Some(rule),
        forall|r: Rule| rank(r) <= rank(rule) ==> #[trigger] fails(r, p, hits) == fails(r, p, other),
    ensures
        first_failure(p, other) == Some(rule),
{
    assert(fails(Rule::EnglishOnly, p, hits) == hits.english);
    assert(fails(Rule::Date, p, hits) == hits.date);
    assert(fails(Rule::Time, p, hits) == hits.time);
    assert(fails(Rule::EnglishOnly, p, other) == other.english);
    assert(fails(Rule::Date, p, other) == other.date);
    assert(fails(Rule::Time, p, other) == other.time);
}

} // verus!
