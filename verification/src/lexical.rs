//! Character classes: punctuation sets, ASCII alphanumerics and white space.

use vstd::prelude::*;

verus! {

/// Symbols that occur in both Latin-script and Chinese text.
pub open spec fn shared_puncs() -> Set<char> {
    set!['@', '#', '$', '%', '^', '&', '*', '·', '…', '‥', '—', '～']
}

/// Punctuation of Latin-script text.
pub open spec fn latin_puncs() -> Set<char> {
    set![
        '~', '`', '!', '(', ')', '-', '_', '{', '}', '[', ']', '|', '\\', ':', ';', '"', '\'',
        '<', '>', ',', '.', '?', '/',
    ]
}

/// Punctuation of Chinese text.
pub open spec fn cjk_puncs() -> Set<char> {
    set![
        '！', '：', '；', '“', '”', '‘', '’', '【', '】', '（', '）', '「', '」', '﹁', '﹂',
        '『', '』', '《', '》', '？', '，', '。', '、', '／', '＋', '〈', '〉', '︿', '﹀',
        '［', '］', '‧',
    ]
}

/// The union of the three punctuation sets.
pub open spec fn puncs() -> Set<char> {
    shared_puncs().union(latin_puncs()).union(cjk_puncs())
}

/// ASCII letters and digits.
pub open spec fn ascii_alnum(c: char) -> bool {
    ('0' <= c && c <= '9') || ('a' <= c && c <= 'z') || ('A' <= c && c <= 'Z')
}

/// Characters with the Unicode property White_Space.
pub open spec fn white_space(c: char) -> bool {
    ('\u{9}' <= c && c <= '\u{d}') || c == ' ' || c == '\u{85}' || c == '\u{a0}'
        || c == '\u{1680}' || ('\u{2000}' <= c && c <= '\u{200a}') || c == '\u{2028}'
        || c == '\u{2029}' || c == '\u{202f}' || c == '\u{205f}' || c == '\u{3000}'
}

/// Membership in the shared symbol set.
pub fn is_shared_punc(c: char) -> (r: bool)
    ensures
        r == shared_puncs().contains(c),
{
    match c {
        '@' | '#' | '$' | '%' | '^' | '&' | '*' | '·' | '…' | '‥' | '—' | '～' => true,
        _ => false,
    }
}

/// Membership in the Latin punctuation set.
pub fn is_latin_punc(c: char) -> (r: bool)
    ensures
        r == latin_puncs().contains(c),
{
    match c {
        '~' | '`' | '!' | '(' | ')' | '-' | '_' | '{' | '}' | '[' | ']' | '|' | '\\' | ':'
        | ';' | '"' | '\'' | '<' | '>' | ',' | '.' | '?' | '/' => true,
        _ => false,
    }
}

/// Membership in the Chinese punctuation set.
pub fn is_cjk_punc(c: char) -> (r: bool)
    ensures
        r == cjk_puncs().contains(c),
{
    match c {
        '！' | '：' | '；' | '“' | '”' | '‘' | '’' | '【' | '】' | '（' | '）' | '「' | '」'
        | '﹁' | '﹂' | '『' | '』' | '《' | '》' | '？' | '，' | '。' | '、' | '／' | '＋'
        | '〈' | '〉' | '︿' | '﹀' | '［' | '］' | '‧' => true,
        _ => false,
    }
}

/// Membership in the union of the three punctuation sets.
pub fn is_punc(c: char) -> (r: bool)
    ensures
        r == puncs().contains(c),
{
    is_shared_punc(c) || is_latin_punc(c) || is_cjk_punc(c)
}

/// Whether `c` is an ASCII letter or digit.
pub fn is_ascii_alnum(c: char) -> (r: bool)
    ensures
        r == ascii_alnum(c),
{
    ('0' <= c && c <= '9') || ('a' <= c && c <= 'z') || ('A' <= c && c <= 'Z')
}

/// Whether `c` is white space.
pub fn is_white_space(c: char) -> (r: bool)
    ensures
        r == white_space(c),
{
    ('\u{9}' <= c && c <= '\u{d}') || c == ' ' || c == '\u{85}' || c == '\u{a0}'
        || c == '\u{1680}' || ('\u{2000}' <= c && c <= '\u{200a}') || c == '\u{2028}'
        || c == '\u{2029}' || c == '\u{202f}' || c == '\u{205f}' || c == '\u{3000}'
}

/// The three punctuation sets have no character in common.
pub proof fn lemma_punctuation_sets_disjoint()
    ensures
        shared_puncs().disjoint(latin_puncs()),
        shared_puncs().disjoint(cjk_puncs()),
        latin_puncs().disjoint(cjk_puncs()),
{
}

} // verus!
