//! The script-ratio filter: keeps paragraphs that are mostly ideographs and
//! strips them of characters outside the allowed alphabet.

use crate::patterns::{filter_irrelevant_chars, ideograph_count, retain_allowed, Patterns};
use crate::validator::{first_failure, is_valid_para, pattern_hits};
use vstd::prelude::*;
use vstd::string::StringExecFns;
use vstd::string::StrSliceExecFns;

verus! {

/// Four fifths of `total`, rounded to the nearest integer. The product is
/// never halfway between two integers, so no tie-breaking rule is involved.
pub open spec fn four_fifths_rounded(total: nat) -> nat {
    (8 * total + 5) / 10
}

/// The composition threshold: at least five ideographs, and more of them
/// than four fifths of all characters, rounded.
pub open spec fn mostly_cjk(cjk: nat, total: nat) -> bool {
    cjk >= 5 && cjk > four_fifths_rounded(total)
}

/// What a paragraph contributes to the output: its filtered characters and a
/// line terminator if it is accepted and mostly ideographs, nothing
/// otherwise.
pub open spec fn sentence(p: Seq<char>) -> Seq<char> {
    if first_failure(p, pattern_hits(p)) is None && mostly_cjk(ideograph_count(p), p.len()) {
        retain_allowed(p).push('\n')
    } else {
        Seq::<char>::empty()
    }
}

/// The rounded value is the integer nearest to four fifths of `total`, and
/// that product is never halfway between two integers.
pub proof fn lemma_four_fifths_nearest(total: nat)
    ensures
        10 * four_fifths_rounded(total) - 5 < 8 * total < 10 * four_fifths_rounded(total) + 5,
{
    let r = four_fifths_rounded(total);
    assert(10 * r <= 8 * total + 5 < 10 * r + 10);
    assert(10 * r - 5 != 8 * total) by {
        assert((8 * total) % 2 == 0);
        assert((10 * r - 5) % 2 != 0);
    }
}

/// Decides the composition threshold from the two counts.
pub fn keeps_ratio(cjk: usize, total: usize) -> (r: bool)
    ensures
        r == mostly_cjk(cjk as nat, total as nat),
{
    let fifths: usize = total / 5;
    let rest: usize = total % 5;
    let rounded: usize = fifths * 4 + (rest * 8 + 5) / 10;
    assert(rounded == (8 * total + 5) / 10) by {
        assert(total == 5 * fifths + rest);
        assert(8 * total + 5 == 10 * (4 * fifths) + (8 * rest + 5));
    }
    cjk >= 5 && cjk > rounded
}

/// Applies the script-ratio filter to a paragraph: the filtered text if the
/// paragraph is mostly ideographs, `None` otherwise.
pub fn script_filter(patterns: &Patterns, para: &str) -> (r: Option<String>)
    ensures
        r is Some == mostly_cjk(ideograph_count(para@), para@.len()),
        r matches Some(s) ==> s@ == retain_allowed(para@),
{
    let cjk: usize = patterns.count_cjk(para);
    let total: usize = para.unicode_len();
    if keeps_ratio(cjk, total) {
        Some(filter_irrelevant_chars(patterns, para))
    } else {
        None
    }
}

/// Validates and filters one trimmed paragraph and appends what it
/// contributes to `result`.
pub fn append_sentence(patterns: &Patterns, para: &str, result: &mut String)
    ensures
        final(result)@ == old(result)@ + sentence(para@),
{
    if is_valid_para(patterns, para) {
        match script_filter(patterns, para) {
            Some(kept) => {
                let ghost before = result@;
                result.append(kept.as_str());
                result.append("\n");
                proof {
                    reveal_strlit("\n");
                    assert("\n"@ =~= seq!['\n']);
                    assert(result@ =~= before + retain_allowed(para@).push('\n'));
                }
            },
            None => {
                assert(result@ =~= old(result)@ + Seq::<char>::empty());
            },
        }
    } else {
        assert(result@ =~= old(result)@ + Seq::<char>::empty());
    }
}

} // verus!
