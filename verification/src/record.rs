//! The record processor: from a raw tab-separated line to the sentences of
//! the reply messages it carries.

use crate::markup::{convert_html_to_text, parsed_fragment, text_view, visible};
use crate::patterns::Patterns;
use crate::script::{append_sentence, sentence};
use crate::text::{from_chars, split, split_on, to_chars, trim, trim_chars, views};
use vstd::prelude::*;

verus! {

#[verifier::external_type_specification]
#[verifier::external_body]
pub struct ExJsonError(serde_json::Error);

/// What the processor reads from a decoded response: the success flag, if it
/// is an integer, and the message of each listed item, if the list is there
/// and the item has one.
pub struct Payload {
    pub success: Option<i64>,
    pub items: Option<Vec<Option<String>>>,
}

/// The mathematical value of a `Payload`.
pub ghost struct PayloadModel {
    pub success: Option<i64>,
    pub items: Option<Seq<Option<Seq<char>>>>,
}

impl View for Payload {
    type V = PayloadModel;

    open spec fn view(&self) -> PayloadModel {
        PayloadModel {
            success: self.success,
            items: match self.items {
                Some(v) => Some(Seq::new(v@.len(), |i: int| text_view(v@[i]))),
                None => None,
            },
        }
    }
}

/// Why a line yields no payload.
#[derive(Clone, Copy, Debug, PartialEq, Eq, Structural)]
pub enum LineError {
    /// The line has fewer than three tab-separated fields.
    MalformedRecord,
    /// The third field is not a JSON document.
    InvalidJson,
}

/// What `serde_json::from_str` makes of `json`, read at the four keys:
/// `None` if `json` is no JSON document; else the integer under `flag_key`
/// and the strings under `text_key` of the elements of the array under
/// `body_key`, then `list_key`.
pub uninterp spec fn json_payload(
    json: Seq<char>,
    flag_key: Seq<char>,
    body_key: Seq<char>,
    list_key: Seq<char>,
    text_key: Seq<char>,
) -> Option<PayloadModel>;

/// Key of the success flag.
pub open spec fn flag_key() -> Seq<char> {
    "success"@
}

/// Key of the response body.
pub open spec fn body_key() -> Seq<char> {
    "response"@
}

/// Key of the item list inside the response body.
pub open spec fn list_key() -> Seq<char> {
    "item_data"@
}

/// Key of an item's message.
pub open spec fn text_key() -> Seq<char> {
    "msg"@
}

/// The payload of a JSON text under this library's four keys.
pub open spec fn payload_of(json: Seq<char>) -> Option<PayloadModel> {
    json_payload(json, flag_key(), body_key(), list_key(), text_key())
}

/// Decodes `json` with `serde_json::from_str` into a `serde_json::Value` and
/// reads it with `Value`'s index operator, `as_i64`, `as_array` and `as_str`.
/// Indexing a value that is no object, or lacks the key, gives null, and
/// each `as_` accessor gives `None` on a value of another type; so a missing
/// or ill-typed path shows as `None` in the payload, and only a text that is
/// no JSON document is an error.
#[verifier::external_body]
pub(crate) fn read_payload(
    json: &str,
    flag_key: &str,
    body_key: &str,
    list_key: &str,
    text_key: &str,
) -> (r: Result<Payload, serde_json::Error>)
    ensures
        match r {
            Ok(p) => json_payload(json@, flag_key@, body_key@, list_key@, text_key@) == Some(p@),
            Err(_) => json_payload(json@, flag_key@, body_key@, list_key@, text_key@) is None,
        },
{
    let obj: serde_json::Value = serde_json::from_str(json)?;
    Ok(Payload {
        success: obj[flag_key].as_i64(),
        items: obj[body_key][list_key].as_array().map(|items| {
            items.iter().map(|item| item[text_key].as_str().map(|s| s.to_string())).collect()
        }),
    })
}

/// What the paragraphs of a text contribute, each trimmed first.
pub open spec fn paragraphs_output(paras: Seq<Seq<char>>) -> Seq<char>
    decreases paras.len(),
{
    if paras.len() == 0 {
        Seq::<char>::empty()
    } else {
        paragraphs_output(paras.drop_last()) + sentence(trim(paras.last()))
    }
}

/// What an extracted text contributes: the sentences of its lines.
pub open spec fn text_output(text: Seq<char>) -> Seq<char> {
    paragraphs_output(split(text, '\n'))
}

/// What one message body contributes.
pub open spec fn message_output(html: Seq<char>) -> Seq<char> {
    text_output(visible(parsed_fragment(html)))
}

/// What a list of items contributes: the output of each message, in order.
pub open spec fn items_output(items: Seq<Option<Seq<char>>>) -> Seq<char>
    decreases items.len(),
{
    if items.len() == 0 {
        Seq::<char>::empty()
    } else {
        items_output(items.drop_last()) + match items.last() {
            Some(html) => message_output(html),
            None => Seq::<char>::empty(),
        }
    }
}

/// What a payload contributes: its items' output if the success flag is 1
/// and the item list is present, nothing otherwise.
pub open spec fn payload_output(p: PayloadModel) -> Seq<char> {
    match p.items {
        Some(items) => if p.success == Some(1i64) {
            items_output(items)
        } else {
            Seq::<char>::empty()
        },
        None => Seq::<char>::empty(),
    }
}

/// What a raw line yields: an error if it has fewer than three fields or its
/// third field is no JSON document, else the output of its payload.
pub open spec fn line_result(line: Seq<char>) -> Result<Seq<char>, LineError> {
    let fields = split(line, '\t');
    if fields.len() < 3 {
        Err(LineError::MalformedRecord)
    } else {
        match payload_of(fields[2]) {
            Some(p) => Ok(payload_output(p)),
            None => Err(LineError::InvalidJson),
        }
    }
}

/// What a line contributes when a faulty line is skipped.
pub open spec fn line_output(line: Seq<char>) -> Seq<char> {
    match line_result(line) {
        Ok(out) => out,
        Err(_) => Seq::<char>::empty(),
    }
}

/// The views of a sequence of strings.
pub open spec fn string_views(lines: Seq<String>) -> Seq<Seq<char>> {
    Seq::new(lines.len(), |i: int| lines[i]@)
}

/// What a run of lines contributes, faulty lines skipped.
pub open spec fn lines_output(lines: Seq<Seq<char>>) -> Seq<char>
    decreases lines.len(),
{
    if lines.len() == 0 {
        Seq::<char>::empty()
    } else {
        lines_output(lines.drop_last()) + line_output(lines.last())
    }
}

/// Number of faulty lines in a run.
pub open spec fn faulty_lines(lines: Seq<Seq<char>>) -> nat
    decreases lines.len(),
{
    if lines.len() == 0 {
        0
    } else {
        faulty_lines(lines.drop_last()) + if line_result(lines.last()) is Err {
            1nat
        } else {
            0nat
        }
    }
}

/// Splits an extracted text into lines, trims each, and appends the
/// sentences that pass validation and the script-ratio filter.
pub fn extract_sentences(patterns: &Patterns, text: &str, result: &mut String)
    ensures
        final(result)@ == old(result)@ + text_output(text@),
{
    let chars = to_chars(text);
    let parts = split_on(&chars, '\n');
    let ghost start = result@;
    let ghost paras = views(parts@);
    let n: usize = parts.len();
    let mut i: usize = 0;
    assert(result@ =~= start + paragraphs_output(paras.take(0)));
    while i < n
        invariant
            i <= n,
            n == parts.len(),
            paras == views(parts@),
            result@ == start + paragraphs_output(paras.take(i as int)),
        decreases n - i,
    {
        let trimmed = trim_chars(&parts[i]);
        let para = from_chars(&trimmed);
        let ghost before = result@;
        append_sentence(patterns, para.as_str(), result);
        proof {
            assert(paras.take(i + 1).drop_last() =~= paras.take(i as int));
            assert(paras.take(i + 1).last() == parts@[i as int]@);
            assert(result@ =~= start + paragraphs_output(paras.take(i + 1)));
        }
        i += 1;
    }
    assert(paras.take(n as int) =~= paras);
}

/// Extracts the text of one message body and appends its sentences.
pub fn process_message(patterns: &Patterns, html: &str, result: &mut String)
    ensures
        final(result)@ == old(result)@ + message_output(html@),
{
    let text = convert_html_to_text(html);
    extract_sentences(patterns, text.as_str(), result);
}

/// Appends the sentences of every message of a payload, in the order of the
/// items, if the payload reports success.
pub fn process_payload(patterns: &Patterns, payload: &Payload, result: &mut String)
    ensures
        final(result)@ == old(result)@ + payload_output(payload@),
{
    let ghost start = result@;
    assert(result@ =~= start + Seq::<char>::empty());
    let succeeded = match payload.success {
        Some(flag) => flag == 1,
        None => false,
    };
    if !succeeded {
        return ;
    }
    match &payload.items {
        Some(items) => {
            let ghost all = payload@.items->0;
            let n: usize = items.len();
            let mut i: usize = 0;
            assert(result@ =~= start + items_output(all.take(0)));
            while i < n
                invariant
                    i <= n,
                    n == items.len(),
                    all == Seq::new(items@.len(), |k: int| text_view(items@[k])),
                    result@ == start + items_output(all.take(i as int)),
                decreases n - i,
            {
                proof {
                    assert(all.take(i + 1).drop_last() =~= all.take(i as int));
                    assert(all.take(i + 1).last() == text_view(items@[i as int]));
                }
                let ghost before = result@;
                match &items[i] {
                    Some(html) => {
                        process_message(patterns, html.as_str(), result);
                    },
                    None => {
                        assert(result@ =~= before + Seq::<char>::empty());
                    },
                }
                assert(result@ =~= start + items_output(all.take(i + 1)));
                i += 1;
            }
            assert(all.take(n as int) =~= all);
        },
        None => {},
    }
}

/// Processes one raw line: takes its third tab-separated field, decodes it,
/// and appends the sentences of its messages to `result`. On an error
/// `result` is left as it was.
pub fn process_line(patterns: &Patterns, line: &str, result: &mut String) -> (r: Result<
    (),
    LineError,
>)
    ensures
        match line_result(line@) {
            Ok(out) => r is Ok && final(result)@ == old(result)@ + out,
            Err(e) => r == Err::<(), LineError>(e) && final(result)@ == old(result)@,
        },
{
    let chars = to_chars(line);
    let fields = split_on(&chars, '\t');
    assert(views(fields@).len() == fields.len());
    if fields.len() < 3 {
        return Err(LineError::MalformedRecord);
    }
    let json = from_chars(&fields[2]);
    assert(json@ == split(line@, '\t')[2]);
    match read_payload(json.as_str(), "success", "response", "item_data", "msg") {
        Ok(payload) => {
            process_payload(patterns, &payload, result);
            Ok(())
        },
        Err(_) => Err(LineError::InvalidJson),
    }
}

/// Processes a run of lines in order, skipping each faulty line, and
/// returns how many were skipped.
pub fn process_lines(patterns: &Patterns, lines: &Vec<String>, result: &mut String) -> (skipped:
    usize)
    ensures
        final(result)@ == old(result)@ + lines_output(string_views(lines@)),
        skipped == faulty_lines(string_views(lines@)),
{
    let ghost start = result@;
    let ghost all = string_views(lines@);
    let n: usize = lines.len();
    let mut skipped: usize = 0;
    let mut i: usize = 0;
    assert(result@ =~= start + lines_output(all.take(0)));
    while i < n
        invariant
            i <= n,
            n == lines.len(),
            all == string_views(lines@),
            skipped <= i,
            skipped == faulty_lines(all.take(i as int)),
            result@ == start + lines_output(all.take(i as int)),
        decreases n - i,
    {
        proof {
            assert(all.take(i + 1).drop_last() =~= all.take(i as int));
            assert(all.take(i + 1).last() == lines@[i as int]@);
        }
        let ghost before = result@;
        match process_line(patterns, lines[i].as_str(), result) {
            Ok(_) => {},
            Err(_) => {
                skipped += 1;
                assert(result@ =~= before + Seq::<char>::empty());
            },
        }
        assert(result@ =~= start + lines_output(all.take(i + 1)));
        i += 1;
    }
    assert(all.take(n as int) =~= all);
    skipped
}

/// Splitting a run of lines into two batches loses and repeats nothing: the
/// output of the whole run is the output of the first batch followed by
/// that of the second, and the skipped lines add up.
pub proof fn lemma_batches_compose(a: Seq<Seq<char>>, b: Seq<Seq<char>>)
    ensures
        lines_output(a + b) == lines_output(a) + lines_output(b),
        faulty_lines(a + b) == faulty_lines(a) + faulty_lines(b),
    decreases b.len(),
{
    if b.len() == 0 {
        assert(a + b =~= a);
        assert(lines_output(a) + lines_output(b) =~= lines_output(a));
    } else {
        lemma_batches_compose(a, b.drop_last());
        assert((a + b).drop_last() =~= a + b.drop_last());
        assert((a + b).last() == b.last());
        assert(lines_output(a + b) =~= lines_output(a) + lines_output(b));
    }
}

} // verus!
