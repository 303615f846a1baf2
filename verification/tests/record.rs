use sentence_corpus::markup::{convert_html_to_text, is_quoted, visible_text, MarkupNode};
use sentence_corpus::patterns::Patterns;
use sentence_corpus::record::{
    extract_sentences, process_line, process_lines, process_message, process_payload, LineError,
    Payload,
};

fn patterns() -> Patterns {
    match Patterns::new() {
        Ok(p) => p,
        Err(e) => panic!("pattern does not compile: {:?}", e),
    }
}

fn node(text: Option<&str>, ancestors: &[Option<&str>]) -> MarkupNode {
    MarkupNode {
        text: text.map(|t| t.to_string()),
        ancestors: ancestors.iter().map(|a| a.map(|s| s.to_string())).collect(),
    }
}

fn line_of(payload: &str) -> String {
    format!("1\tuser\t{}", payload)
}

#[test]
fn plain_text_of_simple_markup() {
    assert_eq!(convert_html_to_text("<p>a</p>"), "a");
    assert_eq!(convert_html_to_text("plain"), "plain");
    assert_eq!(convert_html_to_text(""), "");
    assert_eq!(convert_html_to_text("<b>x</b>y<i>z</i>"), "xyz");
}

#[test]
fn text_nodes_are_taken_verbatim() {
    assert_eq!(convert_html_to_text("<p>一</p><p>二</p>"), "一二");
    assert_eq!(convert_html_to_text("一<br>二"), "一二");
    assert_eq!(convert_html_to_text("一\n二"), "一\n二");
}

#[test]
fn quoted_reply_is_left_out() {
    assert_eq!(convert_html_to_text("<blockquote>MARKER</blockquote>after"), "after");
    assert_eq!(convert_html_to_text("before<blockquote><p>MARKER</p></blockquote>"), "before");
}

#[test]
fn nested_quoted_replies_are_left_out_at_any_depth() {
    let mut html = String::from("MARKER");
    for depth in 1..12 {
        html = format!("<blockquote><div>{}</div>x</blockquote>", html);
        let doc = format!("<div>start{}end</div>", html);
        let text = convert_html_to_text(&doc);
        assert!(!text.contains("MARKER"), "depth {}", depth);
        assert_eq!(text, "startend");
    }
}

#[test]
fn malformed_markup_still_yields_text() {
    assert_eq!(convert_html_to_text("<p>open <b>bold"), "open bold");
    assert_eq!(convert_html_to_text("<blockquote>never closed"), "");
    assert_eq!(convert_html_to_text("a < b"), "a < b");
    assert_eq!(convert_html_to_text("</p></div>tail"), "tail");
}

#[test]
fn visible_text_joins_unquoted_text_nodes() {
    let nodes = vec![
        node(None, &[None]),
        node(Some("a"), &[Some("html"), None]),
        node(Some("hidden"), &[Some("p"), Some("blockquote"), Some("html"), None]),
        node(None, &[Some("html"), None]),
        node(Some("b"), &[Some("p"), Some("html"), None]),
    ];
    assert_eq!(visible_text(&nodes), "ab");
    assert_eq!(visible_text(&Vec::new()), "");
    assert!(is_quoted(&nodes[2]));
    assert!(!is_quoted(&nodes[1]));
    assert!(!is_quoted(&node(Some("t"), &[Some("blockquotes"), None])));
}

#[test]
fn record_with_quoted_reply_yields_one_sentence() {
    let p = patterns();
    let payload = "{\"success\":1,\"response\":{\"item_data\":[{\"msg\":\"<p>這是一個測試訊息！</p><blockquote>隱藏內容</blockquote>\"}]}}";
    let mut out = String::new();
    assert_eq!(process_line(&p, &line_of(payload), &mut out), Ok(()));
    assert_eq!(out, "這是一個測試訊息！\n");
    assert_eq!(out.lines().count(), 1);
    assert!(!out.contains("隱藏內容"));
}

#[test]
fn record_without_success_yields_nothing() {
    let p = patterns();
    let mut out = String::new();
    let payload = "{\"success\":0,\"response\":{\"item_data\":[{\"msg\":\"這是一個測試訊息！\"}]}}";
    assert_eq!(process_line(&p, &line_of(payload), &mut out), Ok(()));
    assert_eq!(out, "");
    let absent = "{\"response\":{\"item_data\":[{\"msg\":\"這是一個測試訊息！\"}]}}";
    assert_eq!(process_line(&p, &line_of(absent), &mut out), Ok(()));
    assert_eq!(out, "");
    let text_flag = "{\"success\":\"1\",\"response\":{\"item_data\":[{\"msg\":\"這是一個測試訊息！\"}]}}";
    assert_eq!(process_line(&p, &line_of(text_flag), &mut out), Ok(()));
    assert_eq!(out, "");
}

#[test]
fn missing_or_ill_typed_paths_are_no_error() {
    let p = patterns();
    let mut out = String::new();
    for payload in [
        "{\"success\":1}",
        "{\"success\":1,\"response\":5}",
        "{\"success\":1,\"response\":{\"item_data\":{}}}",
        "{\"success\":1,\"response\":{\"item_data\":[]}}",
        "{\"success\":1,\"response\":{\"item_data\":[{},{\"msg\":7},3]}}",
        "[]",
        "null",
    ] {
        assert_eq!(process_line(&p, &line_of(payload), &mut out), Ok(()));
        assert_eq!(out, "");
    }
}

#[test]
fn line_with_too_few_fields_is_malformed() {
    let p = patterns();
    let mut out = String::from("kept");
    assert_eq!(process_line(&p, "", &mut out), Err(LineError::MalformedRecord));
    assert_eq!(process_line(&p, "a\tb", &mut out), Err(LineError::MalformedRecord));
    assert_eq!(out, "kept");
}

#[test]
fn third_field_that_is_no_json_is_invalid() {
    let p = patterns();
    let mut out = String::from("kept");
    assert_eq!(process_line(&p, "a\tb\t{oops", &mut out), Err(LineError::InvalidJson));
    assert_eq!(process_line(&p, "a\tb\t", &mut out), Err(LineError::InvalidJson));
    assert_eq!(out, "kept");
}

#[test]
fn only_the_third_field_is_read() {
    let p = patterns();
    let mut out = String::new();
    let payload = "{\"success\":1,\"response\":{\"item_data\":[{\"msg\":\"今日天氣真係好好呀\"}]}}";
    let line = format!("{{bad\t[1]\t{}\t{{also bad", payload);
    assert_eq!(process_line(&p, &line, &mut out), Ok(()));
    assert_eq!(out, "今日天氣真係好好呀\n");
}

#[test]
fn sentences_keep_their_order_within_a_record() {
    let p = patterns();
    let mut out = String::from("head\n");
    let payload = "{\"success\":1,\"response\":{\"item_data\":[{\"msg\":\"  第一句說話係呢句 \\n2024-01-15\\n第二句說話係呢句😀\"},{\"nomsg\":1},{\"msg\":\"<blockquote>引用嘅說話唔要</blockquote>第三句說話係呢句\"}]}}";
    assert_eq!(process_line(&p, &line_of(payload), &mut out), Ok(()));
    assert_eq!(out, "head\n第一句說話係呢句\n第二句說話係呢句\n第三句說話係呢句\n");
}

#[test]
fn extract_sentences_trims_and_filters_each_line() {
    let p = patterns();
    let mut out = String::new();
    extract_sentences(&p, "\n  今日天氣真係好好呀  \nhello world\n\n12:30:45\n哈哈哈哈哈哈\n今日 天氣，真係好好！\n今日天氣 真係好好呀呀呀", &mut out);
    assert_eq!(out, "今日天氣真係好好呀\n今日天氣真係好好呀呀呀\n");
}

#[test]
fn process_message_extracts_then_filters() {
    let p = patterns();
    let mut out = String::new();
    process_message(&p, "<div>今日天氣真係好好呀</div><blockquote>今日天氣真係唔好呀</blockquote>", &mut out);
    assert_eq!(out, "今日天氣真係好好呀\n");
}

#[test]
fn process_payload_needs_success_and_items() {
    let p = patterns();
    let msg = Some("今日天氣真係好好呀".to_string());
    let mut out = String::new();
    process_payload(&p, &Payload { success: Some(1), items: Some(vec![msg.clone(), None, msg.clone()]) }, &mut out);
    assert_eq!(out, "今日天氣真係好好呀\n今日天氣真係好好呀\n");
    let mut out = String::new();
    process_payload(&p, &Payload { success: Some(2), items: Some(vec![msg.clone()]) }, &mut out);
    process_payload(&p, &Payload { success: None, items: Some(vec![msg.clone()]) }, &mut out);
    process_payload(&p, &Payload { success: Some(1), items: None }, &mut out);
    assert_eq!(out, "");
}

#[test]
fn process_lines_skips_and_counts_faulty_lines() {
    let p = patterns();
    let good = line_of("{\"success\":1,\"response\":{\"item_data\":[{\"msg\":\"今日天氣真係好好呀\"}]}}");
    let lines = vec![good.clone(), "short\tline".to_string(), good.clone(), "a\tb\tnot json".to_string(), good];
    let mut out = String::new();
    assert_eq!(process_lines(&p, &lines, &mut out), 2);
    assert_eq!(out, "今日天氣真係好好呀\n今日天氣真係好好呀\n今日天氣真係好好呀\n");
}

#[test]
fn batches_compose_without_loss() {
    let p = patterns();
    let lines: Vec<String> = (0..7)
        .map(|i| {
            if i % 3 == 2 {
                "broken".to_string()
            } else {
                line_of(&format!("{{\"success\":1,\"response\":{{\"item_data\":[{{\"msg\":\"今日天氣真係好好呀{}\"}}]}}}}", i))
            }
        })
        .collect();
    let mut whole = String::new();
    let skipped = process_lines(&p, &lines, &mut whole);
    assert_eq!(whole.lines().count(), 5);
    for size in 1..8 {
        let mut joined = String::new();
        let mut skipped_sum = 0;
        for batch in lines.chunks(size) {
            let mut part = String::new();
            skipped_sum += process_lines(&p, &batch.to_vec(), &mut part);
            joined.push_str(&part);
        }
        assert_eq!(joined, whole);
        assert_eq!(skipped_sum, skipped);
    }
}
