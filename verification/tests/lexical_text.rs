use sentence_corpus::lexical::{
    is_ascii_alnum, is_cjk_punc, is_latin_punc, is_punc, is_shared_punc, is_white_space,
};
use sentence_corpus::text::{contains, split_on, to_chars, trim_chars};

fn chars(s: &str) -> Vec<char> {
    s.chars().collect()
}

fn text(v: &Vec<char>) -> String {
    v.iter().collect()
}

#[test]
fn punctuation_of_each_set_is_recognised() {
    for c in ['@', '#', '…', '～'] {
        assert!(is_shared_punc(c) && is_punc(c));
        assert!(!is_latin_punc(c) && !is_cjk_punc(c));
    }
    for c in ['~', '!', '\\', '\'', '"', '/'] {
        assert!(is_latin_punc(c) && is_punc(c));
        assert!(!is_shared_punc(c) && !is_cjk_punc(c));
    }
    for c in ['！', '。', '、', '「', '」', '‧'] {
        assert!(is_cjk_punc(c) && is_punc(c));
        assert!(!is_shared_punc(c) && !is_latin_punc(c));
    }
}

#[test]
fn punctuation_set_sizes() {
    let mut shared = 0;
    let mut latin = 0;
    let mut cjk = 0;
    let mut all = 0;
    for code in 0u32..0x11_0000 {
        if let Some(c) = char::from_u32(code) {
            shared += is_shared_punc(c) as usize;
            latin += is_latin_punc(c) as usize;
            cjk += is_cjk_punc(c) as usize;
            all += is_punc(c) as usize;
        }
    }
    assert_eq!(shared, 12);
    assert_eq!(latin, 23);
    assert_eq!(cjk, 32);
    assert_eq!(all, 67);
}

#[test]
fn letters_digits_and_others_are_not_punctuation() {
    for c in ['a', 'Z', '0', ' ', '\n', '中', '+', '='] {
        assert!(!is_punc(c), "{:?}", c);
    }
}

#[test]
fn ascii_alnum_agrees_with_std_on_every_char() {
    for code in 0u32..0x11_0000 {
        if let Some(c) = char::from_u32(code) {
            assert_eq!(is_ascii_alnum(c), c.is_ascii_alphanumeric(), "{:?}", c);
        }
    }
}

#[test]
fn white_space_agrees_with_std_on_every_char() {
    for code in 0u32..0x11_0000 {
        if let Some(c) = char::from_u32(code) {
            assert_eq!(is_white_space(c), c.is_whitespace(), "{:?}", c);
        }
    }
}

#[test]
fn to_chars_lists_scalar_values() {
    assert_eq!(to_chars("a中！"), vec!['a', '中', '！']);
    assert_eq!(to_chars(""), Vec::<char>::new());
}

#[test]
fn contains_finds_runs() {
    assert!(contains(&chars("see http://x"), &chars("http://")));
    assert!(contains(&chars("abc"), &chars("")));
    assert!(contains(&chars(""), &chars("")));
    assert!(contains(&chars("abc"), &chars("abc")));
    assert!(contains(&chars("aab"), &chars("ab")));
    assert!(!contains(&chars("abc"), &chars("abcd")));
    assert!(!contains(&chars("http:/"), &chars("http://")));
    assert!(!contains(&chars("abab"), &chars("bb")));
}

#[test]
fn split_on_keeps_empty_pieces() {
    let pieces: Vec<String> = split_on(&chars("a\t\tb\t"), '\t').iter().map(text).collect();
    assert_eq!(pieces, vec!["a", "", "b", ""]);
    let one: Vec<String> = split_on(&chars(""), '\t').iter().map(text).collect();
    assert_eq!(one, vec![""]);
    let none: Vec<String> = split_on(&chars("abc"), '\n').iter().map(text).collect();
    assert_eq!(none, vec!["abc"]);
}

#[test]
fn split_on_agrees_with_std() {
    for s in ["", "\n", "a\nb", "\n\na", "一\n二\n", "x\ty\nz"] {
        let got: Vec<String> = split_on(&chars(s), '\n').iter().map(text).collect();
        let want: Vec<String> = s.split('\n').map(|p| p.to_string()).collect();
        assert_eq!(got, want);
    }
}

#[test]
fn trim_chars_removes_outer_white_space_only() {
    assert_eq!(text(&trim_chars(&chars("  a b \t\r\n"))), "a b");
    assert_eq!(text(&trim_chars(&chars("\u{3000}你好\u{3000}"))), "你好");
    assert_eq!(text(&trim_chars(&chars("   "))), "");
    assert_eq!(text(&trim_chars(&chars(""))), "");
    assert_eq!(text(&trim_chars(&chars("x"))), "x");
    assert_eq!(text(&trim_chars(&chars(" x"))), "x");
    assert_eq!(text(&trim_chars(&chars("x "))), "x");
}

#[test]
fn trim_chars_agrees_with_std() {
    for s in ["", " ", "\u{a0}a\u{2003}", "a  b", "\u{85}\u{1680}z\u{2028}\u{2029}", "\u{200b}a "] {
        assert_eq!(text(&trim_chars(&chars(s))), s.trim());
    }
}
