use rime_config::lines::{blank, find_break, parse_i64, split_fields, split_lines, trim, trim_end};
use rime_config::paths::ConfigPath;
use rime_config::phrases::{
    default_header_string, entry_from, parse_custom_phrases, read_phrases, serialize_phrases,
    write_phrases, PhraseEntry, PhrasesData,
};
use rime_config::text::{
    chars_of, decimal_string, ends_with, same_text, signed_decimal_string, starts_with, string_of,
    string_of_range,
};

const DEFAULT_HEADER: &str = "# Rime custom phrase\n# encoding: utf-8\n#\n# format: phrase<TAB>code<TAB>weight\n#\n";

fn chars(s: &str) -> Vec<char> {
    s.chars().collect()
}

fn rows(items: &[&str]) -> Vec<Vec<char>> {
    items.iter().map(|s| chars(s)).collect()
}

fn phrase(phrase: &str, code: &str, weight: Option<i64>) -> PhraseEntry {
    PhraseEntry { phrase: phrase.to_string(), code: code.to_string(), weight }
}

#[test]
fn reads_header_and_phrases() {
    let content = "# my phrases\n\n#second\n你好\tnh\t100\n# comment\n\n世界\tsj\nbroken\n  spaced\tsp\t \n";
    let data = parse_custom_phrases(content);
    assert_eq!(data.header, "# my phrases\n\n#second\n");
    assert_eq!(
        data.entries,
        vec![phrase("你好", "nh", Some(100)), phrase("世界", "sj", None), phrase("spaced", "sp", None)]
    );
}

#[test]
fn default_header_where_the_text_has_none() {
    let data = parse_custom_phrases("a\tb\n# later comment\nc\td\t-3\n");
    assert_eq!(data.header, DEFAULT_HEADER);
    assert_eq!(data.entries, vec![phrase("a", "b", None), phrase("c", "d", Some(-3))]);
    let data = parse_custom_phrases("");
    assert_eq!(data, PhrasesData { header: DEFAULT_HEADER.to_string(), entries: vec![] });
    assert_eq!(read_phrases(None), PhrasesData { header: DEFAULT_HEADER.to_string(), entries: vec![] });
    assert_eq!(read_phrases(Some("x\ty")).entries, vec![phrase("x", "y", None)]);
    assert_eq!(default_header_string(), DEFAULT_HEADER);
}

#[test]
fn header_lines_are_kept_as_they_are() {
    let data = parse_custom_phrases("  \r\n#a \r\n\t\nx\ty\r\n");
    assert_eq!(data.header, "  \n#a \n\t\n");
    assert_eq!(data.entries, vec![phrase("x", "y", None)]);
    let data = parse_custom_phrases(" # indented\nx\ty\n");
    assert_eq!(data.header, DEFAULT_HEADER);
    assert_eq!(data.entries, vec![phrase("x", "y", None)]);
}

#[test]
fn weights() {
    let weight = |line: &str| entry_from(&chars(line)).unwrap().weight;
    assert_eq!(weight("a\tb\t5"), Some(5));
    assert_eq!(weight("a\tb\t+5"), Some(5));
    assert_eq!(weight("a\tb\t-0"), Some(0));
    assert_eq!(weight("a\tb\t007"), Some(7));
    assert_eq!(weight("a\tb\t9223372036854775807"), Some(i64::MAX));
    assert_eq!(weight("a\tb\t-9223372036854775808"), Some(i64::MIN));
    assert_eq!(weight("a\tb\t9223372036854775808"), None);
    assert_eq!(weight("a\tb\t-9223372036854775809"), None);
    assert_eq!(weight("a\tb\t99999999999999999999999999999999999999999999"), None);
    assert_eq!(weight("a\tb\t1.5"), None);
    assert_eq!(weight("a\tb\t 5"), None);
    assert_eq!(weight("a\tb\t5x"), None);
    assert_eq!(weight("a\tb\t-"), None);
    assert_eq!(weight("a\tb\t+"), None);
    assert_eq!(weight("a\tb\t"), None);
    assert_eq!(weight("a\tb\t\t5"), None);
    assert_eq!(weight("a\tb\t５"), None);
    assert_eq!(weight("a\tb\t7\textra"), Some(7));
}

#[test]
fn entries_need_phrase_and_code() {
    assert_eq!(entry_from(&chars("")), None);
    assert_eq!(entry_from(&chars("   ")), None);
    assert_eq!(entry_from(&chars("# x\ty")), None);
    assert_eq!(entry_from(&chars("   # x\ty")), None);
    assert_eq!(entry_from(&chars("alone")), None);
    assert_eq!(entry_from(&chars("a b")), None);
    assert_eq!(entry_from(&chars("a\t")), None);
    assert_eq!(entry_from(&chars("a\t\tx")), Some(phrase("a", "", None)));
    assert_eq!(entry_from(&chars("\tb\t3")), Some(phrase("b", "3", None)));
    assert_eq!(entry_from(&chars("\u{3000}a\tb\u{a0}")), Some(phrase("a", "b", None)));
    assert_eq!(entry_from(&chars("a \t b")), Some(phrase("a ", " b", None)));
}

#[test]
fn writes_the_table() {
    let entries = vec![phrase("你好", "nh", Some(100)), phrase("世界", "sj", None), phrase("x", "y", Some(-1))];
    assert_eq!(serialize_phrases("# head\n\n  ", &entries), "# head\n你好\tnh\t100\n世界\tsj\nx\ty\t-1\n");
    assert_eq!(serialize_phrases("", &vec![]), "\n");
    assert_eq!(serialize_phrases(DEFAULT_HEADER, &vec![phrase("a", "b", Some(0))]), "# Rime custom phrase\n# encoding: utf-8\n#\n# format: phrase<TAB>code<TAB>weight\n#\na\tb\t0\n");
    let root = ConfigPath { base: "/r".to_string(), segments: vec![] };
    let plan = write_phrases(&root, "#h\n", &entries, 42);
    assert_eq!(plan.target.segments, vec!["custom_phrase.txt".to_string()]);
    assert_eq!(plan.backup.segments, vec!["custom_phrase.txt.bak".to_string()]);
    assert_eq!(plan.temporary.segments, vec!["custom_phrase.txt.tmp.42".to_string()]);
    assert_eq!(plan.content, "#h\n你好\tnh\t100\n世界\tsj\nx\ty\t-1\n");
    let back = parse_custom_phrases(&plan.content);
    assert_eq!(back.header, "#h\n");
    assert_eq!(back.entries, entries);
}

#[test]
fn lines_as_the_standard_library_splits_them() {
    for text in ["", "a", "a\n", "a\nb", "a\r\nb\r\n", "\n", "\n\n", "a\rb\n", "a\r", "\r\n", "a\n\r", "\r\r\n", "x\n\ny\n\n"] {
        let expected: Vec<Vec<char>> = text.lines().map(|l| l.chars().collect()).collect();
        assert_eq!(split_lines(&chars(text)), expected, "lines of {:?}", text);
    }
    assert_eq!(split_lines(&chars("a\r\nb")), rows(&["a", "b"]));
}

#[test]
fn fields_as_the_standard_library_splits_them() {
    for text in ["", "a", "a\tb", "\t", "a\t", "\ta", "a\t\tb", "\t\t"] {
        let expected: Vec<Vec<char>> = text.split('\t').map(|l| l.chars().collect()).collect();
        assert_eq!(split_fields(&chars(text), '\t'), expected, "fields of {:?}", text);
    }
    assert_eq!(split_fields(&chars("a,b,,c"), ','), rows(&["a", "b", "", "c"]));
    assert_eq!(find_break(&chars("abcabc"), 1, 'a'), 3);
    assert_eq!(find_break(&chars("abcabc"), 4, 'a'), 6);
    assert_eq!(find_break(&chars("abc"), 3, 'a'), 3);
}

#[test]
fn blanks_as_the_standard_library_knows_them() {
    let mut code: u32 = 0;
    while code <= 0x3100 {
        if let Some(c) = char::from_u32(code) {
            assert_eq!(blank(c), c.is_whitespace(), "character {:#x}", code);
        }
        code += 1;
    }
    assert!(!blank('\u{feff}'));
    assert!(!blank('\u{200b}'));
    for text in ["", " ", "a", " a ", "\t a b \n", "\u{3000}x\u{2003}", "   "] {
        assert_eq!(trim(&chars(text)), chars(text.trim()));
        assert_eq!(trim_end(&chars(text)), chars(text.trim_end()));
    }
}

#[test]
fn integers_as_the_standard_library_reads_them() {
    for text in ["0", "-0", "+0", "1", "-1", "+", "-", "", "12a", "a12", "1 ", " 1", "--1", "+-1", "0000", "9223372036854775807", "9223372036854775808", "-9223372036854775808", "-9223372036854775809", "18446744073709551616", "١٢"] {
        assert_eq!(parse_i64(&chars(text)), text.parse::<i64>().ok(), "integer of {:?}", text);
    }
}

#[test]
fn strings_and_numbers() {
    assert_eq!(chars_of("héllo"), chars("héllo"));
    assert_eq!(string_of(&chars("héllo")), "héllo");
    assert_eq!(string_of_range(&chars("héllo"), 1, 3), "él");
    assert!(starts_with("abc", "") && starts_with("abc", "ab") && starts_with("abc", "abc"));
    assert!(!starts_with("abc", "abcd") && !starts_with("abc", "b"));
    assert!(ends_with("abc", "") && ends_with("abc", "bc") && ends_with("abc", "abc"));
    assert!(!ends_with("abc", "zabc") && !ends_with("abc", "ab"));
    assert!(same_text("", "") && same_text("雾凇", "雾凇"));
    assert!(!same_text("a", "b") && !same_text("a", "ab") && !same_text("ab", "a"));
    assert_eq!(decimal_string(0), "0");
    assert_eq!(decimal_string(10), "10");
    assert_eq!(decimal_string(u128::MAX), u128::MAX.to_string());
    assert_eq!(signed_decimal_string(0), "0");
    assert_eq!(signed_decimal_string(-10), "-10");
    assert_eq!(signed_decimal_string(i64::MIN), i64::MIN.to_string());
    assert_eq!(signed_decimal_string(i64::MAX), i64::MAX.to_string());
}
