use edinet_xbrl::archive::{find_xbrl_entry, is_xbrl_entry};
use edinet_xbrl::endpoints::{archive_file_name, archive_path, document_list_url, document_url};
use edinet_xbrl::models::api::{
    DocumentInfo, DocumentListAPIResponse, DocumentListMetadata, ResultSet,
};
use edinet_xbrl::numeric::{float_literal, is_number};
use edinet_xbrl::string_map::StringMap;
use edinet_xbrl::text::{bytes_equal, has_suffix, str_equal, strip_prefix};

/// Whether the text is one of the words that the float parser of the standard
/// library takes for a value, with or without a sign.
fn is_word(text: &str) -> bool {
    let unsigned = text.strip_prefix('+').or(text.strip_prefix('-')).unwrap_or(text);
    ["inf", "infinity", "nan"].iter().any(|word| unsigned.eq_ignore_ascii_case(word))
}

#[test]
fn number_texts_are_the_decimal_literals() {
    let accepted = [
        "0", "1000", "400", "007", "3.14", "-3.14", "+3.14", "5.", ".5", "-.5", "+5.", "1e5",
        "1E5", "1e+5", "1e-5", "1.5e10", ".5E-3", "5.e3", "-0", "0.0",
        "123456789012345678901234567890", "1e400", "1e-400", "00.00e00",
    ];
    let long_mantissa = "9".repeat(1000);
    let long_fraction = format!("0.{}1", "0".repeat(1000));
    let long_exponent = format!("1e{}", "9".repeat(40));
    let small_exponent = format!("1e-{}", "9".repeat(40));
    for text in [&long_mantissa, &long_fraction, &long_exponent, &small_exponent] {
        assert!(text.parse::<f64>().is_ok(), "{}", text);
        assert!(is_number(text), "{}", text);
    }
    for text in accepted {
        assert!(text.parse::<f64>().is_ok(), "{}", text);
        assert!(is_number(text), "{}", text);
        assert!(float_literal(text.as_bytes()), "{}", text);
    }
    let words = [
        "inf", "INF", "Inf", "-inf", "+inf", "infinity", "Infinity", "INFINITY", "-infinity",
        "nan", "NaN", "NAN", "-nan", "+NaN",
    ];
    for text in words {
        assert!(is_word(text), "{}", text);
        assert!(!is_number(text), "{}", text);
        assert!(!float_literal(text.as_bytes()), "{}", text);
    }
    let rejected = [
        "", " ", "+", "-", ".", "+.", "-.", "e", "e5", "E5", ".e5", "1e", "1e+", "1e-", "1e5.",
        "1e5.0", "1e1e1", "1..2", "1.2.3", "..", "1,000", "1_000", " 1", "1 ", "1\n", "\t1",
        "0x10", "1f", "1.0f64", "--1", "+-1", "++1", "1-", "1+", "not_a_number", "n/a", "in",
        "infi", "infinit", "infinityy", "na", "nann", "i", "1inf", "inf1", "+", "١٢٣", "１２",
        "1e５", "½", "1·5", "∞", "−1", "1e 5", "1 e5", "$1", "1%", "(1)", "1/2",
    ];
    for text in rejected {
        assert!(text.parse::<f64>().is_err(), "{}", text);
        assert!(!is_number(text), "{}", text);
        assert!(!float_literal(text.as_bytes()), "{}", text);
    }
}

#[test]
fn number_texts_agree_with_the_parser_on_short_strings() {
    let alphabet = ['0', '7', '.', 'e', 'E', '+', '-', 'i', 'n', 'f', 'a', ' '];
    let mut texts = vec![String::new()];
    let mut frontier = vec![String::new()];
    for _ in 0..4 {
        let mut next = Vec::new();
        for text in &frontier {
            for letter in alphabet {
                let mut longer = text.clone();
                longer.push(letter);
                next.push(longer);
            }
        }
        texts.extend(next.iter().cloned());
        frontier = next;
    }
    assert_eq!(texts.len(), 1 + 12 + 144 + 1728 + 20736);
    for text in &texts {
        let literal = text.parse::<f64>().is_ok() && !is_word(text);
        assert_eq!(is_number(text), literal, "{:?}", text);
    }
}

#[test]
fn bytes_that_are_no_text_are_no_number() {
    assert!(!float_literal(&[0xff]));
    assert!(!float_literal(&[0x31, 0x80]));
    assert!(float_literal(&[0x2d, 0x31, 0x2e, 0x35]));
}

#[test]
fn strings_are_equal_when_their_letters_are() {
    assert!(str_equal("", ""));
    assert!(str_equal("contextRef", "contextRef"));
    assert!(!str_equal("contextRef", "contextref"));
    assert!(!str_equal("contextRef", "contextRe"));
    assert!(!str_equal("a", ""));
    assert!(str_equal("売上高", "売上高"));
    assert!(!str_equal("売上高", "売上"));
    assert!(bytes_equal(&[1, 2, 3], &[1, 2, 3]));
    assert!(!bytes_equal(&[1, 2, 3], &[1, 2, 4]));
    assert!(!bytes_equal(&[1, 2, 3], &[1, 2]));
    assert!(bytes_equal(&[], &[]));
}

#[test]
fn a_prefix_is_stripped_where_it_stands() {
    assert_eq!(strip_prefix("xmlns:jppfs_cor", "xmlns:"), Some("jppfs_cor"));
    assert_eq!(strip_prefix("xmlns:", "xmlns:"), Some(""));
    assert_eq!(strip_prefix("xmlns", "xmlns:"), None);
    assert_eq!(strip_prefix("xmlnsx:a", "xmlns:"), None);
    assert_eq!(strip_prefix("Xmlns:a", "xmlns:"), None);
    assert_eq!(strip_prefix("", "xmlns:"), None);
    assert_eq!(strip_prefix("abc", ""), Some("abc"));
    assert_eq!(strip_prefix("", ""), Some(""));
    assert_eq!(strip_prefix("xmlns:名前", "xmlns:"), Some("名前"));
    assert_eq!(strip_prefix("名前空間", "名前"), Some("空間"));
    assert_eq!(strip_prefix("名前空間", "名"), Some("前空間"));
    assert_eq!(strip_prefix("é", "e"), None);
    for (text, prefix) in [("xmlns:a", "xmlns:"), ("ab", "abc"), ("名前", "前"), ("a", "a")] {
        assert_eq!(strip_prefix(text, prefix), text.strip_prefix(prefix));
    }
}

#[test]
fn a_suffix_is_found_where_it_stands() {
    assert!(has_suffix("report.xbrl", ".xbrl"));
    assert!(has_suffix(".xbrl", ".xbrl"));
    assert!(!has_suffix("xbrl", ".xbrl"));
    assert!(!has_suffix("report.xbrl.bak", ".xbrl"));
    assert!(!has_suffix("report.XBRL", ".xbrl"));
    assert!(has_suffix("anything", ""));
    assert!(has_suffix("", ""));
    assert!(!has_suffix("", "a"));
    assert!(has_suffix("報告書.xbrl", ".xbrl"));
    assert!(has_suffix("名前空間", "空間"));
    assert!(!has_suffix("名前空間", "名前"));
    for (text, suffix) in [("a.xbrl", ".xbrl"), ("ab", "cab"), ("é", "e"), ("日本", "本")] {
        assert_eq!(has_suffix(text, suffix), text.ends_with(suffix));
    }
}

#[test]
fn the_first_markup_entry_of_an_archive_is_chosen() {
    assert!(is_xbrl_entry("XBRL/PublicDoc/jpcrp040300-q1r-001.xbrl"));
    assert!(!is_xbrl_entry("XBRL/PublicDoc/jpcrp040300-q1r-001.xsd"));
    assert!(!is_xbrl_entry("XBRL/PublicDoc/jpcrp040300-q1r-001_lab.xml"));
    let names: Vec<String> = ["a/b.xsd", "a/c.xbrl", "a/d.xbrl", "e.htm"]
        .iter()
        .map(|n| n.to_string())
        .collect();
    assert_eq!(find_xbrl_entry(&names), Some(1));
    let names: Vec<String> = ["a/b.xsd", "e.htm"].iter().map(|n| n.to_string()).collect();
    assert_eq!(find_xbrl_entry(&names), None);
    assert_eq!(find_xbrl_entry(&Vec::new()), None);
    assert_eq!(find_xbrl_entry(&vec!["x.xbrl".to_string()]), Some(0));
}

#[test]
fn addresses_and_archive_names_are_spelled_out() {
    assert_eq!(
        document_list_url("2015-04-01", "KEY"),
        "https://api.edinet-fsa.go.jp/api/v2/documents.json?date=2015-04-01&type=2&Subscription-Key=KEY"
    );
    assert_eq!(
        document_url("S1004ABC", "KEY"),
        "https://api.edinet-fsa.go.jp/api/v2/documents/S1004ABC?type=1&Subscription-Key=KEY"
    );
    assert_eq!(archive_file_name("S1004ABC"), "S1004ABC_xbrl.zip");
    assert_eq!(archive_path("S1004ABC"), "xbrl/S1004ABC_xbrl.zip");
    assert_eq!(
        document_list_url("", ""),
        "https://api.edinet-fsa.go.jp/api/v2/documents.json?date=&type=2&Subscription-Key="
    );
}

fn info(code: Option<&str>) -> DocumentInfo {
    DocumentInfo {
        seq_number: 1,
        doc_id: "S1004ABC".to_string(),
        edinet_code: None,
        sec_code: None,
        doc_type_code: code.map(|c| c.to_string()),
        submit_date_time: None,
        filer_name: None,
    }
}

fn response(status: &str) -> DocumentListAPIResponse {
    DocumentListAPIResponse {
        metadata: DocumentListMetadata {
            title: "list".to_string(),
            status: status.to_string(),
            message: "OK".to_string(),
            process_date: "2015-04-01 00:00".to_string(),
            result_set: ResultSet { count: 0 },
        },
        results: Vec::new(),
    }
}

#[test]
fn quarterly_reports_are_told_by_their_type() {
    assert!(info(Some("140")).is_quarterly_report());
    assert!(info(Some("150")).is_quarterly_report());
    assert!(!info(Some("120")).is_quarterly_report());
    assert!(!info(Some("1400")).is_quarterly_report());
    assert!(!info(Some("")).is_quarterly_report());
    assert!(!info(None).is_quarterly_report());
    assert!(response("200").is_success());
    assert!(!response("404").is_success());
    assert!(!response("").is_success());
    assert!(!response("2000").is_success());
}

#[test]
fn a_string_map_binds_each_key_once() {
    let mut map = StringMap::new();
    assert!(map.is_empty());
    assert_eq!(map.len(), 0);
    assert_eq!(map.get("a"), None);
    map.insert("a".to_string(), "1".to_string());
    map.insert("b".to_string(), "2".to_string());
    map.insert("a".to_string(), "3".to_string());
    assert!(!map.is_empty());
    assert_eq!(map.len(), 2);
    assert_eq!(map.get("a"), Some(&"3".to_string()));
    assert_eq!(map.get("b"), Some(&"2".to_string()));
    assert!(map.contains_key("b"));
    assert!(!map.contains_key("c"));
    assert_eq!(
        map.entries(),
        &vec![("a".to_string(), "3".to_string()), ("b".to_string(), "2".to_string())]
    );
}
