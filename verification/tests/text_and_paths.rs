use csv_relay::paths::{
    file_extension, file_name, file_stem, is_csv, joined, last_index, parent, stamped,
};
use csv_relay::text::{
    appended, is_whitespace, leading_line, same_text, trimmed, without_one_trailing,
    without_trailing_commas,
};

#[test]
fn whitespace_is_the_unicode_property() {
    for c in [' ', '\t', '\n', '\r', '\u{0B}', '\u{0C}', '\u{85}', '\u{A0}', '\u{1680}', '\u{2003}', '\u{2028}', '\u{2029}', '\u{202F}', '\u{205F}', '\u{3000}'] {
        assert!(is_whitespace(c), "{:?}", c);
        assert!(c.is_whitespace());
    }
    for c in ['a', ',', '0', '\u{200B}', '\u{FEFF}', '\u{1C}'] {
        assert!(!is_whitespace(c), "{:?}", c);
        assert!(!c.is_whitespace());
    }
}

#[test]
fn trimmed_removes_white_space_at_both_ends_only() {
    assert_eq!(trimmed("  a b \n"), "a b");
    assert_eq!(trimmed("\r\n\tid,amount\u{A0}"), "id,amount");
    assert_eq!(trimmed("abc"), "abc");
    assert_eq!(trimmed(" \n\t "), "");
    assert_eq!(trimmed(""), "");
    assert_eq!(trimmed(" é "), "é");
}

#[test]
fn trailing_commas_are_all_removed() {
    assert_eq!(without_trailing_commas("a,b,,,"), "a,b");
    assert_eq!(without_trailing_commas("a,b"), "a,b");
    assert_eq!(without_trailing_commas(",,"), "");
    assert_eq!(without_trailing_commas(",a"), ",a");
    assert_eq!(without_trailing_commas("a, ,"), "a, ");
}

#[test]
fn one_trailing_character_is_removed() {
    assert_eq!(without_one_trailing("a,b,,", ','), "a,b,");
    assert_eq!(without_one_trailing("a,b", ','), "a,b");
    assert_eq!(without_one_trailing("", ','), "");
    assert_eq!(without_one_trailing("root\n", '\n'), "root");
    assert_eq!(without_one_trailing("root\n\n", '\n'), "root\n");
}

#[test]
fn leading_line_stops_at_the_first_line_feed() {
    assert_eq!(leading_line("id,amount\n1,2\n"), "id,amount");
    assert_eq!(leading_line("id,amount\r\n1,2\r\n"), "id,amount");
    assert_eq!(leading_line("id,amount"), "id,amount");
    assert_eq!(leading_line("id,amount\r"), "id,amount\r");
    assert_eq!(leading_line("\nsecond"), "");
    assert_eq!(leading_line("\r\nsecond"), "");
    assert_eq!(leading_line(""), "");
    assert_eq!(leading_line("a\rb\nc"), "a\rb");
}

#[test]
fn appended_and_same_text() {
    assert_eq!(appended("ab", "cd"), "abcd");
    assert_eq!(appended("", ""), "");
    assert!(same_text("abc", "abc"));
    assert!(!same_text("abc", "abd"));
    assert!(!same_text("abc", "ab"));
}

#[test]
fn last_index_finds_the_last_occurrence() {
    assert_eq!(last_index("/a/b/c", '/'), Some(4));
    assert_eq!(last_index("abc", '/'), None);
    assert_eq!(last_index("", '/'), None);
    assert_eq!(last_index("/", '/'), Some(0));
    assert_eq!(last_index("é/é", '/'), Some(1));
}

#[test]
fn file_name_is_what_follows_the_last_slash() {
    assert_eq!(file_name("/data/in/orders.csv"), "orders.csv");
    assert_eq!(file_name("orders.csv"), "orders.csv");
    assert_eq!(file_name("/orders.csv"), "orders.csv");
    assert_eq!(file_name("/data/in/"), "");
    assert_eq!(file_name(""), "");
}

#[test]
fn parent_is_the_containing_directory() {
    assert_eq!(parent("/data/in/orders.csv"), "/data/in");
    assert_eq!(parent("/orders.csv"), "/");
    assert_eq!(parent("orders.csv"), "");
    assert_eq!(parent("in/orders.csv"), "in");
    assert_eq!(parent(""), "");
}

#[test]
fn stem_and_extension_split_at_the_last_dot() {
    assert_eq!(file_stem("orders.csv"), "orders");
    assert_eq!(file_extension("orders.csv"), Some("csv".to_string()));
    assert_eq!(file_stem("a.b.csv"), "a.b");
    assert_eq!(file_extension("a.b.csv"), Some("csv".to_string()));
    assert_eq!(file_stem("orders"), "orders");
    assert_eq!(file_extension("orders"), None);
    assert_eq!(file_stem(".csv"), ".csv");
    assert_eq!(file_extension(".csv"), None);
    assert_eq!(file_stem("orders."), "orders");
    assert_eq!(file_extension("orders."), Some(String::new()));
    assert_eq!(file_stem(""), "");
    assert_eq!(file_extension(""), None);
}

#[test]
fn csv_paths_are_told_by_the_extension_of_the_file_name() {
    assert!(is_csv("/data/in/orders.csv"));
    assert!(is_csv("orders.csv"));
    assert!(is_csv("/data/a.b.csv"));
    assert!(!is_csv("/data/in/.csv"));
    assert!(!is_csv("/data/in/orders.CSV"));
    assert!(!is_csv("/data/in/orders.csv.metadata"));
    assert!(!is_csv("/data/in.csv/orders"));
    assert!(!is_csv("/data/in/orders.csvx"));
    assert!(!is_csv("/data/in/upload.log"));
    assert!(!is_csv(""));
}

#[test]
fn joined_puts_one_separator_between_directory_and_name() {
    assert_eq!(joined("/data/in", "upload.log"), "/data/in/upload.log");
    assert_eq!(joined("/data/in/", "upload.log"), "/data/in/upload.log");
    assert_eq!(joined("/", "upload.log"), "/upload.log");
    assert_eq!(joined("", "upload.log"), "upload.log");
}

#[test]
fn stamped_inserts_the_stamp_before_the_extension() {
    assert_eq!(stamped("/data/in/orders.csv", "20240102"), "/data/in/orders_20240102.csv");
    assert_eq!(stamped("orders.csv", "t"), "orders_t.csv");
    assert_eq!(stamped("/d/a.b.csv", "t"), "/d/a.b_t.csv");
    assert_eq!(stamped("/d/orders", "t"), "/d/orders_t");
    assert_eq!(stamped("/d/.csv", "t"), "/d/.csv_t");
    assert_eq!(stamped("/d.x/orders.csv", ""), "/d.x/orders_.csv");
}
