use cargo_gc::library::Library;
use cargo_gc::string_set::StringSet;
use cargo_gc::text::{push_decimal, split_lines, str_eq, strip_prefix};

#[test]
fn str_eq_compares_characters() {
    assert!(str_eq("", ""));
    assert!(str_eq("dev", "dev"));
    assert!(!str_eq("dev", "de"));
    assert!(!str_eq("de", "dev"));
    assert!(!str_eq("dev", "dew"));
    assert!(str_eq("é-ü", "é-ü"));
    assert!(!str_eq("é", "e"));
}

#[test]
fn strip_prefix_gives_the_rest() {
    assert_eq!(strip_prefix("--features=a,b", "--features="), Some("a,b".to_string()));
    assert_eq!(strip_prefix("--features=", "--features="), Some(String::new()));
    assert_eq!(strip_prefix("--features", "--features="), None);
    assert_eq!(strip_prefix("x--features=a", "--features="), None);
    assert_eq!(strip_prefix("abc", ""), Some("abc".to_string()));
    assert_eq!(strip_prefix("", "a"), None);
    assert_eq!(strip_prefix("éüß", "éü"), Some("ß".to_string()));
}

#[test]
fn push_decimal_writes_digits() {
    for n in [0u64, 1, 9, 10, 11, 99, 100, 101, 12345, 1_000_000, u64::MAX] {
        let mut out = "n=".to_string();
        push_decimal(&mut out, n);
        assert_eq!(out, format!("n={}", n));
    }
}

#[test]
fn string_set_holds_each_string_once() {
    let mut set = StringSet::new();
    assert_eq!(set.len(), 0);
    assert!(set.insert("b".to_string()));
    assert!(set.insert("a".to_string()));
    assert!(!set.insert("b".to_string()));
    assert_eq!(set.len(), 2);
    assert!(set.contains("a"));
    assert!(!set.contains("c"));
    assert_eq!(set.item_at(0), "b");
    assert_eq!(set.item_at(1), "a");
    assert_eq!(set.into_vec(), vec!["b".to_string(), "a".to_string()]);
}

#[test]
fn library_keeps_one_value_per_key() {
    let mut table: Library<u32> = Library::new();
    table.insert("a".to_string(), "1".to_string(), 10);
    table.insert("a".to_string(), "2".to_string(), 20);
    table.insert("a".to_string(), "1".to_string(), 30);
    assert_eq!(table.len(), 2);
    assert_eq!(table.get("a", "1"), Some(&30));
    assert_eq!(table.get("a", "2"), Some(&20));
    assert_eq!(table.get("a", "3"), None);
    assert_eq!(table.get("1", "a"), None);
    assert_eq!(table.find("a", "2"), Some(1));
    assert_eq!(table.name_at(1), "a");
    assert_eq!(table.hash_at(1), "2");
    assert_eq!(table.value_at(0), &30);
    assert!(table.contains_name("a"));
    assert!(!table.contains_name("b"));

    assert!(table.replace("a", "2", 21));
    assert!(!table.replace("b", "2", 99));
    assert_eq!(table.get("a", "2"), Some(&21));
    assert_eq!(table.len(), 2);

    table.clear();
    assert_eq!(table.len(), 0);
    assert!(!table.contains_name("a"));
}

#[test]
fn split_lines_cuts_at_line_feeds() {
    let none: Vec<String> = vec![];
    assert_eq!(split_lines(""), none);
    assert_eq!(split_lines("a"), vec!["a"]);
    assert_eq!(split_lines("a\n"), vec!["a"]);
    assert_eq!(split_lines("a\nb"), vec!["a", "b"]);
    assert_eq!(split_lines("a\n\nb\n"), vec!["a", "", "b"]);
    assert_eq!(split_lines("\n"), vec![""]);
    assert_eq!(split_lines("\n\n"), vec!["", ""]);
}

#[test]
fn split_lines_drops_a_carriage_return_before_a_line_feed() {
    assert_eq!(split_lines("a\r\nb\r\n"), vec!["a", "b"]);
    assert_eq!(split_lines("a\r\r\nb"), vec!["a\r", "b"]);
    assert_eq!(split_lines("a\rb\n"), vec!["a\rb"]);
    assert_eq!(split_lines("a\r"), vec!["a\r"]);
    assert_eq!(split_lines("\r"), vec!["\r"]);
    assert_eq!(split_lines("\r\n"), vec![""]);
    assert_eq!(split_lines("x\n\r"), vec!["x", "\r"]);
}

#[test]
fn split_lines_agrees_with_the_standard_library() {
    for text in [
        "",
        "one",
        "{\"a\":1}\n{\"b\":2}\n",
        "\r\n\r\n",
        "a\r\nb\rc\n\rd\r",
        "é\nü\r\n",
        "\n\r\n\r",
        "tail\r\r",
    ] {
        let expected: Vec<String> = text.lines().map(|l| l.to_string()).collect();
        assert_eq!(split_lines(text), expected, "{:?}", text);
    }
}
