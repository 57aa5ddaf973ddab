use cardinal_geocoder::text::{chars_of, contains_text, same_text, split};

fn strings(items: &[&str]) -> Vec<String> {
    items.iter().map(|s| s.to_string()).collect()
}

#[test]
fn split_agrees_with_std_on_edge_cases() {
    for s in ["", ";", "a", "a;b", "a;", ";a", ";;", "a;;b", "italian;pizza", "é;日本;x"] {
        let expected: Vec<String> = s.split(';').map(|p| p.to_string()).collect();
        assert_eq!(split(s, ';'), expected, "splitting {:?}", s);
    }
}

#[test]
fn split_exact_pieces() {
    assert_eq!(split("italian;pizza", ';'), strings(&["italian", "pizza"]));
    assert_eq!(split("", ';'), strings(&[""]));
    assert_eq!(split("a;;b;", ';'), strings(&["a", "", "b", ""]));
    assert_eq!(split("a,b", ';'), strings(&["a,b"]));
}

#[test]
fn contains_text_finds_runs() {
    assert!(contains_text("name:en", "name:"));
    assert!(contains_text("official_name:en", "name:"));
    assert!(contains_text("name:", "name:"));
    assert!(!contains_text("name", "name:"));
    assert!(!contains_text("nam:e", "name:"));
    assert!(!contains_text("", "name:"));
    assert!(contains_text("abc", ""));
    assert!(contains_text("", ""));
    assert!(contains_text("aab", "ab"));
    assert!(!contains_text("aba", "bb"));
}

#[test]
fn same_text_compares_characters() {
    assert!(same_text("name", "name"));
    assert!(!same_text("name", "names"));
    assert!(!same_text("name", "nama"));
    assert!(same_text("", ""));
    assert!(same_text("日本", "日本"));
}

#[test]
fn chars_of_gives_characters_not_bytes() {
    assert_eq!(chars_of("aé日"), vec!['a', 'é', '日']);
    assert_eq!(chars_of(""), Vec::<char>::new());
}
