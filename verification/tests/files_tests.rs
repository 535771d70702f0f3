use guardrail::files::{lex_less, FileMap};

#[test]
fn file_map_keeps_paths_in_order() {
    let mut f = FileMap::new();
    assert!(f.is_empty());
    f.insert("src/main.rs".to_string(), "main".to_string());
    f.insert("Cargo.toml".to_string(), "toml".to_string());
    f.insert("src/lib.rs".to_string(), "lib".to_string());
    assert_eq!(f.len(), 3);
    assert_eq!(
        f.paths(),
        vec!["Cargo.toml".to_string(), "src/lib.rs".to_string(), "src/main.rs".to_string()]
    );
}

#[test]
fn inserting_an_existing_path_replaces_its_content() {
    let mut f = FileMap::new();
    f.insert("a".to_string(), "1".to_string());
    f.insert("b".to_string(), "2".to_string());
    f.insert("a".to_string(), "3".to_string());
    assert_eq!(f.len(), 2);
    let (p, c) = f.entry(0);
    assert_eq!((p.as_str(), c.as_str()), ("a", "3"));
    let copy = f.copy();
    let (p, c) = copy.entry(1);
    assert_eq!((p.as_str(), c.as_str()), ("b", "2"));
}

#[test]
fn lexicographic_order_matches_string_order() {
    let words = ["", "a", "ab", "b", "B", "é", "src/main.rs", "src/handlers.rs"];
    for x in words {
        for y in words {
            let xs: Vec<char> = x.chars().collect();
            let ys: Vec<char> = y.chars().collect();
            assert_eq!(lex_less(&xs, &ys), x < y, "{:?} < {:?}", x, y);
        }
    }
}
