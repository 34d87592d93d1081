use bindgen::text::{contains, same_text};

fn has(text: &str, pat: &str) -> bool {
    contains(&text.to_string(), &pat.to_string())
}

#[test]
fn a_pattern_may_stand_anywhere() {
    assert!(has("/usr/include/zlib.h", "zlib"));
    assert!(has("zlib.h", "zlib"));
    assert!(has("zlib.h", ".h"));
    assert!(has("zlib.h", "zlib.h"));
    assert!(has("aaab", "aab"));
}

#[test]
fn a_pattern_has_to_stand_in_one_piece() {
    assert!(!has("zlib.h", "zh"));
    assert!(!has("zlib.h", "Zlib"));
    assert!(!has("zlib", "zlib.h"));
    assert!(!has("", "a"));
}

#[test]
fn the_empty_pattern_stands_everywhere() {
    assert!(has("zlib.h", ""));
    assert!(has("", ""));
}

#[test]
fn patterns_are_compared_by_character() {
    assert!(has("größe.h", "öße"));
    assert!(!has("grösse.h", "ß"));
}

#[test]
fn same_text_is_equality() {
    assert!(same_text(&"-o".to_string(), "-o"));
    assert!(!same_text(&"-o".to_string(), "-output"));
    assert!(!same_text(&String::new(), "-o"));
}
