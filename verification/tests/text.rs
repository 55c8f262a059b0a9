use pop_launcher_plugins::text::{
    found_at, join, join2, same_text, split, starts_with, strip_prefix, trim_start, white_space,
};

fn strings(parts: &[&str]) -> Vec<String> {
    parts.iter().map(|p| p.to_string()).collect()
}

#[test]
fn starts_with_compares_exactly() {
    assert!(starts_with("media Spot", "media "));
    assert!(starts_with("media", ""));
    assert!(!starts_with("Media Spot", "media "));
    assert!(!starts_with("med", "media "));
}

#[test]
fn strip_prefix_returns_the_rest() {
    assert_eq!(strip_prefix("media Spot", "media "), Some("Spot"));
    assert_eq!(strip_prefix("media ", "media "), Some(""));
    assert_eq!(strip_prefix("medium", "media "), None);
    assert_eq!(strip_prefix("héllo wörld", "héllo "), Some("wörld"));
}

#[test]
fn trim_start_removes_leading_white_space_only() {
    assert_eq!(trim_start("  \t Vol up "), "Vol up ");
    assert_eq!(trim_start("Vol"), "Vol");
    assert_eq!(trim_start("   "), "");
    assert_eq!(trim_start(""), "");
    assert_eq!(trim_start("\u{3000}\u{a0}x"), "x");
}

#[test]
fn white_space_agrees_with_the_standard_library() {
    let mut code: u32 = 0;
    while code <= 0x3100 {
        if let Some(c) = char::from_u32(code) {
            assert_eq!(white_space(c), c.is_whitespace());
        }
        code += 1;
    }
}

#[test]
fn same_text_compares_characters() {
    assert!(same_text("Play", "Play"));
    assert!(!same_text("Play", "play"));
    assert!(!same_text("Play", "Pla"));
    assert!(same_text("", ""));
}

#[test]
fn join2_concatenates() {
    assert_eq!(join2("media", " "), "media ");
    assert_eq!(join2("", ""), "");
}

#[test]
fn found_at_looks_at_one_position() {
    assert!(found_at("a::b", "::", 1));
    assert!(!found_at("a::b", "::", 0));
    assert!(!found_at("a::b", "::", 3));
    assert!(!found_at("a::b", "::", 9));
}

#[test]
fn split_cuts_at_each_separator() {
    assert_eq!(split("std::vec::Vec", "::"), strings(&["std", "vec", "Vec"]));
    assert_eq!(split("Vec", "::"), strings(&["Vec"]));
    assert_eq!(split("", "::"), strings(&[""]));
    assert_eq!(split("std::", "::"), strings(&["std", ""]));
    assert_eq!(split("::std", "::"), strings(&["", "std"]));
    assert_eq!(split("a:::b", "::"), strings(&["a", ":b"]));
    assert_eq!(split("struct.Vec.html", "."), strings(&["struct", "Vec", "html"]));
}

#[test]
fn split_agrees_with_the_standard_library() {
    for text in ["", "a", "a.b", ".a.", "..", "a::b::", ":::::", "x:y::z"] {
        for sep in [".", "::", ":"] {
            let expected: Vec<String> = text.split(sep).map(|p| p.to_string()).collect();
            assert_eq!(split(text, sep), expected);
        }
    }
}

#[test]
fn split_with_an_empty_separator_cuts_nothing() {
    assert_eq!(split("abc", ""), strings(&["abc"]));
}

#[test]
fn join_puts_the_separator_between_parts() {
    assert_eq!(join(&strings(&["std", "vec"]), "/"), "std/vec");
    assert_eq!(join(&strings(&["std"]), "/"), "std");
    assert_eq!(join(&strings(&[]), "/"), "");
    assert_eq!(join(&strings(&["", ""]), "/"), "/");
}
