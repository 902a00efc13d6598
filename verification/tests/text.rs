use blenvy::text::{
    capitalize_first_letter, chars_of, contains, join, ends_with, remove_all, replace_suffix,
    same_text, string_of, trim,
};

#[test]
fn remove_all_takes_out_every_occurrence() {
    assert_eq!(remove_all("component: Health", "component: "), "Health");
    assert_eq!(remove_all("abcabc", "bc"), "aa");
    assert_eq!(remove_all("aaa", "aa"), "a");
    assert_eq!(remove_all("abc", ""), "abc");
    assert_eq!(remove_all("ab", "abc"), "ab");
    assert_eq!(remove_all("", "x"), "");
}

#[test]
fn remove_all_agrees_with_std_replace() {
    for (text, pattern) in [("xaxbxc", "x"), ("ababab", "aba"), ("component: component: A", "component: ")] {
        assert_eq!(remove_all(text, pattern), text.replace(pattern, ""));
    }
}

#[test]
fn trim_drops_white_space_at_both_ends() {
    assert_eq!(trim("  Health \t\n"), "Health");
    assert_eq!(trim("a b"), "a b");
    assert_eq!(trim("   "), "");
    assert_eq!(trim(""), "");
    assert_eq!(trim("\u{3000}x\u{a0}"), "x");
}

#[test]
fn trim_agrees_with_std_trim() {
    for text in [" a ", "\u{2003}b\u{85}", "c\u{200b}", "\u{1680}d\u{205f}", "\u{feff}e"] {
        assert_eq!(trim(text), text.trim());
    }
}

#[test]
fn capitalize_first_letter_raises_an_ascii_letter() {
    assert_eq!(capitalize_first_letter("health"), "Health");
    assert_eq!(capitalize_first_letter("Health"), "Health");
    assert_eq!(capitalize_first_letter("z"), "Z");
    assert_eq!(capitalize_first_letter(""), "");
    assert_eq!(capitalize_first_letter("9lives"), "9lives");
    assert_eq!(capitalize_first_letter("élan"), "élan");
}

#[test]
fn ends_with_and_contains_find_their_pattern() {
    assert!(ends_with("node_pa", "_pa"));
    assert!(!ends_with("node_pa_x", "_pa"));
    assert!(!ends_with("pa", "_pa"));
    assert!(ends_with("anything", ""));
    assert!(contains("foo_components", "components"));
    assert!(contains("components", "components"));
    assert!(!contains("component", "components"));
    assert!(contains("abc", ""));
    assert!(!contains("", "a"));
}

#[test]
fn replace_suffix_changes_only_the_ending() {
    assert_eq!(replace_suffix("a.glb", ".glb", ".meta.ron"), "a.meta.ron");
    assert_eq!(replace_suffix("a.glb.glb", ".glb", ".meta.ron"), "a.glb.meta.ron");
    assert_eq!(replace_suffix("a.txt", ".glb", ".meta.ron"), "a.txt");
    assert_eq!(replace_suffix(".glb", ".glb", "x"), "x");
}

#[test]
fn same_text_concat_and_conversions() {
    assert!(same_text("abc", "abc"));
    assert!(!same_text("abc", "abd"));
    assert!(!same_text("abc", "ab"));
    assert_eq!(join("a", "b"), "ab");
    assert_eq!(chars_of("héllo"), vec!['h', 'é', 'l', 'l', 'o']);
    assert_eq!(string_of(&vec!['o', 'k']), "ok");
}

fn words(alphabet: &[char], max_len: usize) -> Vec<String> {
    let mut all = vec![String::new()];
    let mut last = vec![String::new()];
    for _ in 0..max_len {
        let mut next = Vec::new();
        for word in &last {
            for c in alphabet {
                let mut longer = word.clone();
                longer.push(*c);
                next.push(longer);
            }
        }
        all.extend(next.iter().cloned());
        last = next;
    }
    all
}

#[test]
fn remove_all_agrees_with_std_replace_on_all_short_texts() {
    let texts = words(&['a', 'b'], 7);
    let patterns = words(&['a', 'b'], 3);
    for text in &texts {
        for pattern in &patterns {
            assert_eq!(remove_all(text, pattern), text.replace(pattern.as_str(), ""));
        }
    }
}

#[test]
fn trim_and_search_agree_with_std_on_all_short_texts() {
    let texts = words(&[' ', 'x', '\t', '_'], 5);
    let patterns = words(&['x', '_'], 2);
    for text in &texts {
        assert_eq!(trim(text), text.trim());
        for pattern in &patterns {
            assert_eq!(contains(text, pattern), text.contains(pattern.as_str()));
            assert_eq!(ends_with(text, pattern), text.ends_with(pattern.as_str()));
        }
    }
}

#[test]
fn white_space_is_what_std_takes_for_it() {
    for code in 0..0x3100u32 {
        if let Some(c) = char::from_u32(code) {
            assert_eq!(blenvy::text::is_space_char(c), c.is_whitespace());
            assert_eq!(blenvy::text::to_ascii_upper(c), c.to_ascii_uppercase());
        }
    }
}
