use fiction_tools::helpers::name_to_id;

#[test]
fn plain_title_becomes_lowercase() {
    assert_eq!(name_to_id("Title"), "title");
}

#[test]
fn whitespace_runs_become_one_dash() {
    assert_eq!(name_to_id("My  Great\t Title"), "my-great-title");
}

#[test]
fn underscore_and_dash_pass_through() {
    assert_eq!(name_to_id("a_b-c"), "a_b-c");
}

#[test]
fn other_characters_are_dropped() {
    assert_eq!(name_to_id("Hello, World!"), "hello-world");
}

#[test]
fn dropped_character_between_spaces_gives_two_dashes() {
    assert_eq!(name_to_id("a ! b"), "a--b");
}

#[test]
fn explicit_id_is_taken_verbatim() {
    assert_eq!(name_to_id("My Title {#custom-id}"), "custom-id");
    assert_eq!(name_to_id("My Title {#Custom.ID!}"), "Custom.ID!");
}

#[test]
fn explicit_id_stops_at_whitespace() {
    assert_eq!(name_to_id("Part {#one two}"), "one");
    assert_eq!(name_to_id("Part {.class #one .other}"), "one");
}

#[test]
fn explicit_id_without_closing_brace_runs_to_the_end() {
    assert_eq!(name_to_id("Part {#open"), "open");
}

#[test]
fn directive_without_hash_is_cut_off() {
    assert_eq!(name_to_id("Part One {.class}"), "part-one-");
    assert_eq!(name_to_id("Part{.class}"), "part");
}

#[test]
fn empty_text_gives_empty_id() {
    assert_eq!(name_to_id(""), "");
    assert_eq!(name_to_id("!!!"), "");
}

#[test]
fn lowercase_may_grow() {
    assert_eq!(name_to_id("\u{130}x"), "i\u{307}x");
}

#[test]
fn unicode_letters_are_kept() {
    assert_eq!(name_to_id("\u{c9}t\u{e9} 2024"), "\u{e9}t\u{e9}-2024");
}

#[test]
fn slug_holds_only_its_alphabet() {
    for text in ["Hello, World!", "a_b-c d", "\u{c9}t\u{e9} 2024 \u{130}", "  x  ", "#$%"] {
        let id = name_to_id(text);
        for c in id.chars() {
            let from_text = text
                .chars()
                .any(|t| t.is_alphanumeric() && t.to_lowercase().any(|l| l == c));
            assert!(c == '-' || c == '_' || from_text, "{c:?} in {id:?}");
        }
    }
}

#[test]
fn explicit_id_ignores_the_title() {
    for (title, id) in [("My Title ", "custom-id"), ("", "X.Y"), ("a#b ", "#")] {
        assert_eq!(name_to_id(&format!("{title}{{#{id}}} rest")), id);
    }
}

#[test]
fn whitespace_is_the_unicode_property() {
    let listed = |n: u32| {
        (0x09..=0x0d).contains(&n)
            || n == 0x20
            || n == 0x85
            || n == 0xa0
            || n == 0x1680
            || (0x2000..=0x200a).contains(&n)
            || n == 0x2028
            || n == 0x2029
            || n == 0x202f
            || n == 0x205f
            || n == 0x3000
    };
    let mut count = 0;
    for n in 0..=0x10ffff_u32 {
        if let Some(c) = char::from_u32(n) {
            assert_eq!(c.is_whitespace(), listed(n), "{n:#x}");
            if listed(n) {
                count += 1;
                assert_eq!(name_to_id(&format!("a{c}{c}b")), "a-b");
            }
        }
    }
    assert_eq!(count, 25);
}
