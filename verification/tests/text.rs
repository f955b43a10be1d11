use slv::text::{answers, chars_of, is_space, same_text, trim, trim_bounds};

#[test]
fn chars_of_lists_the_characters() {
    assert_eq!(chars_of(""), Vec::<char>::new());
    assert_eq!(chars_of("a⚡c"), vec!['a', '⚡', 'c']);
}

#[test]
fn is_space_agrees_with_char_is_whitespace() {
    let mut code: u32 = 0;
    while code <= 0x10ffff {
        if let Some(c) = char::from_u32(code) {
            assert_eq!(is_space(c), c.is_whitespace(), "{:x}", code);
        }
        code += 1;
    }
}

#[test]
fn trim_agrees_with_str_trim() {
    for input in ["", " ", "a", " a", "a ", "  a b  ", "\n", "\r\n", "default\n", "\t x\u{3000}", "⚡ ", " ⚡a⚡ ",
        "\u{a0}\u{2009}word\u{85}", "in ner"]
    {
        assert_eq!(trim(input), input.trim(), "{:?}", input);
    }
}

#[test]
fn trim_bounds_count_characters() {
    assert_eq!(trim_bounds(&chars_of("  ab ")), (2, 4));
    assert_eq!(trim_bounds(&chars_of("ab")), (0, 2));
    assert_eq!(trim_bounds(&chars_of(" ⚡⚡  ")), (1, 3));
    let (from, to) = trim_bounds(&chars_of("   "));
    assert_eq!(from, to);
    assert_eq!(trim_bounds(&chars_of("")), (0, 0));
}

#[test]
fn same_text_compares_characters() {
    assert!(same_text("", ""));
    assert!(same_text("exit", "exit"));
    assert!(!same_text("exit", "exit "));
    assert!(!same_text("exit", "exiT"));
    assert!(!same_text("a", ""));
}

#[test]
fn answers_ignores_the_space_around() {
    assert!(answers("exit\n", "exit"));
    assert!(answers("  y \r\n", "y"));
    assert!(answers("\n", ""));
    assert!(!answers("yes\n", "y"));
    assert!(!answers("e xit", "exit"));
}
