use runtpl::text::{chars_of, keyword_at, push_chars, push_str, scan_back, scan_for, scan_run, string_of, trim, Class};

#[test]
fn chars_round_trip() {
    let v = chars_of("héllo");
    assert_eq!(v.len(), 5);
    assert_eq!(string_of(&v[..]), "héllo");
}

#[test]
fn character_classes() {
    for c in [' ', '\t', '\n', '\r', '\u{b}', '\u{c}', '\u{85}', '\u{a0}', '\u{1680}', '\u{2003}', '\u{2028}', '\u{2029}', '\u{202f}', '\u{205f}', '\u{3000}'] {
        assert!(Class::Space.test(c), "{:?}", c);
        assert!(c.is_whitespace());
    }
    for c in ['a', '_', '0', '\u{200b}', '\u{feff}', '\u{1c}'] {
        assert!(!Class::Space.test(c), "{:?}", c);
    }
    for c in ['a', 'z', 'A', 'Z', '0', '9', '_'] {
        assert!(Class::Word.test(c));
    }
    for c in ['-', '.', ' ', 'é', '{', '@'] {
        assert!(!Class::Word.test(c));
    }
}

#[test]
fn scanning() {
    let t = chars_of("  ab_1 .x  ");
    assert_eq!(scan_run(&t, 0, Class::Space), 2);
    assert_eq!(scan_run(&t, 2, Class::Word), 6);
    assert_eq!(scan_run(&t, 6, Class::Word), 6);
    assert_eq!(scan_run(&t, 11, Class::Space), 11);
    assert_eq!(scan_back(&t, 11), 9);
    assert_eq!(scan_back(&t, 9), 9);
    assert_eq!(scan_back(&t, 2), 0);
    assert_eq!(scan_for(&t, 0, '.'), 7);
    assert_eq!(scan_for(&t, 8, '.'), 11);
    assert!(keyword_at(&t, 2, &chars_of("ab_")));
    assert!(!keyword_at(&t, 3, &chars_of("ab_")));
    assert!(!keyword_at(&t, 9, &chars_of("   ")));
    assert!(keyword_at(&t, 11, &chars_of("")));
    assert!(!keyword_at(&t, 12, &chars_of("")));
}

#[test]
fn trimming() {
    assert_eq!(string_of(trim(&chars_of("  a b \n"))), "a b");
    assert_eq!(string_of(trim(&chars_of(" \t "))), "");
    assert_eq!(string_of(trim(&chars_of(""))), "");
    assert_eq!(string_of(trim(&chars_of("x"))), "x");
}

#[test]
fn appending() {
    let mut out = chars_of("ab");
    push_chars(&mut out, &chars_of("cd"));
    push_str(&mut out, "é!");
    assert_eq!(string_of(&out), "abcdé!");
}
