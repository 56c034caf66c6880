use knocks::language::Language;

#[test]
fn slug_roundtrips() {
    for l in Language::ALL {
        assert_eq!(Language::from_slug(l.slug()), Some(l));
    }
}

#[test]
fn unknown_slug_is_none() {
    assert_eq!(Language::from_slug("ruby"), None);
    assert_eq!(Language::from_slug(""), None);
    assert_eq!(Language::from_slug("Rust"), None);
}

#[test]
fn slugs_are_unique() {
    let mut seen = std::collections::HashSet::new();
    for l in Language::ALL {
        assert!(seen.insert(l.slug()), "slug 重複: {}", l.slug());
    }
}

#[test]
fn python_uses_hash_comment_others_use_slashes() {
    assert_eq!(Language::Python.line_comment(), "#");
    for l in Language::ALL.into_iter().filter(|l| *l != Language::Python) {
        assert_eq!(l.line_comment(), "//", "{} の行コメント", l.slug());
    }
}

#[test]
fn source_file_names_are_distinct_per_language() {
    let mut seen = std::collections::HashSet::new();
    for l in Language::ALL {
        assert!(seen.insert(l.source_file_name()), "{} のファイル名が重複", l.slug());
    }
    assert_eq!(Language::Java.source_file_name(), "prog.java");
}

#[test]
fn labels_are_human_readable() {
    assert_eq!(Language::Cpp.label(), "C++");
    assert_eq!(Language::Csharp.label(), "C#");
    for l in Language::ALL {
        assert!(!l.label().is_empty());
    }
}

#[test]
fn editor_modes_and_labels_follow_the_language() {
    for (language, label) in [
        (Language::Rust, "Rust"),
        (Language::Java, "Java"),
        (Language::Python, "Python"),
        (Language::Typescript, "TypeScript"),
        (Language::Javascript, "JavaScript"),
    ] {
        assert_eq!(language.label(), label);
        assert_eq!(language.editor_mode(), language.slug());
    }
}

#[test]
fn typescript_flags_are_one_argument_list() {
    assert_eq!(knocks::language::tsc_flags_cli(), "--target es2020");
}
