use knocks::fixtures;
use knocks::language::Language;
use knocks::contract::{TEST_FAILED_MARKER, TEST_OK_MARKER};

#[test]
fn every_language_has_a_full_set() {
    for lang in Language::ALL {
        let f = fixtures::for_language(lang);
        for (name, code) in [
            ("answer", f.answer),
            ("starter", f.starter),
            ("broken", f.broken),
            ("hidden_tests", f.hidden_tests),
        ] {
            assert!(!code.trim().is_empty(), "{}: {name} が空", lang.slug());
        }
    }
}

#[test]
fn hidden_tests_emit_both_markers() {
    for lang in Language::ALL {
        let tests = fixtures::for_language(lang).hidden_tests;
        if lang == Language::Rust {
            assert!(tests.contains("#[test]"), "{}: #[test] が無い", lang.slug());
            continue;
        }
        assert!(tests.contains(TEST_OK_MARKER), "{}: 成功の目印が無い", lang.slug());
        assert!(tests.contains(TEST_FAILED_MARKER), "{}: 失敗の目印が無い", lang.slug());
    }
}

#[test]
fn broken_code_differs_from_the_answer() {
    for lang in Language::ALL {
        let f = fixtures::for_language(lang);
        assert_ne!(f.answer, f.broken, "{}: 壊れた版が模範解答と同じ", lang.slug());
        assert_ne!(f.answer, f.starter, "{}: 初期コードが模範解答と同じ", lang.slug());
    }
}

#[test]
fn compiler_signature_is_language_specific() {
    assert_eq!(fixtures::compiler_error_signature(Language::Rust), "error[E");
    assert_eq!(fixtures::compiler_error_signature(Language::Csharp), "error CS");
    assert_eq!(fixtures::compiler_error_signature(Language::Typescript), "error TS");
    assert_eq!(fixtures::compiler_error_signature(Language::Python), "SyntaxError");
}
