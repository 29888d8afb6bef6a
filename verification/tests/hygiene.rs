use cista::hygiene::{
    assert_budget, companion_test_path, count_expect, count_let_underscore, count_substring,
    is_test_support_path, scrub_rust_source,
};

#[test]
fn count_substring_counts_occurrences() {
    assert_eq!(count_substring("hello world hello", "hello"), 2);
    assert_eq!(count_substring("no match here", "xyz"), 0);
    assert_eq!(count_substring("", "a"), 0);
    assert_eq!(count_substring("aaa", "aa"), 2);
}

#[test]
fn count_expect_without_subtract() {
    let src = "x.expect(\"a\"); self.expect(\"b\");";
    assert_eq!(count_expect(src, false), 2);
}

#[test]
fn count_expect_subtracts_self_expect() {
    let src = "x.expect(\"a\"); self.expect(\"b\");";
    assert_eq!(count_expect(src, true), 1);
}

#[test]
fn count_expect_empty() {
    assert_eq!(count_expect("", false), 0);
    assert_eq!(count_expect("no dot expect here", false), 0);
}

#[test]
fn count_let_underscore_counts_lines() {
    let src = "let _ = foo();\nbar();\nlet _ = baz();";
    assert_eq!(count_let_underscore(src), 2);
}

#[test]
fn count_let_underscore_ignores_inline_occurrences() {
    assert_eq!(count_let_underscore("let _ = a(); let _ = b();"), 1);
}

#[test]
fn count_let_underscore_empty() {
    assert_eq!(count_let_underscore(""), 0);
}

#[test]
fn assert_budget_does_not_panic_on_match() {
    assert!(assert_budget(".unwrap()", 0, 0).is_ok());
    assert!(assert_budget(".unwrap()", 1, 5).is_ok());
}

#[test]
fn assert_budget_reports_an_exceeded_budget() {
    let error = assert_budget("test", 3, 1).expect_err("over budget");
    assert!(error.contains("budget exceeded"));
    assert_eq!(error, "test budget exceeded: found 3, max 1.");
}

#[test]
fn is_test_support_path_matches_exact_names() {
    assert!(is_test_support_path("src/test_support.rs"));
    assert!(is_test_support_path("test_support.rs"));
    assert!(is_test_support_path("src/test_support/mod.rs"));
}

#[test]
fn is_test_support_path_rejects_other_paths() {
    assert!(!is_test_support_path("src/lib.rs"));
    assert!(!is_test_support_path(""));
}

#[test]
fn companion_test_path_generates_expected_name() {
    assert_eq!(companion_test_path("src/lib.rs"), Some("src/lib_test.rs".to_owned()));
    assert_eq!(
        companion_test_path("foo/bar/baz.rs"),
        Some("foo/bar/baz_test.rs".to_owned())
    );
}

#[test]
fn companion_test_path_returns_none_without_stem() {
    assert_eq!(companion_test_path(""), None);
}

#[test]
fn scrub_rust_source_preserves_code_characters() {
    let src = "fn foo() -> i32 { 42 }";
    assert_eq!(scrub_rust_source(src), src);
}

#[test]
fn scrub_rust_source_replaces_line_comments_with_spaces() {
    let src = "abc // comment\nxyz";
    let expected = "abc           \nxyz";
    assert_eq!(scrub_rust_source(src), expected);
}

#[test]
fn scrub_rust_source_replaces_block_comments_with_spaces() {
    let src = "abc /* inner */ xyz";
    let expected = "abc             xyz";
    assert_eq!(scrub_rust_source(src), expected);
}

#[test]
fn scrub_rust_source_replaces_string_literals_with_spaces() {
    let src = "x = \"hello\";";
    let expected = "x =        ;";
    assert_eq!(scrub_rust_source(src), expected);
}

#[test]
fn scrub_rust_source_handles_empty_input() {
    assert_eq!(scrub_rust_source(""), "");
}

#[test]
fn scrub_keeps_length_and_newlines() {
    let src = "let s = \"a\\\"b\"; // tail\n/* x\ny */ z";
    let out = scrub_rust_source(src);
    assert_eq!(out.chars().count(), src.chars().count());
    for (a, b) in src.chars().zip(out.chars()) {
        assert!(a == b || b == ' ' || (a == '\n' && b == '\n'));
        if a == '\n' {
            assert_eq!(b, '\n');
        }
    }
}

fn source(path: &str, content: &str) -> cista::hygiene::SourceFile {
    cista::hygiene::SourceFile {
        path: path.to_owned(),
        content: content.to_owned(),
        scrubbed: scrub_rust_source(content),
    }
}

#[test]
fn budgets_are_counted_over_scrubbed_production_sources() {
    let files = vec![source(
        "src/lib.rs",
        "fn a() { x.unwrap(); y.expect(\"e\"); // z.unwrap()\n let _ = f(); }",
    )];
    let counts = cista::hygiene::count_budgets(&files, false);
    assert_eq!(counts.unwrap, 1);
    assert_eq!(counts.expect, 1);
    assert_eq!(counts.let_underscore, 1);
    assert_eq!(counts.panic, 0);
}

#[test]
fn the_first_exceeded_budget_is_reported() {
    let counts = cista::hygiene::Counts {
        unwrap: 0,
        expect: 3,
        panic: 5,
        unreachable: 0,
        todo: 0,
        unimplemented: 0,
        let_underscore: 0,
        inline_test_modules: 0,
        test_attr_in_production: 0,
    };
    let budgets = cista::hygiene::Budgets {
        unwrap: 0,
        expect: 1,
        panic: 1,
        unreachable: 0,
        todo: 0,
        unimplemented: 0,
        let_underscore: 0,
        inline_test_modules: 0,
        test_attr_in_production: 0,
    };
    assert_eq!(
        cista::hygiene::assert_budgets(counts, budgets).unwrap_err(),
        ".expect( budget exceeded: found 3, max 1."
    );
}

#[test]
fn production_files_skip_tests_and_exclusions() {
    let config = cista::hygiene::ScanConfig {
        source_roots: vec!["src".to_owned()],
        exclude_path_suffixes: vec!["generated.rs".to_owned()],
        subtract_self_expect: false,
    };
    let files = cista::hygiene::collect_production_files(
        &config,
        vec![
            ("src/lib.rs".to_owned(), "fn a() {}".to_owned()),
            ("src/lib_test.rs".to_owned(), "#[test] fn t() {}".to_owned()),
            ("src/test_support.rs".to_owned(), "".to_owned()),
            ("src/generated.rs".to_owned(), "".to_owned()),
            ("src/b.rs".to_owned(), "// c\nfn b() {}".to_owned()),
        ],
    );
    let paths: Vec<&str> = files.iter().map(|f| f.path.as_str()).collect();
    assert_eq!(paths, ["src/lib.rs", "src/b.rs"]);
    assert_eq!(files[1].scrubbed, "    \nfn b() {}");
}

#[test]
fn companion_tests_must_be_declared_by_path_module() {
    let good = source("src/store.rs", "#[cfg(test)]\n#[path = \"store_test.rs\"]\nmod tests;");
    let bad = source("src/faber.rs", "fn x() {}");
    let existing = vec!["src/store_test.rs".to_owned(), "src/faber_test.rs".to_owned()];
    assert!(cista::hygiene::assert_companion_tests_use_cfg_path_module_convention(
        &[good],
        &existing
    )
    .is_ok());
    let error = cista::hygiene::assert_companion_tests_use_cfg_path_module_convention(
        &[bad],
        &existing,
    )
    .unwrap_err();
    assert!(error.starts_with("src/faber.rs has companion test src/faber_test.rs"));
}

#[test]
fn scrub_rust_source_replaces_char_literals_with_spaces() {
    let src = "let ch = 'x';";
    let expected = "let ch =    ;";
    assert_eq!(scrub_rust_source(src), expected);
}

#[test]
fn scrub_rust_source_preserves_lifetimes() {
    let src = "fn foo<'a>(x: &'a str) -> &'a str";
    let expected = "fn foo<  >(x: &   str) -> &   str";
    assert_eq!(scrub_rust_source(src), expected);
}
