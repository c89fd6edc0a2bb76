use fmtna::cfg::Cfg;
use fmtna::cli::AddCli;
use fmtna::cli::DelCli;
use fmtna::exclude::add::find_pattern_line;
use fmtna::exclude::add::Data;
use fmtna::exclude::del::delete_pattern;
use fmtna::exclude::del::DelEngine;
use fmtna::exclude::should_exclude;
use fmtna::exclude::ExcludePatterns;
use fmtna::naming_conventions::NamingConvention;

fn test_cfg() -> Cfg {
    Cfg {
        naming_convention: NamingConvention::SnakeCase,
        recursive: false,
        keep_dots: false,
        keep_special_chars: false,
        keep_unicode: false,
        editor: String::from("vi"),
    }
}

#[test]
fn data_instantiation_succeeds_if_valid_patterns() {
    let valid_patterns = vec![
        "Makefile",
        "README.*",
        "LICENSE.*",
        r".*\.js",
        r".*\.ts",
        r".*\.jsx",
        r".*\.tsx",
        r".*\.hs",
        r".*\.rs",
        r".*\.py",
        r".*\.c",
        r".*\.cpp",
        r".*\.cxx",
        r".*\.h",
        r".*\.hpp",
        r".*\.hxx",
        r".*\.html",
        r".*\.css",
    ];
    for pattern in valid_patterns {
        Data::new(AddCli { pattern: String::from(pattern) }, test_cfg())
            .expect("Data::new should have succeed. There must be an error in the test case, or the pattern is indeed invalid.");
    }
}

#[test]
fn data_instantiation_fails_if_invalid_patterns() {
    let invalid_patterns = vec!["***", "(((", "[[["];
    for pattern in invalid_patterns {
        assert!(
            Data::new(AddCli { pattern: String::from(pattern) }, test_cfg()).is_err(),
            "Expected Data:new to error."
        );
    }
}

#[test]
fn exclusion_matches_basenames_only_as_compiled() {
    let mut patterns = ExcludePatterns::new();
    assert!(patterns.try_add(r".*\.rs"));
    assert!(patterns.try_add("Makefile"));
    assert_eq!(patterns.len(), 2);

    assert!(should_exclude(&patterns, Some("main.rs")));
    assert!(should_exclude(&patterns, Some("Makefile")));
    assert!(!should_exclude(&patterns, Some("main.c")));
    // a path without a filename component is always excluded
    assert!(should_exclude(&patterns, None));
    // the empty set matches nothing
    let empty = ExcludePatterns::new();
    assert!(!should_exclude(&empty, Some("main.rs")));
}

#[test]
fn invalid_pattern_is_rejected_and_not_kept() {
    let mut patterns = ExcludePatterns::new();
    assert!(!patterns.try_add("(("));
    assert_eq!(patterns.len(), 0);
}

#[test]
fn find_pattern_line_skips_comments_and_blanks() {
    let lines: Vec<String> = vec![
        String::from("// comment"),
        String::from(""),
        String::from("Makefile"),
        String::from(r".*\.rs"),
    ];
    assert_eq!(find_pattern_line(&lines, "Makefile"), Some(2));
    assert_eq!(find_pattern_line(&lines, r".*\.rs"), Some(3));
    assert_eq!(find_pattern_line(&lines, "// comment"), None);
    assert_eq!(find_pattern_line(&lines, "absent"), None);
}

#[test]
fn delete_pattern_removes_matches_and_suggests_closest() {
    let lines: Vec<String> = vec![
        String::from("// keep me"),
        String::from("Makefile"),
        String::from(r".*\.rs"),
        String::from("Makefile"),
    ];
    let out = delete_pattern(&lines, "Makefile");
    assert!(out.found);
    assert_eq!(out.kept, vec![String::from("// keep me"), String::from(r".*\.rs")]);

    let out = delete_pattern(&lines, "Makefil");
    assert!(!out.found);
    assert_eq!(out.kept, lines);
    assert_eq!(out.closest, Some(String::from("Makefile")));

    // the suggestion is the line at the smallest edit distance, not the
    // first line seen
    let shuffled: Vec<String> = vec![
        String::from("zzzzzzzz"),
        String::from(r".*\.rs"),
        String::from("Makefile"),
    ];
    let out = delete_pattern(&shuffled, "Makefil");
    assert!(!out.found);
    assert_eq!(out.closest, Some(String::from("Makefile")));

    let engine = DelEngine::new(DelCli { pattern: String::from("x") }, test_cfg());
    assert_eq!(engine.data.pattern, "x");
}
