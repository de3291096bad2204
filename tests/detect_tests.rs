use legend_indexer::config::Config;
use legend_indexer::detect::{extension_of, DetectionReport, LanguageDetector, LanguageInfo, WalkEntry};
use legend_indexer::language::Language;

/// The entries of a walk over a tree holding these files: the root, each
/// directory once, and each file.
fn walk(files: &[&str]) -> Vec<WalkEntry> {
    let mut entries = vec![WalkEntry::Visited { components: vec![], is_file: false }];
    let mut seen: Vec<Vec<String>> = Vec::new();
    for f in files {
        let parts: Vec<String> = f.split('/').map(|s| s.to_string()).collect();
        for n in 1..parts.len() {
            let dir = parts[..n].to_vec();
            if !seen.contains(&dir) {
                seen.push(dir.clone());
                entries.push(WalkEntry::Visited { components: dir, is_file: false });
            }
        }
        entries.push(WalkEntry::Visited { components: parts, is_file: true });
    }
    entries
}

fn find_lang(langs: &[LanguageInfo], lang: Language) -> Option<&LanguageInfo> {
    langs.iter().find(|i| i.language == lang)
}

fn detect(patterns: &[&str], files: &[&str]) -> DetectionReport {
    let patterns: Vec<String> = patterns.iter().map(|s| s.to_string()).collect();
    LanguageDetector::new(&patterns).detect(&walk(files))
}

#[test]
fn test_detect_typescript() {
    let report = detect(&[], &["index.ts", "app.tsx", "tsconfig.json"]);
    assert!(!report.languages.is_empty());
    let ts_info = find_lang(&report.languages, Language::TypeScript);
    assert!(ts_info.is_some());
    assert_eq!(ts_info.unwrap().file_count, 2);
}

#[test]
fn detect_test_exclude_patterns() {
    let report = detect(&["node_modules/**"], &["index.ts", "node_modules/dep.ts"]);
    let ts_info = find_lang(&report.languages, Language::TypeScript);
    assert!(ts_info.is_some());
    assert_eq!(ts_info.unwrap().file_count, 1);
}

#[test]
fn integration_test_test_exclude_patterns() {
    let report = detect(
        &[],
        &[
            "package.json",
            "tsconfig.json",
            "src/utils/format.ts",
            "src/components/Display.tsx",
            "src/index.ts",
            "node_modules/dep/index.ts",
        ],
    );
    let ts = find_lang(&report.languages, Language::TypeScript).unwrap();
    assert_eq!(ts.file_count, 4);
    assert_eq!(report.excluded_files, 0);
}

#[test]
fn test_nested_node_modules_excluded() {
    let report = detect(
        &["node_modules/**"],
        &["node_modules/dep/index.ts", "packages/foo/node_modules/dep/index.ts", "src/real.ts"],
    );
    let ts = find_lang(&report.languages, Language::TypeScript);
    assert!(ts.is_some(), "Should detect TypeScript");
    assert_eq!(ts.unwrap().file_count, 1, "Only src/real.ts should be counted");
    assert_eq!(report.excluded_files, 2);
}

#[test]
fn test_broken_symlink_does_not_crash_and_walk_errors_counted() {
    let mut entries = walk(&["real.ts"]);
    // the walk could not follow `broken_link`
    entries.push(WalkEntry::Failed);
    let report = LanguageDetector::new(&[]).detect(&entries);
    let ts = find_lang(&report.languages, Language::TypeScript);
    assert!(ts.is_some());
    assert!(ts.unwrap().file_count >= 1);
    assert!(report.walk_errors >= 1, "Broken symlink should produce walk error, got {}", report.walk_errors);
    assert_eq!(report.walk_errors, 1);
    assert_eq!(report.total_files, 1);
}

#[test]
fn test_mixed_language_detection() {
    let detected = detect(&[], &["app.ts", "script.py", "main.go"]).languages;
    let langs: Vec<Language> = detected.iter().map(|i| i.language).collect();
    assert!(langs.contains(&Language::TypeScript));
    assert!(langs.contains(&Language::Python));
    assert!(langs.contains(&Language::Go));
}

#[test]
fn test_deep_nested_directory_traversal() {
    let detected = detect(&[], &["a/b/c/d/e/deep.ts"]).languages;
    let ts = find_lang(&detected, Language::TypeScript);
    assert!(ts.is_some());
    assert_eq!(ts.unwrap().file_count, 1);
}

#[test]
fn test_special_characters_in_paths() {
    let detected = detect(&[], &["my project/src-files/app_main.ts"]).languages;
    let ts = find_lang(&detected, Language::TypeScript);
    assert!(ts.is_some());
    assert_eq!(ts.unwrap().file_count, 1);
}

#[test]
fn test_unicode_in_paths() {
    let detected = detect(&[], &["Oversikt.ts", "données/traitement.py"]).languages;
    assert!(!detected.is_empty());
    assert_eq!(detected.len(), 2);
}

#[test]
fn test_language_filter_ignores_invalid() {
    let detected = detect(&[], &["app.ts", "main.py"]).languages;
    let filtered = LanguageDetector::filter_languages(
        detected,
        &["typescript".to_string(), "foobar".to_string()],
    );
    assert_eq!(filtered.len(), 1);
    assert_eq!(filtered[0].language, Language::TypeScript);
}

#[test]
fn test_language_filter() {
    let report = detect(
        &[],
        &[
            "package.json",
            "tsconfig.json",
            "src/utils/format.ts",
            "src/components/Display.tsx",
            "src/index.ts",
            "script.py",
        ],
    );
    let names: Vec<&str> = report.languages.iter().map(|i| i.language.display_name()).collect();
    assert!(names.contains(&"TypeScript"));
    assert!(names.contains(&"Python"));
    let ts = find_lang(&report.languages, Language::TypeScript).unwrap();
    assert_eq!(ts.file_count, 3);
    assert_eq!(ts.config_files, vec!["tsconfig.json".to_string()]);
    let filtered = LanguageDetector::filter_languages(report.languages, &["python".to_string()]);
    assert_eq!(filtered.len(), 1);
    assert_eq!(filtered[0].language, Language::Python);
}

#[test]
fn empty_filter_keeps_everything() {
    let detected = detect(&[], &["app.ts", "a.py", "b.py"]).languages;
    let filtered = LanguageDetector::filter_languages(detected, &[]);
    assert_eq!(filtered.len(), 2);
    assert_eq!(filtered[0].language, Language::Python);
    assert_eq!(filtered[1].language, Language::TypeScript);
}

#[test]
fn filter_matches_any_case_and_alias() {
    let detected = detect(&[], &["app.ts", "a.py", "main.go"]).languages;
    let filtered =
        LanguageDetector::filter_languages(detected, &["GOLANG".to_string(), "Ts".to_string()]);
    let langs: Vec<Language> = filtered.iter().map(|i| i.language).collect();
    assert_eq!(langs, vec![Language::TypeScript, Language::Go]);
}

#[test]
fn test_all_default_exclude_patterns() {
    let report = LanguageDetector::new(&Config::default().exclude_patterns).detect(&walk(&[
        "node_modules/pkg/index.ts",
        ".git/objects/abc.ts",
        "target/debug/main.rs",
        "dist/bundle.js",
        "build/output.ts",
        "__pycache__/mod.py",
        "src/real.ts",
    ]));
    let ts = find_lang(&report.languages, Language::TypeScript);
    assert!(ts.is_some());
    assert_eq!(
        ts.unwrap().file_count, 1,
        "Only src/real.ts should be counted, all excluded dirs should be filtered"
    );
    assert_eq!(report.languages.len(), 1);
    assert_eq!(report.excluded_files, 6);
}

#[test]
fn minified_assets_are_excluded_by_file_name() {
    let report = LanguageDetector::new(&Config::default().exclude_patterns)
        .detect(&walk(&["web/app.min.js", "web/app.js", "web/site.min.css"]));
    let js = find_lang(&report.languages, Language::JavaScript).unwrap();
    assert_eq!(js.file_count, 1);
    assert_eq!(report.excluded_files, 2);
    assert_eq!(report.total_files, 1);
}

#[test]
fn full_path_glob_excludes() {
    let report = detect(&["docs/*.py"], &["docs/conf.py", "src/docs.py", "lib/docs/x.py"]);
    let py = find_lang(&report.languages, Language::Python).unwrap();
    assert_eq!(py.file_count, 2);
    assert_eq!(report.excluded_files, 1);
}

#[test]
fn malformed_pattern_is_dropped() {
    let report = detect(&["[", "a***b"], &["app.ts"]);
    assert_eq!(report.excluded_files, 0);
    assert_eq!(report.total_files, 1);
}

#[test]
fn test_h_extension_maps_to_c() {
    let detected = detect(&[], &["header.h", "impl.cpp", "header2.hpp"]).languages;
    let c = find_lang(&detected, Language::C);
    let cpp = find_lang(&detected, Language::Cpp);
    assert!(c.is_some(), ".h should map to C");
    assert_eq!(c.unwrap().file_count, 1);
    assert!(cpp.is_some(), ".cpp and .hpp should map to C++");
    assert_eq!(cpp.unwrap().file_count, 2);
}

#[test]
fn test_symlink_to_valid_file_counted() {
    // a link to a regular file is walked as that file
    let detected = detect(&[], &["real.ts", "link.ts"]).languages;
    let ts = find_lang(&detected, Language::TypeScript);
    assert!(ts.is_some());
    assert_eq!(ts.unwrap().file_count, 2);
}

#[test]
fn test_empty_codebase_returns_empty() {
    let detected = detect(&[], &[]).languages;
    assert!(detected.is_empty());
}

#[test]
fn test_single_file_project() {
    let detected = detect(&[], &["main.rs"]).languages;
    assert_eq!(detected.len(), 1);
    assert_eq!(detected[0].language, Language::Rust);
    assert_eq!(detected[0].file_count, 1);
}

#[test]
fn test_config_files_detected() {
    let detected = detect(
        &[],
        &[
            "tsconfig.json",
            "Cargo.toml",
            "go.mod",
            "requirements.txt",
            "MyApp.csproj",
            "pom.xml",
            "app.ts",
            "main.rs",
            "main.go",
            "app.py",
            "App.cs",
            "App.java",
        ],
    )
    .languages;
    let langs: Vec<Language> = detected.iter().map(|i| i.language).collect();
    assert!(langs.contains(&Language::TypeScript));
    assert!(langs.contains(&Language::Rust));
    assert!(langs.contains(&Language::Go));
    assert!(langs.contains(&Language::Python));
    assert!(langs.contains(&Language::CSharp));
    assert!(langs.contains(&Language::Java));
    let ts = find_lang(&detected, Language::TypeScript).unwrap();
    assert!(!ts.config_files.is_empty(), "tsconfig.json should be a config file for TS");
    let cs = find_lang(&detected, Language::CSharp).unwrap();
    assert_eq!(cs.config_files, vec!["MyApp.csproj".to_string()]);
}

#[test]
fn config_files_found_at_any_depth() {
    let detected = detect(
        &[],
        &["pkg/web/tsconfig.json", "pkg/web/a.ts", "svc/All.sln", "svc/Main.cs", "tsconfig.json"],
    )
    .languages;
    let ts = find_lang(&detected, Language::TypeScript).unwrap();
    assert_eq!(ts.config_files, vec!["pkg/web/tsconfig.json".to_string(), "tsconfig.json".to_string()]);
    let cs = find_lang(&detected, Language::CSharp).unwrap();
    assert_eq!(cs.config_files, vec!["svc/All.sln".to_string()]);
}

#[test]
fn config_file_of_absent_language_is_not_listed() {
    let report = detect(&[], &["package.json", "a.py"]);
    assert_eq!(report.languages.len(), 1);
    assert_eq!(report.languages[0].language, Language::Python);
    assert!(report.languages[0].config_files.is_empty());
}

#[test]
fn test_detection_determinism_10_runs() {
    let detector = LanguageDetector::new(&[]);
    let entries = walk(&["app.ts", "app.tsx", "script.py", "util.py", "main.go"]);
    let baseline = detector.detect(&entries).languages;
    let mut baseline_snapshot: Vec<(String, usize)> = baseline
        .iter()
        .map(|i| (i.language.display_name().to_string(), i.file_count))
        .collect();
    baseline_snapshot.sort();
    for run in 1..=10 {
        let result = detector.detect(&entries).languages;
        let mut snapshot: Vec<(String, usize)> = result
            .iter()
            .map(|i| (i.language.display_name().to_string(), i.file_count))
            .collect();
        snapshot.sort();
        assert_eq!(baseline_snapshot, snapshot, "Detection run {} produced different results", run);
    }
}

#[test]
fn languages_ranked_by_count_then_enumeration_order() {
    let detected = detect(&[], &["a.go", "b.go", "a.py", "a.ts", "c.go", "b.py", "a.rs"]).languages;
    let ranked: Vec<(Language, usize)> = detected.iter().map(|i| (i.language, i.file_count)).collect();
    assert_eq!(
        ranked,
        vec![(Language::Go, 3), (Language::Python, 2), (Language::TypeScript, 1), (Language::Rust, 1)]
    );
}

#[test]
fn test_report_counts_unrecognized_extensions() {
    let report = detect(&[], &["app.ts", "data.json", "README.md", "config.yaml"]);
    assert!(find_lang(&report.languages, Language::TypeScript).is_some());
    let ext_names: Vec<&str> = report.unrecognized_extensions.iter().map(|e| e.extension.as_str()).collect();
    assert!(ext_names.contains(&"json"), "json should be unrecognized, got: {:?}", ext_names);
    assert!(ext_names.contains(&"md"), "md should be unrecognized, got: {:?}", ext_names);
    assert!(ext_names.contains(&"yaml"), "yaml should be unrecognized, got: {:?}", ext_names);
}

#[test]
fn test_report_coverage_percent() {
    let mut files: Vec<String> = vec!["a.ts".to_string(), "b.ts".to_string(), "c.ts".to_string()];
    for i in 0..7 {
        files.push(format!("data{}.json", i));
    }
    let names: Vec<&str> = files.iter().map(|s| s.as_str()).collect();
    let report = detect(&[], &names);
    assert_eq!(report.supported_files, 3);
    assert_eq!(report.total_files, 10);
    let coverage = report.supported_files as f64 / report.total_files as f64 * 100.0;
    assert!((coverage - 30.0).abs() < 0.1, "Expected ~30% coverage, got {:.1}%", coverage);
}

#[test]
fn test_report_excluded_files_counted() {
    let report = detect(
        &["node_modules/**"],
        &["src/app.ts", "node_modules/dep/index.ts", "node_modules/dep/util.ts"],
    );
    assert_eq!(report.excluded_files, 2, "Two files in node_modules should be excluded");
    assert_eq!(report.supported_files, 1, "Only src/app.ts should be supported");
    let has_ts_unrecognized = report.unrecognized_extensions.iter().any(|e| e.extension == "ts");
    assert!(!has_ts_unrecognized, "Excluded .ts files should not be in unrecognized");
}

#[test]
fn test_report_empty_codebase() {
    let report = detect(&[], &[]);
    assert_eq!(report.total_files, 0);
    assert_eq!(report.supported_files, 0);
    assert_eq!(report.excluded_files, 0);
    assert_eq!(report.walk_errors, 0);
    assert!(report.unrecognized_extensions.is_empty());
    assert!(report.languages.is_empty());
}

#[test]
fn test_report_unrecognized_sorted_desc() {
    let report = detect(&[], &["a.yaml", "a.json", "b.json", "c.json", "a.md", "b.md"]);
    assert!(report.unrecognized_extensions.len() >= 3);
    for w in report.unrecognized_extensions.windows(2) {
        assert!(
            w[0].count >= w[1].count,
            "Unrecognized extensions should be sorted desc, got {} ({}) before {} ({})",
            w[0].extension,
            w[0].count,
            w[1].extension,
            w[1].count
        );
    }
    let got: Vec<(&str, usize)> =
        report.unrecognized_extensions.iter().map(|e| (e.extension.as_str(), e.count)).collect();
    assert_eq!(got, vec![("json", 3), ("md", 2), ("yaml", 1)]);
}

#[test]
fn equal_counts_keep_non_increasing_order() {
    let report = detect(&[], &["a.md", "b.txt", "c.json", "d.txt", "e.md"]);
    let counts: Vec<usize> = report.unrecognized_extensions.iter().map(|e| e.count).collect();
    assert_eq!(counts.len(), 3);
    assert!(counts.windows(2).all(|w| w[0] >= w[1]));
    assert_eq!(counts[2], 1);
}

#[test]
fn unrecognized_extensions_are_lower_cased() {
    let report = detect(&[], &["A.JSON", "b.json", "c.Json", "D.TS"]);
    let got: Vec<(&str, usize)> =
        report.unrecognized_extensions.iter().map(|e| (e.extension.as_str(), e.count)).collect();
    assert_eq!(got, vec![("json", 3), ("ts", 1)]);
    assert_eq!(report.supported_files, 0);
}

#[test]
fn files_without_extension_count_only_in_total() {
    let report = detect(&[], &["Makefile", ".gitignore", "Dockerfile", "notes.", "main.go"]);
    assert_eq!(report.total_files, 5);
    assert_eq!(report.supported_files, 1);
    assert!(report.unrecognized_extensions.is_empty());
}

#[test]
fn every_file_is_accounted_for() {
    let report = detect(&[], &["a.ts", "b.md", "c.md", "Makefile", "d.rs", "e.yaml", "LICENSE"]);
    let named: usize = report.unrecognized_extensions.iter().map(|e| e.count).sum();
    let no_extension = 2;
    assert_eq!(report.total_files, 7);
    assert_eq!(report.supported_files + named + no_extension, report.total_files);
}

#[test]
fn pattern_order_and_repetition_do_not_matter() {
    let files = ["node_modules/x.ts", "dist/y.js", "a.min.js", "src/z.ts", "src/w.py"];
    let a = detect(&["node_modules/**", "dist/**", "*.min.js"], &files);
    let b = detect(&["*.min.js", "dist/**", "node_modules/**", "dist/**"], &files);
    assert_eq!(a.excluded_files, 3);
    assert_eq!(a.excluded_files, b.excluded_files);
    assert_eq!(a.total_files, b.total_files);
    let la: Vec<(Language, usize)> = a.languages.iter().map(|i| (i.language, i.file_count)).collect();
    let lb: Vec<(Language, usize)> = b.languages.iter().map(|i| (i.language, i.file_count)).collect();
    assert_eq!(la, lb);
}

#[test]
fn should_exclude_matches_dir_component_at_any_depth() {
    let detector = LanguageDetector::new(&["target/**".to_string()]);
    let path = |p: &str| -> Vec<String> { p.split('/').map(|s| s.to_string()).collect() };
    assert!(detector.should_exclude(&path("target")));
    assert!(detector.should_exclude(&path("crates/a/target/debug/x.rs")));
    assert!(!detector.should_exclude(&path("crates/a/targets/x.rs")));
    assert!(!detector.should_exclude(&path("src/main.rs")));
}

#[test]
fn extension_follows_path_rules() {
    assert_eq!(extension_of("a.tar.gz"), Some("gz"));
    assert_eq!(extension_of(".gitignore"), None);
    assert_eq!(extension_of(".eslintrc.json"), Some("json"));
    assert_eq!(extension_of("Makefile"), None);
    assert_eq!(extension_of("notes."), Some(""));
    assert_eq!(extension_of(".."), None);
    assert_eq!(extension_of(""), None);
}
