use legend_indexer::language::Language;

#[test]
fn test_language_extensions() {
    assert!(Language::TypeScript.extensions().contains(&"ts"));
    assert!(Language::TypeScript.extensions().contains(&"tsx"));
    assert!(Language::Python.extensions().contains(&"py"));
}

#[test]
fn test_language_from_str() {
    assert_eq!(Language::parse("typescript"), Some(Language::TypeScript));
    assert_eq!(Language::parse("ts"), Some(Language::TypeScript));
    assert_eq!(Language::parse("python"), Some(Language::Python));
    assert_eq!(Language::parse("py"), Some(Language::Python));
    assert_eq!(Language::parse("unknown"), None);
}

#[test]
fn test_language_indexer_metadata() {
    assert_eq!(Language::TypeScript.scip_indexer(), "scip-typescript");
    assert!(Language::TypeScript.is_bundled());
    assert!(!Language::Ruby.is_bundled());
}

#[test]
fn test_scip_output_stem_unique_per_language() {
    let stems: Vec<&str> = Language::all().iter().map(|l| l.scip_output_stem()).collect();
    let unique: std::collections::HashSet<&&str> = stems.iter().collect();
    assert_eq!(
        stems.len(),
        unique.len(),
        "All languages must have unique scip_output_stem values"
    );
}

#[test]
fn parse_ignores_case() {
    assert_eq!(Language::parse("PYTHON"), Some(Language::Python));
    assert_eq!(Language::parse("TypeScript"), Some(Language::TypeScript));
    assert_eq!(Language::parse("C#"), Some(Language::CSharp));
    assert_eq!(Language::parse("GoLang"), Some(Language::Go));
    assert_eq!(Language::parse(""), None);
}

#[test]
fn extension_lookup_is_case_sensitive() {
    assert_eq!(Language::from_extension("ts"), Some(Language::TypeScript));
    assert_eq!(Language::from_extension("h"), Some(Language::C));
    assert_eq!(Language::from_extension("hpp"), Some(Language::Cpp));
    assert_eq!(Language::from_extension("c++"), Some(Language::Cpp));
    assert_eq!(Language::from_extension("TS"), None);
    assert_eq!(Language::from_extension("json"), None);
    assert_eq!(Language::from_extension(""), None);
}

#[test]
fn extension_sets_are_disjoint() {
    let all = Language::all();
    for (i, a) in all.iter().enumerate() {
        for b in &all[i + 1..] {
            for e in a.extensions() {
                assert!(!b.extensions().contains(e), "{:?} and {:?} share {}", a, b, e);
            }
        }
    }
}

#[test]
fn config_file_lookup() {
    assert_eq!(Language::from_config_file("tsconfig.json"), Some(Language::TypeScript));
    assert_eq!(Language::from_config_file("package.json"), Some(Language::JavaScript));
    assert_eq!(Language::from_config_file("Cargo.toml"), Some(Language::Rust));
    assert_eq!(Language::from_config_file("MyApp.csproj"), Some(Language::CSharp));
    assert_eq!(Language::from_config_file("All.sln"), Some(Language::CSharp));
    assert_eq!(Language::from_config_file("cargo.toml"), None);
    assert_eq!(Language::from_config_file("csproj"), None);
}

#[test]
fn metadata_values() {
    assert_eq!(Language::CSharp.display_name(), "C#");
    assert_eq!(Language::Cpp.display_name(), "C++");
    assert_eq!(Language::Rust.scip_indexer(), "rust-analyzer");
    assert_eq!(Language::Go.install_command(), "go install github.com/sourcegraph/scip-go@latest");
    assert_eq!(Language::TypeScript.scip_binary_names(), &["scip-typescript", "scip-ts"]);
    assert_eq!(Language::all().len(), 14);
    assert_eq!(Language::Dart.index(), 13);
}
