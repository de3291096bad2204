//! The closed set of supported languages and their fixed metadata.
use vstd::prelude::*;
use crate::text::{ends_with, lower_of, spec_ends_with, str_eq, to_lower};

verus! {

/// A supported programming language.
#[derive(Debug, Clone, Copy, PartialEq, Eq, Structural, Hash)]
pub enum Language {
    TypeScript,
    JavaScript,
    Python,
    CSharp,
    Java,
    Kotlin,
    Scala,
    Go,
    Rust,
    Ruby,
    Php,
    Cpp,
    C,
    Dart,
}

pub open spec fn spec_extensions(l: Language) -> Seq<Seq<char>> {
    match l {
        Language::TypeScript => seq!["ts"@, "tsx"@, "mts"@, "cts"@],
        Language::JavaScript => seq!["js"@, "jsx"@, "mjs"@, "cjs"@],
        Language::Python => seq!["py"@, "pyi"@, "pyw"@],
        Language::CSharp => seq!["cs"@, "csx"@],
        Language::Java => seq!["java"@],
        Language::Kotlin => seq!["kt"@, "kts"@],
        Language::Scala => seq!["scala"@, "sc"@],
        Language::Go => seq!["go"@],
        Language::Rust => seq!["rs"@],
        Language::Ruby => seq!["rb"@, "rake"@, "gemspec"@],
        Language::Php => seq!["php"@, "phtml"@, "php3"@, "php4"@, "php5"@, "phps"@],
        Language::Cpp => seq!["cpp"@, "cxx"@, "cc"@, "c++"@, "hpp"@, "hxx"@, "hh"@, "h++"@],
        Language::C => seq!["c"@, "h"@],
        Language::Dart => seq!["dart"@],
    }
}

/// Every language, in enumeration order.
pub open spec fn spec_all() -> Seq<Language> {
    seq![
        Language::TypeScript,
        Language::JavaScript,
        Language::Python,
        Language::CSharp,
        Language::Java,
        Language::Kotlin,
        Language::Scala,
        Language::Go,
        Language::Rust,
        Language::Ruby,
        Language::Php,
        Language::Cpp,
        Language::C,
        Language::Dart,
    ]
}

/// The number of supported languages.
pub open spec fn num_languages() -> nat {
    14
}

/// The position of a language in enumeration order.
pub open spec fn lang_index(l: Language) -> nat {
    match l {
        Language::TypeScript => 0,
        Language::JavaScript => 1,
        Language::Python => 2,
        Language::CSharp => 3,
        Language::Java => 4,
        Language::Kotlin => 5,
        Language::Scala => 6,
        Language::Go => 7,
        Language::Rust => 8,
        Language::Ruby => 9,
        Language::Php => 10,
        Language::Cpp => 11,
        Language::C => 12,
        Language::Dart => 13,
    }
}

/// The first language, from position `i` on in enumeration order, whose
/// extensions include `e`.
pub open spec fn ext_owner_from(e: Seq<char>, i: int) -> Option<Language>
    decreases 14 - i,
{
    if i < 0 || i >= 14 {
        None
    } else if spec_extensions(spec_all()[i]).contains(e) {
        Some(spec_all()[i])
    } else {
        ext_owner_from(e, i + 1)
    }
}

/// The language that a file extension belongs to, if any (case-sensitive).
pub open spec fn spec_language_of_ext(e: Seq<char>) -> Option<Language> {
    ext_owner_from(e, 0)
}

/// The first language, from position `i` on in enumeration order, that goes
/// by the name `a`.
pub open spec fn alias_owner_from(a: Seq<char>, i: int) -> Option<Language>
    decreases 14 - i,
{
    if i < 0 || i >= 14 {
        None
    } else if spec_aliases(spec_all()[i]).contains(a) {
        Some(spec_all()[i])
    } else {
        alias_owner_from(a, i + 1)
    }
}

/// The language that a user-supplied name stands for, ignoring case.
pub open spec fn spec_parse(s: Seq<char>) -> Option<Language> {
    alias_owner_from(lower_of(s), 0)
}

/// File names whose presence signals a language, matched exactly.
pub open spec fn spec_config_table() -> Seq<(Seq<char>, Language)> {
    seq![
        ("package.json"@, Language::JavaScript),
        ("tsconfig.json"@, Language::TypeScript),
        ("pyproject.toml"@, Language::Python),
        ("setup.py"@, Language::Python),
        ("requirements.txt"@, Language::Python),
        ("Pipfile"@, Language::Python),
        ("Cargo.toml"@, Language::Rust),
        ("go.mod"@, Language::Go),
        ("go.sum"@, Language::Go),
        ("pom.xml"@, Language::Java),
        ("build.gradle"@, Language::Java),
        ("build.gradle.kts"@, Language::Java),
        ("Gemfile"@, Language::Ruby),
        ("composer.json"@, Language::Php),
        ("pubspec.yaml"@, Language::Dart),
    ]
}

/// The first entry of the config table, from position `i` on, named `name`.
pub open spec fn config_owner_from(name: Seq<char>, i: int) -> Option<Language>
    decreases spec_config_table().len() - i,
{
    if i < 0 || i >= spec_config_table().len() {
        None
    } else if spec_config_table()[i].0 == name {
        Some(spec_config_table()[i].1)
    } else {
        config_owner_from(name, i + 1)
    }
}

/// The language whose config file a file name is: an exact entry of the
/// config table, or else C# for a project or solution file.
pub open spec fn spec_config_language(name: Seq<char>) -> Option<Language> {
    match config_owner_from(name, 0) {
        Some(l) => Some(l),
        None => if spec_ends_with(name, ".csproj"@) || spec_ends_with(name, ".sln"@) {
            Some(Language::CSharp)
        } else {
            None
        },
    }
}

/// The name shown to people.
pub open spec fn spec_display_name(l: Language) -> Seq<char> {
    match l {
        Language::TypeScript => "TypeScript"@,
        Language::JavaScript => "JavaScript"@,
        Language::Python => "Python"@,
        Language::CSharp => "C#"@,
        Language::Java => "Java"@,
        Language::Kotlin => "Kotlin"@,
        Language::Scala => "Scala"@,
        Language::Go => "Go"@,
        Language::Rust => "Rust"@,
        Language::Ruby => "Ruby"@,
        Language::Php => "PHP"@,
        Language::Cpp => "C++"@,
        Language::C => "C"@,
        Language::Dart => "Dart"@,
    }
}

/// The indexer tool that handles the language.
pub open spec fn spec_scip_indexer(l: Language) -> Seq<char> {
    match l {
        Language::TypeScript => "scip-typescript"@,
        Language::JavaScript => "scip-typescript"@,
        Language::Python => "scip-python"@,
        Language::CSharp => "scip-dotnet"@,
        Language::Java => "scip-java"@,
        Language::Kotlin => "scip-java"@,
        Language::Scala => "scip-java"@,
        Language::Go => "scip-go"@,
        Language::Rust => "rust-analyzer"@,
        Language::Ruby => "scip-ruby"@,
        Language::Php => "scip-php"@,
        Language::Cpp => "scip-clang"@,
        Language::C => "scip-clang"@,
        Language::Dart => "scip-dart"@,
    }
}

/// The file stem of the language's index output; distinct per language.
pub open spec fn spec_output_stem(l: Language) -> Seq<char> {
    match l {
        Language::TypeScript => "typescript"@,
        Language::JavaScript => "javascript"@,
        Language::Python => "python"@,
        Language::CSharp => "csharp"@,
        Language::Java => "java"@,
        Language::Kotlin => "kotlin"@,
        Language::Scala => "scala"@,
        Language::Go => "go"@,
        Language::Rust => "rust"@,
        Language::Ruby => "ruby"@,
        Language::Php => "php"@,
        Language::Cpp => "cpp"@,
        Language::C => "c"@,
        Language::Dart => "dart"@,
    }
}

/// How to install the language's indexer.
pub open spec fn spec_install_command(l: Language) -> Seq<char> {
    match l {
        Language::TypeScript => "npm install -g @sourcegraph/scip-typescript"@,
        Language::JavaScript => "npm install -g @sourcegraph/scip-typescript"@,
        Language::Python => "pip install scip-python"@,
        Language::CSharp => "dotnet tool install -g scip-dotnet"@,
        Language::Java => "coursier install scip-java"@,
        Language::Kotlin => "coursier install scip-java"@,
        Language::Scala => "coursier install scip-java"@,
        Language::Go => "go install github.com/sourcegraph/scip-go@latest"@,
        Language::Rust => "cargo install scip-rust (via rust-analyzer)"@,
        Language::Ruby => "gem install scip-ruby"@,
        Language::Php => "composer global require sourcegraph/scip-php"@,
        Language::Cpp => "See: https://github.com/nickolay/scip-clang"@,
        Language::C => "See: https://github.com/nickolay/scip-clang"@,
        Language::Dart => "dart pub global activate scip_dart"@,
    }
}

/// Executable names under which the language's indexer may be found.
pub open spec fn spec_binary_names(l: Language) -> Seq<Seq<char>> {
    match l {
        Language::TypeScript => seq!["scip-typescript"@, "scip-ts"@],
        Language::JavaScript => seq!["scip-typescript"@, "scip-ts"@],
        Language::Python => seq!["scip-python"@, "scip-py"@],
        Language::CSharp => seq!["scip-dotnet"@, "scip-csharp"@],
        Language::Java => seq!["scip-java"@],
        Language::Kotlin => seq!["scip-java"@],
        Language::Scala => seq!["scip-java"@],
        Language::Go => seq!["scip-go"@],
        Language::Rust => seq!["rust-analyzer"@],
        Language::Ruby => seq!["scip-ruby"@],
        Language::Php => seq!["scip-php"@],
        Language::Cpp => seq!["scip-clang"@],
        Language::C => seq!["scip-clang"@],
        Language::Dart => seq!["scip-dart"@],
    }
}

/// The lower-case names by which a language can be asked for.
pub open spec fn spec_aliases(l: Language) -> Seq<Seq<char>> {
    match l {
        Language::TypeScript => seq!["typescript"@, "ts"@],
        Language::JavaScript => seq!["javascript"@, "js"@],
        Language::Python => seq!["python"@, "py"@],
        Language::CSharp => seq!["csharp"@, "c#"@, "cs"@],
        Language::Java => seq!["java"@],
        Language::Kotlin => seq!["kotlin"@, "kt"@],
        Language::Scala => seq!["scala"@],
        Language::Go => seq!["go"@, "golang"@],
        Language::Rust => seq!["rust"@, "rs"@],
        Language::Ruby => seq!["ruby"@, "rb"@],
        Language::Php => seq!["php"@],
        Language::Cpp => seq!["cpp"@, "c++"@],
        Language::C => seq!["c"@],
        Language::Dart => seq!["dart"@],
    }
}

/// Whether the language's indexer ships with the tool.
pub open spec fn spec_is_bundled(l: Language) -> bool {
    match l {
        Language::TypeScript => true,
        Language::JavaScript => true,
        Language::Python => true,
        Language::CSharp => true,
        Language::Java => true,
        Language::Kotlin => false,
        Language::Scala => false,
        Language::Go => true,
        Language::Rust => false,
        Language::Ruby => false,
        Language::Php => false,
        Language::Cpp => false,
        Language::C => false,
        Language::Dart => false,
    }
}

impl Language {
    /// Every language, in enumeration order.
    pub fn all() -> (r: &'static [Language])
        ensures
            r@ == spec_all(),
    {
        let r: &'static [Language] = &[
            Language::TypeScript,
            Language::JavaScript,
            Language::Python,
            Language::CSharp,
            Language::Java,
            Language::Kotlin,
            Language::Scala,
            Language::Go,
            Language::Rust,
            Language::Ruby,
            Language::Php,
            Language::Cpp,
            Language::C,
            Language::Dart,
        ];
        assert(r@ =~= spec_all());
        r
    }

    /// The position of this language in enumeration order.
    pub fn index(&self) -> (r: usize)
        ensures
            r == lang_index(*self),
            r < num_languages(),
            spec_all()[r as int] == *self,
    {
        match self {
            Language::TypeScript => 0,
            Language::JavaScript => 1,
            Language::Python => 2,
            Language::CSharp => 3,
            Language::Java => 4,
            Language::Kotlin => 5,
            Language::Scala => 6,
            Language::Go => 7,
            Language::Rust => 8,
            Language::Ruby => 9,
            Language::Php => 10,
            Language::Cpp => 11,
            Language::C => 12,
            Language::Dart => 13,
        }
    }

    /// The file extensions (without the dot) that belong to this language.
    pub fn extensions(&self) -> (r: &'static [&'static str])
        ensures
            r@.map_values(|s: &str| s@) == spec_extensions(*self),
    {
        let r: &'static [&'static str] = match self {
            Language::TypeScript => &["ts", "tsx", "mts", "cts"],
            Language::JavaScript => &["js", "jsx", "mjs", "cjs"],
            Language::Python => &["py", "pyi", "pyw"],
            Language::CSharp => &["cs", "csx"],
            Language::Java => &["java"],
            Language::Kotlin => &["kt", "kts"],
            Language::Scala => &["scala", "sc"],
            Language::Go => &["go"],
            Language::Rust => &["rs"],
            Language::Ruby => &["rb", "rake", "gemspec"],
            Language::Php => &["php", "phtml", "php3", "php4", "php5", "phps"],
            Language::Cpp => &["cpp", "cxx", "cc", "c++", "hpp", "hxx", "hh", "h++"],
            Language::C => &["c", "h"],
            Language::Dart => &["dart"],
        };
        assert(r@.map_values(|s: &str| s@) =~= spec_extensions(*self));
        r
    }

    /// The name shown to people.
    pub fn display_name(&self) -> (r: &'static str)
        ensures
            r@ == spec_display_name(*self),
    {
        match self {
            Language::TypeScript => "TypeScript",
            Language::JavaScript => "JavaScript",
            Language::Python => "Python",
            Language::CSharp => "C#",
            Language::Java => "Java",
            Language::Kotlin => "Kotlin",
            Language::Scala => "Scala",
            Language::Go => "Go",
            Language::Rust => "Rust",
            Language::Ruby => "Ruby",
            Language::Php => "PHP",
            Language::Cpp => "C++",
            Language::C => "C",
            Language::Dart => "Dart",
        }
    }

    /// The indexer tool that handles this language.
    pub fn scip_indexer(&self) -> (r: &'static str)
        ensures
            r@ == spec_scip_indexer(*self),
    {
        match self {
            Language::TypeScript => "scip-typescript",
            Language::JavaScript => "scip-typescript",
            Language::Python => "scip-python",
            Language::CSharp => "scip-dotnet",
            Language::Java => "scip-java",
            Language::Kotlin => "scip-java",
            Language::Scala => "scip-java",
            Language::Go => "scip-go",
            Language::Rust => "rust-analyzer",
            Language::Ruby => "scip-ruby",
            Language::Php => "scip-php",
            Language::Cpp => "scip-clang",
            Language::C => "scip-clang",
            Language::Dart => "scip-dart",
        }
    }

    /// The file stem of this language's index output.
    pub fn scip_output_stem(&self) -> (r: &'static str)
        ensures
            r@ == spec_output_stem(*self),
    {
        match self {
            Language::TypeScript => "typescript",
            Language::JavaScript => "javascript",
            Language::Python => "python",
            Language::CSharp => "csharp",
            Language::Java => "java",
            Language::Kotlin => "kotlin",
            Language::Scala => "scala",
            Language::Go => "go",
            Language::Rust => "rust",
            Language::Ruby => "ruby",
            Language::Php => "php",
            Language::Cpp => "cpp",
            Language::C => "c",
            Language::Dart => "dart",
        }
    }

    /// How to install this language's indexer.
    pub fn install_command(&self) -> (r: &'static str)
        ensures
            r@ == spec_install_command(*self),
    {
        match self {
            Language::TypeScript => "npm install -g @sourcegraph/scip-typescript",
            Language::JavaScript => "npm install -g @sourcegraph/scip-typescript",
            Language::Python => "pip install scip-python",
            Language::CSharp => "dotnet tool install -g scip-dotnet",
            Language::Java => "coursier install scip-java",
            Language::Kotlin => "coursier install scip-java",
            Language::Scala => "coursier install scip-java",
            Language::Go => "go install github.com/sourcegraph/scip-go@latest",
            Language::Rust => "cargo install scip-rust (via rust-analyzer)",
            Language::Ruby => "gem install scip-ruby",
            Language::Php => "composer global require sourcegraph/scip-php",
            Language::Cpp => "See: https://github.com/nickolay/scip-clang",
            Language::C => "See: https://github.com/nickolay/scip-clang",
            Language::Dart => "dart pub global activate scip_dart",
        }
    }

    /// Executable names under which this language's indexer may be found.
    pub fn scip_binary_names(&self) -> (r: &'static [&'static str])
        ensures
            r@.map_values(|s: &str| s@) == spec_binary_names(*self),
    {
        let r: &'static [&'static str] = match self {
            Language::TypeScript => &["scip-typescript", "scip-ts"],
            Language::JavaScript => &["scip-typescript", "scip-ts"],
            Language::Python => &["scip-python", "scip-py"],
            Language::CSharp => &["scip-dotnet", "scip-csharp"],
            Language::Java => &["scip-java"],
            Language::Kotlin => &["scip-java"],
            Language::Scala => &["scip-java"],
            Language::Go => &["scip-go"],
            Language::Rust => &["rust-analyzer"],
            Language::Ruby => &["scip-ruby"],
            Language::Php => &["scip-php"],
            Language::Cpp => &["scip-clang"],
            Language::C => &["scip-clang"],
            Language::Dart => &["scip-dart"],
        };
        assert(r@.map_values(|s: &str| s@) =~= spec_binary_names(*self));
        r
    }

    /// The lower-case names by which this language can be asked for.
    pub fn aliases(&self) -> (r: &'static [&'static str])
        ensures
            r@.map_values(|s: &str| s@) == spec_aliases(*self),
    {
        let r: &'static [&'static str] = match self {
            Language::TypeScript => &["typescript", "ts"],
            Language::JavaScript => &["javascript", "js"],
            Language::Python => &["python", "py"],
            Language::CSharp => &["csharp", "c#", "cs"],
            Language::Java => &["java"],
            Language::Kotlin => &["kotlin", "kt"],
            Language::Scala => &["scala"],
            Language::Go => &["go", "golang"],
            Language::Rust => &["rust", "rs"],
            Language::Ruby => &["ruby", "rb"],
            Language::Php => &["php"],
            Language::Cpp => &["cpp", "c++"],
            Language::C => &["c"],
            Language::Dart => &["dart"],
        };
        assert(r@.map_values(|s: &str| s@) =~= spec_aliases(*self));
        r
    }

    /// Whether this language's indexer ships with the tool.
    pub fn is_bundled(&self) -> (r: bool)
        ensures
            r == spec_is_bundled(*self),
    {
        match self {
            Language::TypeScript => true,
            Language::JavaScript => true,
            Language::Python => true,
            Language::CSharp => true,
            Language::Java => true,
            Language::Kotlin => false,
            Language::Scala => false,
            Language::Go => true,
            Language::Rust => false,
            Language::Ruby => false,
            Language::Php => false,
            Language::Cpp => false,
            Language::C => false,
            Language::Dart => false,
        }
    }

    /// The language named by `s` (an alias such as "ts" or "golang"),
    /// ignoring case; `None` for a name that no language goes by.
    pub fn parse(s: &str) -> (r: Option<Language>)
        ensures
            r == spec_parse(s@),
    {
        let lower = to_lower(s);
        let all = Language::all();
        let mut i: usize = 0;
        while i < all.len()
            invariant
                all@ == spec_all(),
                i <= all@.len(),
                alias_owner_from(lower@, 0) == alias_owner_from(lower@, i as int),
                lower@ == lower_of(s@),
            decreases all@.len() - i,
        {
            let l = all[i];
            let names = l.aliases();
            let mut j: usize = 0;
            while j < names.len()
                invariant
                    names@.map_values(|x: &str| x@) == spec_aliases(l),
                    all@ == spec_all(),
                    i < all@.len(),
                    l == spec_all()[i as int],
                    alias_owner_from(lower@, 0) == alias_owner_from(lower@, i as int),
                    lower@ == lower_of(s@),
                    j <= names@.len(),
                    forall|k: int| 0 <= k < j ==> names@[k]@ != lower@,
                decreases names@.len() - j,
            {
                if str_eq(names[j], lower.as_str()) {
                    assert(names@.map_values(|x: &str| x@)[j as int] == lower@);
                    assert(spec_aliases(l).contains(lower@));
                    return Some(l);
                }
                j = j + 1;
            }
            assert(!spec_aliases(l).contains(lower@)) by {
                if spec_aliases(l).contains(lower@) {
                    let k = choose|k: int| 0 <= k < spec_aliases(l).len() && spec_aliases(l)[k] == lower@;
                    assert(names@.map_values(|x: &str| x@)[k] == names@[k]@);
                }
            }
            i = i + 1;
        }
        None
    }

    /// The language that a file extension (without the dot) belongs to,
    /// compared case-sensitively; `None` for an unrecognized extension.
    pub fn from_extension(ext: &str) -> (r: Option<Language>)
        ensures
            r == spec_language_of_ext(ext@),
    {
        let all = Language::all();
        let mut i: usize = 0;
        while i < all.len()
            invariant
                all@ == spec_all(),
                i <= all@.len(),
                ext_owner_from(ext@, 0) == ext_owner_from(ext@, i as int),
            decreases all@.len() - i,
        {
            let l = all[i];
            let exts = l.extensions();
            let mut j: usize = 0;
            while j < exts.len()
                invariant
                    exts@.map_values(|x: &str| x@) == spec_extensions(l),
                    all@ == spec_all(),
                    i < all@.len(),
                    l == spec_all()[i as int],
                    ext_owner_from(ext@, 0) == ext_owner_from(ext@, i as int),
                    j <= exts@.len(),
                    forall|k: int| 0 <= k < j ==> exts@[k]@ != ext@,
                decreases exts@.len() - j,
            {
                if str_eq(exts[j], ext) {
                    assert(exts@.map_values(|x: &str| x@)[j as int] == ext@);
                    assert(spec_extensions(l).contains(ext@));
                    return Some(l);
                }
                j = j + 1;
            }
            assert(!spec_extensions(l).contains(ext@)) by {
                if spec_extensions(l).contains(ext@) {
                    let k = choose|k: int| 0 <= k < spec_extensions(l).len() && spec_extensions(l)[k] == ext@;
                    assert(exts@.map_values(|x: &str| x@)[k] == exts@[k]@);
                }
            }
            i = i + 1;
        }
        None
    }

    /// The language whose config file `name` is: an exact entry of the
    /// config table, or else C# for a name ending in ".csproj" or ".sln".
    pub fn from_config_file(name: &str) -> (r: Option<Language>)
        ensures
            r == spec_config_language(name@),
    {
        let table: &'static [(&'static str, Language)] = &[
            ("package.json", Language::JavaScript),
            ("tsconfig.json", Language::TypeScript),
            ("pyproject.toml", Language::Python),
            ("setup.py", Language::Python),
            ("requirements.txt", Language::Python),
            ("Pipfile", Language::Python),
            ("Cargo.toml", Language::Rust),
            ("go.mod", Language::Go),
            ("go.sum", Language::Go),
            ("pom.xml", Language::Java),
            ("build.gradle", Language::Java),
            ("build.gradle.kts", Language::Java),
            ("Gemfile", Language::Ruby),
            ("composer.json", Language::Php),
            ("pubspec.yaml", Language::Dart),
        ];
        assert(table@.map_values(|p: (&str, Language)| (p.0@, p.1)) =~= spec_config_table());
        let mut i: usize = 0;
        while i < table.len()
            invariant
                table@.map_values(|p: (&str, Language)| (p.0@, p.1)) == spec_config_table(),
                i <= table@.len(),
                config_owner_from(name@, 0) == config_owner_from(name@, i as int),
            decreases table@.len() - i,
        {
            let (entry, l) = table[i];
            assert(table@.map_values(|p: (&str, Language)| (p.0@, p.1))[i as int] == (entry@, l));
            if str_eq(entry, name) {
                return Some(l);
            }
            i = i + 1;
        }
        if ends_with(name, ".csproj") || ends_with(name, ".sln") {
            Some(Language::CSharp)
        } else {
            None
        }
    }
}

} // verus!
