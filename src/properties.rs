//! Laws of the detection engine, proved over the specifications of the
//! detector and the exclusion rules.
use vstd::prelude::*;
use crate::detect::{
    counted_files, error_count, excluded_count, lang_count, languages_describe, ranks_before,
    unrecognized_count, DetectionReport, ExtensionCount, LanguageInfo, WalkEntry,
};
use crate::exclude::{file_name_of, lemma_exclusion_order_independent, spec_excluded, valid_patterns};
use crate::language::{config_owner_from, spec_config_language, spec_config_table, Language};
use crate::text::spec_ends_with;

verus! {

proof fn lemma_walk_totals_agree(a: Seq<Seq<char>>, b: Seq<Seq<char>>, es: Seq<WalkEntry>)
    requires
        forall|c: Seq<Seq<char>>| spec_excluded(a, c) == spec_excluded(b, c),
    ensures
        counted_files(a, es) == counted_files(b, es),
        excluded_count(a, es) == excluded_count(b, es),
    decreases es.len(),
{
    if es.len() > 0 {
        lemma_walk_totals_agree(a, b, es.drop_last());
    }
}

/// The report does not depend on the order in which exclusion patterns are
/// supplied, nor on repeating one: two pattern lists with the same members
/// give detectors whose reports agree.
pub proof fn lemma_report_pattern_order_independent(
    a: Seq<Seq<char>>,
    b: Seq<Seq<char>>,
    es: Seq<WalkEntry>,
    r: DetectionReport,
)
    requires
        a.to_set() == b.to_set(),
    ensures
        r.describes(valid_patterns(a), es) <==> r.describes(valid_patterns(b), es),
{
    assert forall|c: Seq<Seq<char>>| spec_excluded(valid_patterns(a), c) == spec_excluded(valid_patterns(b), c) by {
        lemma_exclusion_order_independent(a, b, c);
    }
    lemma_walk_totals_agree(valid_patterns(a), valid_patterns(b), es);
}

/// Whether the language list has an entry for `l` with `n` files.
pub open spec fn lists_language(ls: Seq<LanguageInfo>, l: Language, n: usize) -> bool {
    exists|j: int| 0 <= j < ls.len() && (#[trigger] ls[j]).language == l && ls[j].file_count == n
}

/// Whether the extension list has an entry for `k` with `n` files.
pub open spec fn lists_extension(us: Seq<ExtensionCount>, k: Seq<char>, n: usize) -> bool {
    exists|j: int| 0 <= j < us.len() && (#[trigger] us[j]).extension@ == k && us[j].count == n
}

/// Two reports of one walk under one rule set agree: the same totals, the
/// same (language, count) pairs and the same (extension, count) pairs.
pub proof fn lemma_reports_agree(
    ps: Seq<Seq<char>>,
    es: Seq<WalkEntry>,
    r1: DetectionReport,
    r2: DetectionReport,
)
    requires
        r1.describes(ps, es),
        r2.describes(ps, es),
    ensures
        r1.total_files == r2.total_files,
        r1.supported_files == r2.supported_files,
        r1.excluded_files == r2.excluded_files,
        r1.walk_errors == r2.walk_errors,
        r1.languages@.len() == r2.languages@.len(),
        forall|l: Language, n: usize| #[trigger] lists_language(r1.languages@, l, n)
            == lists_language(r2.languages@, l, n),
        forall|k: Seq<char>, n: usize| #[trigger] lists_extension(r1.unrecognized_extensions@, k, n)
            == lists_extension(r2.unrecognized_extensions@, k, n),
{
    let fs = counted_files(ps, es);
    let l1 = r1.languages@;
    let l2 = r2.languages@;
    assert forall|l: Language, n: usize| #[trigger] lists_language(l1, l, n) implies lists_language(l2, l, n) by {
        let j = choose|j: int| 0 <= j < l1.len() && (#[trigger] l1[j]).language == l && l1[j].file_count == n;
        assert(lang_count(fs, l) > 0);
        let k = choose|k: int| 0 <= k < l2.len() && (#[trigger] l2[k]).language == l;
    }
    assert forall|l: Language, n: usize| #[trigger] lists_language(l2, l, n) implies lists_language(l1, l, n) by {
        let j = choose|j: int| 0 <= j < l2.len() && (#[trigger] l2[j]).language == l && l2[j].file_count == n;
        assert(lang_count(fs, l) > 0);
        let k = choose|k: int| 0 <= k < l1.len() && (#[trigger] l1[k]).language == l;
    }
    lemma_same_languages_same_length(l1, l2, fs);
    let u1 = r1.unrecognized_extensions@;
    let u2 = r2.unrecognized_extensions@;
    assert forall|x: Seq<char>, n: usize| #[trigger] lists_extension(u1, x, n) implies lists_extension(u2, x, n) by {
        let j = choose|j: int| 0 <= j < u1.len() && (#[trigger] u1[j]).extension@ == x && u1[j].count == n;
        assert(unrecognized_count(fs, x) > 0);
        let k = choose|k: int| 0 <= k < u2.len() && (#[trigger] u2[k]).extension@ == x;
    }
    assert forall|x: Seq<char>, n: usize| #[trigger] lists_extension(u2, x, n) implies lists_extension(u1, x, n) by {
        let j = choose|j: int| 0 <= j < u2.len() && (#[trigger] u2[j]).extension@ == x && u2[j].count == n;
        assert(unrecognized_count(fs, x) > 0);
        let k = choose|k: int| 0 <= k < u1.len() && (#[trigger] u1[k]).extension@ == x;
    }
}

/// Two exact language lists for the same files are equally long.
proof fn lemma_same_languages_same_length(l1: Seq<LanguageInfo>, l2: Seq<LanguageInfo>, fs: Seq<Seq<Seq<char>>>)
    requires
        languages_describe(l1, fs),
        languages_describe(l2, fs),
    ensures
        l1.len() == l2.len(),
{
    let s1 = l1.map_values(|x: LanguageInfo| x.language);
    let s2 = l2.map_values(|x: LanguageInfo| x.language);
    assert forall|j: int, k: int| 0 <= j < k < l1.len() implies s1[j] != s1[k] by {
        assert(ranks_before(l1[j], l1[k]));
    }
    assert forall|j: int, k: int| 0 <= j < k < l2.len() implies s2[j] != s2[k] by {
        assert(ranks_before(l2[j], l2[k]));
    }
    assert forall|l: Language| s1.contains(l) <==> s2.contains(l) by {
        if s1.contains(l) {
            let j = choose|j: int| 0 <= j < s1.len() && s1[j] == l;
            assert(l1[j].language == l);
            assert(lang_count(fs, l) > 0);
            let k = choose|k: int| 0 <= k < l2.len() && (#[trigger] l2[k]).language == l;
            assert(s2[k] == l);
        }
        if s2.contains(l) {
            let j = choose|j: int| 0 <= j < s2.len() && s2[j] == l;
            assert(l2[j].language == l);
            assert(lang_count(fs, l) > 0);
            let k = choose|k: int| 0 <= k < l1.len() && (#[trigger] l1[k]).language == l;
            assert(s1[k] == l);
        }
    }
    s1.unique_seq_to_set();
    s2.unique_seq_to_set();
    assert(s1.to_set() =~= s2.to_set());
}

/// A file named exactly `tsconfig.json` marks TypeScript, at any depth, and
/// a file whose name ends in `.csproj` or `.sln` marks C#.
pub proof fn lemma_config_file_at_any_depth(c: Seq<Seq<char>>)
    requires
        c.len() > 0,
    ensures
        file_name_of(c) == "tsconfig.json"@ ==> spec_config_language(file_name_of(c))
            == Some(Language::TypeScript),
        spec_ends_with(file_name_of(c), ".csproj"@) || spec_ends_with(file_name_of(c), ".sln"@)
            ==> spec_config_language(file_name_of(c)) == Some(Language::CSharp),
{
    let name = file_name_of(c);
    reveal_strlit("package.json");
    reveal_strlit("tsconfig.json");
    if name == "tsconfig.json"@ {
        assert(spec_config_table()[0].0 == "package.json"@);
        assert("package.json"@.len() != "tsconfig.json"@.len());
        assert(spec_config_table()[0].0 != name);
        assert(config_owner_from(name, 1) == Some(Language::TypeScript));
    }
    if spec_ends_with(name, ".csproj"@) || spec_ends_with(name, ".sln"@) {
        lemma_no_config_entry_is_project_file(name);
    }
}

/// No exact entry of the config table is a project or solution file name.
proof fn lemma_no_config_entry_is_project_file(name: Seq<char>)
    requires
        spec_ends_with(name, ".csproj"@) || spec_ends_with(name, ".sln"@),
    ensures
        config_owner_from(name, 0) is None,
{
    reveal_strlit(".csproj");
    reveal_strlit(".sln");
    reveal_strlit("package.json");
    reveal_strlit("tsconfig.json");
    reveal_strlit("pyproject.toml");
    reveal_strlit("setup.py");
    reveal_strlit("requirements.txt");
    reveal_strlit("Pipfile");
    reveal_strlit("Cargo.toml");
    reveal_strlit("go.mod");
    reveal_strlit("go.sum");
    reveal_strlit("pom.xml");
    reveal_strlit("build.gradle");
    reveal_strlit("build.gradle.kts");
    reveal_strlit("Gemfile");
    reveal_strlit("composer.json");
    reveal_strlit("pubspec.yaml");
    let t = spec_config_table();
    let n = name.len() as int;
    // the name ends in "oj" (.csproj) or in "ln" (.sln)
    if spec_ends_with(name, ".csproj"@) {
        assert(name.subrange(n - 7, n)[6] == 'j');
        assert(name[n - 1] == 'j');
    } else {
        assert(name.subrange(n - 4, n)[3] == 'n');
        assert(name.subrange(n - 4, n)[2] == 'l');
        assert(name[n - 1] == 'n' && name[n - 2] == 'l');
    }
    assert(t[0].0 == "package.json"@);
    assert("package.json"@[11] == 'n' && "package.json"@[10] == 'o');
    assert(t[1].0 == "tsconfig.json"@);
    assert("tsconfig.json"@[12] == 'n' && "tsconfig.json"@[11] == 'o');
    assert(t[2].0 == "pyproject.toml"@);
    assert("pyproject.toml"@[13] == 'l' && "pyproject.toml"@[12] == 'm');
    assert(t[3].0 == "setup.py"@);
    assert("setup.py"@[7] == 'y' && "setup.py"@[6] == 'p');
    assert(t[4].0 == "requirements.txt"@);
    assert("requirements.txt"@[15] == 't' && "requirements.txt"@[14] == 'x');
    assert(t[5].0 == "Pipfile"@);
    assert("Pipfile"@[6] == 'e' && "Pipfile"@[5] == 'l');
    assert(t[6].0 == "Cargo.toml"@);
    assert("Cargo.toml"@[9] == 'l' && "Cargo.toml"@[8] == 'm');
    assert(t[7].0 == "go.mod"@);
    assert("go.mod"@[5] == 'd' && "go.mod"@[4] == 'o');
    assert(t[8].0 == "go.sum"@);
    assert("go.sum"@[5] == 'm' && "go.sum"@[4] == 'u');
    assert(t[9].0 == "pom.xml"@);
    assert("pom.xml"@[6] == 'l' && "pom.xml"@[5] == 'm');
    assert(t[10].0 == "build.gradle"@);
    assert("build.gradle"@[11] == 'e' && "build.gradle"@[10] == 'l');
    assert(t[11].0 == "build.gradle.kts"@);
    assert("build.gradle.kts"@[15] == 's' && "build.gradle.kts"@[14] == 't');
    assert(t[12].0 == "Gemfile"@);
    assert("Gemfile"@[6] == 'e' && "Gemfile"@[5] == 'l');
    assert(t[13].0 == "composer.json"@);
    assert("composer.json"@[12] == 'n' && "composer.json"@[11] == 'o');
    assert(t[14].0 == "pubspec.yaml"@);
    assert("pubspec.yaml"@[11] == 'l' && "pubspec.yaml"@[10] == 'm');
    assert forall|i: int| 0 <= i < t.len() implies t[i].0 != name by {
        if t[i].0 == name {
            assert(t[i].0[n - 1] == name[n - 1]);
            assert(t[i].0[n - 2] == name[n - 2]);
        }
    }
    lemma_config_owner_absent(name, 0);
}

proof fn lemma_config_owner_absent(name: Seq<char>, k: int)
    requires
        0 <= k,
        forall|i: int| 0 <= i < spec_config_table().len() ==> spec_config_table()[i].0 != name,
    ensures
        config_owner_from(name, k) is None,
    decreases spec_config_table().len() - k,
{
    if k < spec_config_table().len() {
        lemma_config_owner_absent(name, k + 1);
    }
}

/// Whether a walk entry is a directory that was reached.
pub open spec fn is_directory_entry(e: WalkEntry) -> bool {
    match e {
        WalkEntry::Visited { is_file, .. } => !is_file,
        WalkEntry::Failed => false,
    }
}

/// A walk that met only directories gives a report with every count zero
/// and both lists empty.
pub proof fn lemma_walk_without_files(ps: Seq<Seq<char>>, es: Seq<WalkEntry>, r: DetectionReport)
    requires
        r.describes(ps, es),
        forall|i: int| 0 <= i < es.len() ==> is_directory_entry(#[trigger] es[i]),
    ensures
        r.total_files == 0,
        r.supported_files == 0,
        r.excluded_files == 0,
        r.walk_errors == 0,
        r.languages@.len() == 0,
        r.unrecognized_extensions@.len() == 0,
{
    lemma_no_files_counted(ps, es);
    let fs = counted_files(ps, es);
    if r.languages@.len() > 0 {
        assert(r.languages@[0].file_count == lang_count(fs, r.languages@[0].language));
    }
    if r.unrecognized_extensions@.len() > 0 {
        let x = r.unrecognized_extensions@[0];
        assert(x.count == unrecognized_count(fs, x.extension@));
    }
}

proof fn lemma_no_files_counted(ps: Seq<Seq<char>>, es: Seq<WalkEntry>)
    requires
        forall|i: int| 0 <= i < es.len() ==> is_directory_entry(#[trigger] es[i]),
    ensures
        counted_files(ps, es).len() == 0,
        excluded_count(ps, es) == 0,
        error_count(es) == 0,
    decreases es.len(),
{
    if es.len() > 0 {
        assert forall|i: int| 0 <= i < es.drop_last().len() implies is_directory_entry(#[trigger] es.drop_last()[i]) by {
            assert(es.drop_last()[i] == es[i]);
        }
        lemma_no_files_counted(ps, es.drop_last());
        assert(es.last() == es[es.len() - 1]);
    }
}

} // verus!
