use legend_indexer::language::Language;
use legend_indexer::orchestrate::{
    after_attempt, is_stale_output, join, plan_exhausted, Attempt, AttemptOutcome, Guard,
    IndexerOrchestrator, IndexerResult, RunStep,
};

fn strings(parts: &[&str]) -> Vec<String> {
    parts.iter().map(|s| s.to_string()).collect()
}

#[test]
fn output_paths_live_in_work_dir() {
    let o = IndexerOrchestrator::with_paths("/code/app".to_string(), None);
    assert_eq!(o.output_dir(), "/code/app/.legend-indexer");
    assert_eq!(o.scip_output_path(Language::CSharp), "/code/app/.legend-indexer/csharp.scip");
    let o = IndexerOrchestrator::with_paths("/code/app/".to_string(), None);
    assert_eq!(o.output_dir(), "/code/app/.legend-indexer");
}

#[test]
fn join_follows_path_rules() {
    assert_eq!(join("", "x"), "x");
    assert_eq!(join("a/", "x"), "a/x");
    assert_eq!(join("a", "x/y"), "a/x/y");
}

#[test]
fn stale_outputs() {
    assert!(is_stale_output("old-language.scip"));
    assert!(is_stale_output("detection-report.json"));
    assert!(!is_stale_output("notes.txt"));
    assert!(!is_stale_output(".scip"));
    assert!(!is_stale_output("x.scipx"));
}

#[test]
fn probes_for_availability() {
    let o = IndexerOrchestrator::with_paths(".".to_string(), Some("/opt/idx".to_string()));
    assert_eq!(
        o.availability_probes(Language::TypeScript),
        vec![
            Guard::Exists("/opt/idx/scip-typescript".to_string()),
            Guard::OnPath("scip-typescript".to_string()),
            Guard::OnPath("scip-ts".to_string()),
            Guard::OnPath("npx".to_string()),
        ]
    );
    let o = IndexerOrchestrator::with_paths(".".to_string(), None);
    assert_eq!(o.availability_probes(Language::Go), vec![Guard::OnPath("scip-go".to_string())]);
    assert!(!o.is_indexer_available(Language::Go, &vec![false]));
    assert!(o.is_indexer_available(Language::Python, &vec![false, true]));
}

#[test]
fn simple_plan_prefers_bundled_copy() {
    let o = IndexerOrchestrator::with_paths("/c".to_string(), Some("/b".to_string()));
    let plan = o.indexer_plan(Language::Python, true, None, "/home/u").unwrap();
    let args = strings(&["index", ".", "--output", "/c/.legend-indexer/python.scip"]);
    assert_eq!(
        plan,
        vec![
            Attempt {
                guard: Guard::Exists("/b/scip-python".to_string()),
                program: "/b/scip-python".to_string(),
                args: args.clone(),
                fall_through: false,
            },
            Attempt { guard: Guard::Always, program: "scip-python".to_string(), args, fall_through: false },
        ]
    );
}

#[test]
fn typescript_plan_infers_tsconfig_when_root_has_none() {
    let o = IndexerOrchestrator::with_paths("/c".to_string(), None);
    let plan = o.indexer_plan(Language::JavaScript, false, None, "").unwrap();
    let args = strings(&["index", "--output", "/c/.legend-indexer/javascript.scip", "--infer-tsconfig"]);
    assert_eq!(plan.len(), 2);
    assert_eq!(plan[0].program, "npx");
    assert!(plan[0].fall_through);
    assert_eq!(plan[0].args[0], "@sourcegraph/scip-typescript");
    assert_eq!(plan[0].args[1..].to_vec(), args);
    assert_eq!(plan[1].program, "scip-typescript");
    assert_eq!(plan[1].args, args);
}

#[test]
fn dotnet_plan_names_solution() {
    let o = IndexerOrchestrator::with_paths("/c".to_string(), None);
    let plan = o.indexer_plan(Language::CSharp, false, Some("/c/App.sln".to_string()), "/home/u").unwrap();
    let args = strings(&["index", "/c/App.sln", "--output", "/c/.legend-indexer/csharp.scip"]);
    assert_eq!(plan.len(), 3);
    assert_eq!(plan[0].guard, Guard::OnPath("scip-dotnet".to_string()));
    assert_eq!(plan[0].args, args);
    assert_eq!(plan[1].guard, Guard::Exists("/home/u/.dotnet/tools/scip-dotnet".to_string()));
    assert_eq!(plan[2].program, "dotnet");
    assert_eq!(plan[2].args[..4].to_vec(), strings(&["tool", "run", "scip-dotnet", "--"]));
}

#[test]
fn languages_without_indexer_fail() {
    let o = IndexerOrchestrator::with_paths("/c".to_string(), None);
    assert_eq!(
        o.indexer_plan(Language::Php, true, None, "").unwrap_err(),
        "Indexer for Php not yet implemented"
    );
    assert!(o.indexer_plan(Language::Dart, true, None, "").is_err());
    assert!(o.indexer_plan(Language::Kotlin, true, None, "").is_ok());
}

#[test]
fn dotnet_solution_search_order() {
    let o = IndexerOrchestrator::with_paths("/c".to_string(), None);
    let none: Vec<Vec<String>> = vec![vec![], vec![], vec![], vec![]];
    assert_eq!(o.find_dotnet_solution(&strings(&["a.csproj", "b.sln"]), &none), Some("/c/b.sln".to_string()));
    let subs = vec![vec![], strings(&["x.txt", "y.sln"]), strings(&["z.sln"]), vec![]];
    assert_eq!(o.find_dotnet_solution(&strings(&["a.csproj"]), &subs), Some("/c/source/y.sln".to_string()));
    assert_eq!(o.find_dotnet_solution(&strings(&["a.csproj"]), &none), Some("/c/a.csproj".to_string()));
    assert_eq!(o.find_dotnet_solution(&strings(&["README.md"]), &none), None);
}

#[test]
fn results_of_runs() {
    let r = IndexerResult::not_installed(Language::Go);
    assert!(!r.success);
    assert_eq!(r.error.as_deref(), Some("Indexer not installed"));
    let r = IndexerResult::finished(Language::Go, "/o/go.scip".to_string(), Ok(()));
    assert!(r.success && r.error.is_none());
    let r = IndexerResult::finished(Language::Go, "/o/go.scip".to_string(), Err("boom".to_string()));
    assert!(!r.success);
    assert_eq!(r.error.as_deref(), Some("boom"));
}

#[test]
fn default_config() {
    let c = legend_indexer::config::Config::default();
    assert_eq!(c.input_path, ".");
    assert_eq!(c.exclude_patterns.len(), 8);
    assert_eq!(c.exclude_patterns[0], "node_modules/**");
    assert!(c.languages.is_empty() && !c.verbose);
}

#[test]
fn steps_after_attempts() {
    let o = IndexerOrchestrator::with_paths("/c".to_string(), None);
    let plan = o.indexer_plan(Language::TypeScript, true, None, "").unwrap();
    let npx = &plan[0];
    let direct = &plan[1];
    assert_eq!(after_attempt(npx, AttemptOutcome::Skipped), RunStep::Next);
    assert_eq!(after_attempt(npx, AttemptOutcome::Failed("exit 1".to_string())), RunStep::Next);
    assert_eq!(
        after_attempt(npx, AttemptOutcome::NotStarted("no npx".to_string())),
        RunStep::Done(Err("no npx".to_string()))
    );
    assert_eq!(after_attempt(direct, AttemptOutcome::Succeeded), RunStep::Done(Ok(())));
    assert_eq!(
        after_attempt(direct, AttemptOutcome::Failed("exit 2".to_string())),
        RunStep::Done(Err("exit 2".to_string()))
    );
    assert_eq!(plan_exhausted(), Err("no indexer could be started".to_string()));
}
