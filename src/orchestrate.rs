//! Plans for running the per-language indexers.
//!
//! Running a program, probing the file system and searching `PATH` happen
//! outside the library. The library decides what to probe and what to run,
//! in which order, and what a run's outcome becomes.
use vstd::prelude::*;
use crate::detect::{extension_of, spec_extension};
use crate::exclude::views;
use crate::language::{spec_binary_names, spec_output_stem, spec_scip_indexer, Language};

verus! {

/// `name` resolved against the directory `base`, as `Path::join` does for a
/// relative name.
pub open spec fn spec_join(base: Seq<char>, name: Seq<char>) -> Seq<char> {
    if base.len() == 0 {
        name
    } else if base.last() == '/' {
        base + name
    } else {
        base + seq!['/'] + name
    }
}

/// `name` resolved against the directory `base`.
pub fn join(base: &str, name: &str) -> (r: String)
    ensures
        r@ == spec_join(base@, name@),
{
    let n = base.unicode_len();
    if n == 0 {
        return String::from_str(name);
    }
    let mut r = String::from_str(base);
    if base.get_char(n - 1) != '/' {
        r.append("/");
        proof {
            reveal_strlit("/");
        }
    }
    r.append(name);
    r
}

/// A condition checked before an attempt.
#[derive(Debug, Clone, PartialEq, Eq)]
pub enum Guard {
    Always,
    /// The file at this path exists.
    Exists(String),
    /// A program of this name is found on the search path.
    OnPath(String),
}

/// A guard, over plain values.
pub enum GuardModel {
    Always,
    Exists(Seq<char>),
    OnPath(Seq<char>),
}

impl Guard {
    pub open spec fn model(&self) -> GuardModel {
        match self {
            Guard::Always => GuardModel::Always,
            Guard::Exists(p) => GuardModel::Exists(p@),
            Guard::OnPath(n) => GuardModel::OnPath(n@),
        }
    }
}

/// One way to run an indexer. Attempts are tried in order: one whose guard
/// fails is skipped; one that runs and succeeds ends the run; one that runs
/// and fails ends it too, unless it falls through to the next attempt. A
/// program that cannot be started ends the run with an error.
#[derive(Debug, Clone, PartialEq, Eq)]
pub struct Attempt {
    pub guard: Guard,
    pub program: String,
    pub args: Vec<String>,
    pub fall_through: bool,
}

/// An attempt, over plain values.
pub struct AttemptModel {
    pub guard: GuardModel,
    pub program: Seq<char>,
    pub args: Seq<Seq<char>>,
    pub fall_through: bool,
}

impl Attempt {
    pub open spec fn model(&self) -> AttemptModel {
        AttemptModel {
            guard: self.guard.model(),
            program: self.program@,
            args: views(self.args@),
            fall_through: self.fall_through,
        }
    }
}

/// The models of a list of attempts.
pub open spec fn attempt_models(s: Seq<Attempt>) -> Seq<AttemptModel> {
    s.map_values(|a: Attempt| a.model())
}

/// The models of a list of guards.
pub open spec fn guard_models(s: Seq<Guard>) -> Seq<GuardModel> {
    s.map_values(|g: Guard| g.model())
}

/// The outcome of running one language's indexer.
#[derive(Debug, Clone)]
pub struct IndexerResult {
    pub language: Language,
    pub scip_path: String,
    pub success: bool,
    pub error: Option<String>,
}

impl IndexerResult {
    /// The result for a language whose indexer is not installed.
    pub fn not_installed(language: Language) -> (r: IndexerResult)
        ensures
            r.language == language,
            r.scip_path@.len() == 0,
            !r.success,
            r.error matches Some(e) && e@ == "Indexer not installed"@,
    {
        IndexerResult {
            language,
            scip_path: String::new(),
            success: false,
            error: Some(String::from_str("Indexer not installed")),
        }
    }

    /// The result of a run that ended with `outcome`.
    pub fn finished(language: Language, scip_path: String, outcome: Result<(), String>) -> (r: IndexerResult)
        ensures
            r.language == language,
            r.scip_path == scip_path,
            r.success == outcome is Ok,
            match outcome {
                Ok(_) => r.error is None,
                Err(e) => r.error == Some(e),
            },
    {
        match outcome {
            Ok(()) => IndexerResult { language, scip_path, success: true, error: None },
            Err(e) => IndexerResult { language, scip_path, success: false, error: Some(e) },
        }
    }
}

/// Whether a file left in the output directory by an earlier run is to be
/// removed: an index file, or the detection report.
pub open spec fn spec_is_stale_output(name: Seq<char>) -> bool {
    spec_extension(name) == Some("scip"@) || name == "detection-report.json"@
}

/// Whether a file left in the output directory by an earlier run is to be
/// removed.
pub fn is_stale_output(name: &str) -> (r: bool)
    ensures
        r == spec_is_stale_output(name@),
{
    let is_index = match extension_of(name) {
        Some(e) => crate::text::str_eq(e, "scip"),
        None => false,
    };
    is_index || crate::text::str_eq(name, "detection-report.json")
}

/// The view of an optional string.
pub open spec fn opt_view(o: Option<String>) -> Option<Seq<char>> {
    match o {
        Some(s) => Some(s@),
        None => None,
    }
}

/// The name of the working directory inside a codebase.
pub open spec fn work_dir_name() -> Seq<char> {
    ".legend-indexer"@
}

/// Decides how indexers are run over one codebase.
pub struct IndexerOrchestrator {
    indexers_path: Option<String>,
    codebase_path: String,
    output_dir: String,
}

impl IndexerOrchestrator {
    pub closed spec fn spec_codebase_path(&self) -> Seq<char> {
        self.codebase_path@
    }

    pub closed spec fn spec_indexers_path(&self) -> Option<Seq<char>> {
        opt_view(self.indexers_path)
    }

    pub closed spec fn spec_output_dir(&self) -> Seq<char> {
        self.output_dir@
    }

    /// An orchestrator for the codebase at `codebase_path`, whose output
    /// goes to the working directory inside it.
    pub fn with_paths(codebase_path: String, indexers_path: Option<String>) -> (r: IndexerOrchestrator)
        ensures
            r.spec_codebase_path() == codebase_path@,
            r.spec_indexers_path() == opt_view(indexers_path),
            r.spec_output_dir() == spec_join(codebase_path@, work_dir_name()),
    {
        let output_dir = join(codebase_path.as_str(), ".legend-indexer");
        IndexerOrchestrator { indexers_path, codebase_path, output_dir }
    }

    /// The directory that receives the index files.
    pub fn output_dir(&self) -> (r: &String)
        ensures
            r@ == self.spec_output_dir(),
    {
        &self.output_dir
    }

    /// The codebase that indexers run in.
    pub fn codebase_path(&self) -> (r: &String)
        ensures
            r@ == self.spec_codebase_path(),
    {
        &self.codebase_path
    }

    /// Where the index file of `language` is written.
    pub open spec fn spec_scip_output_path(&self, language: Language) -> Seq<char> {
        spec_join(self.spec_output_dir(), spec_output_stem(language) + ".scip"@)
    }

    /// Where the index file of `language` is written.
    pub fn scip_output_path(&self, language: Language) -> (r: String)
        ensures
            r@ == self.spec_scip_output_path(language),
    {
        let mut file = String::from_str(language.scip_output_stem());
        file.append(".scip");
        join(self.output_dir.as_str(), file.as_str())
    }

    /// Where a bundled copy of `indexer` would be.
    pub open spec fn spec_bundled_path(&self, indexer: Seq<char>) -> Option<Seq<char>> {
        match self.spec_indexers_path() {
            Some(base) => Some(spec_join(base, indexer)),
            None => None,
        }
    }

    /// Where a bundled copy of `indexer` would be, if there is a bundle
    /// directory.
    pub fn bundled_path(&self, indexer: &str) -> (r: Option<String>)
        ensures
            match r {
                Some(p) => self.spec_bundled_path(indexer@) == Some(p@),
                None => self.spec_bundled_path(indexer@) is None,
            },
    {
        match &self.indexers_path {
            Some(base) => Some(join(base.as_str(), indexer)),
            None => None,
        }
    }

    /// What is probed to tell whether the indexer of `language` is there: a
    /// bundled copy, then each of its program names on the search path, then
    /// `npx` for the node languages. It is there when any probe holds.
    pub open spec fn spec_availability_probes(&self, language: Language) -> Seq<GuardModel> {
        let bundled = match self.spec_bundled_path(spec_scip_indexer(language)) {
            Some(p) => seq![GuardModel::Exists(p)],
            None => seq![],
        };
        let names = spec_binary_names(language).map_values(|n: Seq<char>| GuardModel::OnPath(n));
        let npx = if uses_node(language) {
            seq![GuardModel::OnPath("npx"@)]
        } else {
            seq![]
        };
        bundled + names + npx
    }

    /// What is probed to tell whether the indexer of `language` is there.
    pub fn availability_probes(&self, language: Language) -> (r: Vec<Guard>)
        ensures
            guard_models(r@) == self.spec_availability_probes(language),
    {
        let mut r: Vec<Guard> = Vec::new();
        match self.bundled_path(language.scip_indexer()) {
            Some(p) => r.push(Guard::Exists(p)),
            None => {},
        }
        let ghost start = guard_models(r@);
        let names = language.scip_binary_names();
        let ghost nv = names@.map_values(|s: &str| s@);
        let mut i: usize = 0;
        while i < names.len()
            invariant
                i <= names@.len(),
                nv == names@.map_values(|s: &str| s@),
                nv == spec_binary_names(language),
                guard_models(r@) == start + nv.subrange(0, i as int).map_values(|n: Seq<char>| GuardModel::OnPath(n)),
            decreases names@.len() - i,
        {
            assert(nv[i as int] == names@[i as int]@);
            let ghost old_r = r@;
            r.push(Guard::OnPath(String::from_str(names[i])));
            assert(guard_models(r@) =~= guard_models(old_r).push(GuardModel::OnPath(nv[i as int])));
            assert(nv.subrange(0, i as int + 1).map_values(|n: Seq<char>| GuardModel::OnPath(n)) =~= nv.subrange(0, i as int).map_values(|n: Seq<char>| GuardModel::OnPath(n)).push(GuardModel::OnPath(nv[i as int])));
            assert(guard_models(r@) =~= start + nv.subrange(0, i as int + 1).map_values(|n: Seq<char>| GuardModel::OnPath(n)));
            i = i + 1;
        }
        assert(nv.subrange(0, names@.len() as int) =~= nv);
        let ghost mid = guard_models(r@);
        if language == Language::TypeScript || language == Language::JavaScript {
            r.push(Guard::OnPath(String::from_str("npx")));
            assert(guard_models(r@) =~= mid + seq![GuardModel::OnPath("npx"@)]);
        } else {
            assert(guard_models(r@) =~= mid + Seq::<GuardModel>::empty());
        }
        r
    }

    /// Whether the indexer of `language` is there, given for each probe of
    /// `availability_probes(language)`, in order, whether it held.
    pub fn is_indexer_available(&self, language: Language, held: &Vec<bool>) -> (r: bool)
        requires
            held@.len() == self.spec_availability_probes(language).len(),
        ensures
            r == held@.contains(true),
    {
        let mut i: usize = 0;
        while i < held.len()
            invariant
                i <= held@.len(),
                forall|k: int| 0 <= k < i ==> !held@[k],
            decreases held@.len() - i,
        {
            if held[i] {
                assert(held@[i as int]);
                return true;
            }
            i = i + 1;
        }
        false
    }

    /// The attempt that runs a bundled copy of `indexer`, if there is a
    /// bundle directory.
    pub open spec fn spec_bundled_attempts(&self, indexer: Seq<char>, args: Seq<Seq<char>>) -> Seq<AttemptModel> {
        match self.spec_bundled_path(indexer) {
            Some(p) => seq![AttemptModel { guard: GuardModel::Exists(p), program: p, args, fall_through: false }],
            None => seq![],
        }
    }

    fn bundled_attempts(&self, indexer: &str, args: &Vec<String>) -> (r: Vec<Attempt>)
        ensures
            attempt_models(r@) == self.spec_bundled_attempts(indexer@, views(args@)),
    {
        let mut r: Vec<Attempt> = Vec::new();
        match self.bundled_path(indexer) {
            Some(p) => {
                let program = p.clone();
                r.push(Attempt { guard: Guard::Exists(p), program, args: copy_all(args), fall_through: false });
                assert(attempt_models(r@) =~= self.spec_bundled_attempts(indexer@, views(args@)));
            },
            None => {
                assert(attempt_models(r@) =~= self.spec_bundled_attempts(indexer@, views(args@)));
            },
        }
        r
    }

    /// The plan for a single-program indexer: its bundled copy, else the
    /// program of that name.
    pub open spec fn spec_simple_plan(&self, binary: Seq<char>, args: Seq<Seq<char>>) -> Seq<AttemptModel> {
        self.spec_bundled_attempts(binary, args) + seq![
            AttemptModel { guard: GuardModel::Always, program: binary, args, fall_through: false },
        ]
    }

    fn simple_plan(&self, binary: &str, args: Vec<String>) -> (r: Vec<Attempt>)
        ensures
            attempt_models(r@) == self.spec_simple_plan(binary@, views(args@)),
    {
        let mut r = self.bundled_attempts(binary, &args);
        let ghost before = attempt_models(r@);
        let ghost av = views(args@);
        r.push(Attempt { guard: Guard::Always, program: String::from_str(binary), args, fall_through: false });
        assert(attempt_models(r@) =~= before + seq![
            AttemptModel { guard: GuardModel::Always, program: binary@, args: av, fall_through: false },
        ]);
        r
    }

    /// The plan for the node languages: the bundled indexer, else the
    /// indexer through `npx` (falling through when it fails), else the
    /// indexer on the search path.
    pub open spec fn spec_typescript_plan(&self, out: Seq<char>, has_root_tsconfig: bool) -> Seq<AttemptModel> {
        let args = typescript_args(out, has_root_tsconfig);
        self.spec_bundled_attempts("scip-typescript"@, args) + seq![
            AttemptModel {
                guard: GuardModel::OnPath("npx"@),
                program: "npx"@,
                args: seq!["@sourcegraph/scip-typescript"@] + args,
                fall_through: true,
            },
            AttemptModel { guard: GuardModel::Always, program: "scip-typescript"@, args, fall_through: false },
        ]
    }

    fn typescript_plan(&self, out: &String, has_root_tsconfig: bool) -> (r: Vec<Attempt>)
        ensures
            attempt_models(r@) == self.spec_typescript_plan(out@, has_root_tsconfig),
    {
        let mut args = vec![String::from_str("index"), String::from_str("--output")];
        args.push(out.clone());
        if !has_root_tsconfig {
            args.push(String::from_str("--infer-tsconfig"));
        }
        let ghost av = views(args@);
        assert(av =~= typescript_args(out@, has_root_tsconfig));
        let mut r = self.bundled_attempts("scip-typescript", &args);
        let ghost before = attempt_models(r@);
        let mut npx_args = vec![String::from_str("@sourcegraph/scip-typescript")];
        let ghost head = views(npx_args@);
        assert(head =~= seq!["@sourcegraph/scip-typescript"@]);
        extend_copy(&mut npx_args, &args);
        assert(views(npx_args@) =~= head + av);
        r.push(Attempt {
            guard: Guard::OnPath(String::from_str("npx")),
            program: String::from_str("npx"),
            args: npx_args,
            fall_through: true,
        });
        r.push(Attempt { guard: Guard::Always, program: String::from_str("scip-typescript"), args, fall_through: false });
        let ghost tail = seq![
            AttemptModel {
                guard: GuardModel::OnPath("npx"@),
                program: "npx"@,
                args: seq!["@sourcegraph/scip-typescript"@] + av,
                fall_through: true,
            },
            AttemptModel { guard: GuardModel::Always, program: "scip-typescript"@, args: av, fall_through: false },
        ];
        assert(attempt_models(r@)[before.len() as int] == tail[0]);
        assert(attempt_models(r@)[before.len() as int + 1] == tail[1]);
        assert(attempt_models(r@) =~= before + tail);
        r
    }

    /// The plan for C#: the bundled indexer, else the indexer on the search
    /// path, else the global tool below `home`, else `dotnet tool run`.
    pub open spec fn spec_dotnet_plan(&self, out: Seq<char>, solution: Option<Seq<char>>, home: Seq<char>) -> Seq<AttemptModel> {
        let args = dotnet_args(out, solution);
        self.spec_bundled_attempts("scip-dotnet"@, args) + seq![
            AttemptModel {
                guard: GuardModel::OnPath("scip-dotnet"@),
                program: "scip-dotnet"@,
                args,
                fall_through: false,
            },
            AttemptModel {
                guard: GuardModel::Exists(dotnet_global_tool(home)),
                program: dotnet_global_tool(home),
                args,
                fall_through: false,
            },
            AttemptModel {
                guard: GuardModel::Always,
                program: "dotnet"@,
                args: seq!["tool"@, "run"@, "scip-dotnet"@, "--"@] + args,
                fall_through: false,
            },
        ]
    }

    fn dotnet_plan(&self, out: &String, solution: Option<String>, home: &str) -> (r: Vec<Attempt>)
        ensures
            attempt_models(r@) == self.spec_dotnet_plan(
                out@,
                opt_view(solution),
                home@,
            ),
    {
        let ghost sol = opt_view(solution);
        let mut args = vec![String::from_str("index")];
        match solution {
            Some(s) => {
                args.push(s);
                args.push(String::from_str("--output"));
                args.push(out.clone());
                assert(views(args@) =~= dotnet_args(out@, sol));
            },
            None => {
                args.push(String::from_str("--output"));
                args.push(out.clone());
                assert(views(args@) =~= dotnet_args(out@, sol));
            },
        }
        let ghost av = views(args@);
        assert(av =~= dotnet_args(out@, sol));
        let mut r = self.bundled_attempts("scip-dotnet", &args);
        let ghost before = attempt_models(r@);
        r.push(Attempt {
            guard: Guard::OnPath(String::from_str("scip-dotnet")),
            program: String::from_str("scip-dotnet"),
            args: copy_all(&args),
            fall_through: false,
        });
        let tool = join(home, ".dotnet/tools/scip-dotnet");
        r.push(Attempt { guard: Guard::Exists(tool.clone()), program: tool, args: copy_all(&args), fall_through: false });
        let mut run_args = vec![String::from_str("tool"), String::from_str("run"), String::from_str("scip-dotnet"), String::from_str("--")];
        let ghost head = views(run_args@);
        assert(head =~= seq!["tool"@, "run"@, "scip-dotnet"@, "--"@]);
        extend_copy(&mut run_args, &args);
        assert(views(run_args@) =~= head + av);
        r.push(Attempt { guard: Guard::Always, program: String::from_str("dotnet"), args: run_args, fall_through: false });
        assert(attempt_models(r@) =~= self.spec_dotnet_plan(out@, sol, home@));
        r
    }

    /// The plan that runs the indexer of `language`, writing to
    /// [`Self::scip_output_path`]; an error for a language without one.
    /// `has_root_tsconfig` says whether the codebase has a `tsconfig.json`
    /// at its root, `solution` is the solution or project file found for
    /// C#, and `home` is the home directory.
    pub open spec fn spec_indexer_plan(
        &self,
        language: Language,
        has_root_tsconfig: bool,
        solution: Option<Seq<char>>,
        home: Seq<char>,
    ) -> Option<Seq<AttemptModel>> {
        let out = self.spec_scip_output_path(language);
        if uses_node(language) {
            Some(self.spec_typescript_plan(out, has_root_tsconfig))
        } else if language == Language::CSharp {
            Some(self.spec_dotnet_plan(out, solution, home))
        } else {
            match simple_invocation(language, out) {
                Some((binary, args)) => Some(self.spec_simple_plan(binary, args)),
                None => None,
            }
        }
    }

    /// The plan that runs the indexer of `language`.
    pub fn indexer_plan(
        &self,
        language: Language,
        has_root_tsconfig: bool,
        solution: Option<String>,
        home: &str,
    ) -> (r: Result<Vec<Attempt>, String>)
        ensures
            match r {
                Ok(plan) => self.spec_indexer_plan(
                    language,
                    has_root_tsconfig,
                    opt_view(solution),
                    home@,
                ) == Some(attempt_models(plan@)),
                Err(e) => lacks_indexer(language) && e@ == unimplemented_message(language)
                    && self.spec_indexer_plan(
                    language,
                    has_root_tsconfig,
                    opt_view(solution),
                    home@,
                ) is None,
            },
    {
        let out = self.scip_output_path(language);
        let ghost ov = out@;
        match language {
            Language::TypeScript | Language::JavaScript => Ok(self.typescript_plan(&out, has_root_tsconfig)),
            Language::CSharp => Ok(self.dotnet_plan(&out, solution, home)),
            Language::Python => {
                let mut args = vec![String::from_str("index"), String::from_str("."), String::from_str("--output")];
                args.push(out);
                assert(views(args@) =~= seq!["index"@, "."@, "--output"@, ov]);
                Ok(self.simple_plan("scip-python", args))
            },
            Language::Java | Language::Kotlin | Language::Scala => {
                let mut args = vec![String::from_str("index"), String::from_str("--output")];
                args.push(out);
                assert(views(args@) =~= seq!["index"@, "--output"@, ov]);
                Ok(self.simple_plan("scip-java", args))
            },
            Language::Go => {
                let mut args = vec![String::from_str("--output")];
                args.push(out);
                assert(views(args@) =~= seq!["--output"@, ov]);
                Ok(self.simple_plan("scip-go", args))
            },
            Language::Rust => {
                let mut args = vec![String::from_str("scip"), String::from_str("."), String::from_str("--output")];
                args.push(out);
                assert(views(args@) =~= seq!["scip"@, "."@, "--output"@, ov]);
                Ok(self.simple_plan("rust-analyzer", args))
            },
            Language::Ruby => {
                let mut args = vec![String::from_str("--output")];
                args.push(out);
                assert(views(args@) =~= seq!["--output"@, ov]);
                Ok(self.simple_plan("scip-ruby", args))
            },
            Language::Cpp | Language::C => {
                let mut args = vec![String::from_str("--output")];
                args.push(out);
                assert(views(args@) =~= seq!["--output"@, ov]);
                Ok(self.simple_plan("scip-clang", args))
            },
            Language::Php => Err(String::from_str("Indexer for Php not yet implemented")),
            Language::Dart => Err(String::from_str("Indexer for Dart not yet implemented")),
        }
    }

    /// The solution or project file that the C# indexer is pointed at:
    /// the first `.sln` at the root, else the first `.sln` in the first of
    /// the usual source subdirectories that holds one, else the first
    /// `.csproj` at the root. `root` lists the names at the root, and
    /// `subdirs` the names in each directory of `solution_subdirs()`, in
    /// order (empty for one that is missing).
    pub open spec fn spec_dotnet_solution(&self, root: Seq<Seq<char>>, subdirs: Seq<Seq<Seq<char>>>) -> Option<Seq<char>> {
        match first_with_ext(root, "sln"@) {
            Some(n) => Some(spec_join(self.spec_codebase_path(), n)),
            None => match first_subdir_solution(subdirs, 0) {
                Some((k, n)) => Some(spec_join(spec_join(self.spec_codebase_path(), solution_subdirs()[k]), n)),
                None => match first_with_ext(root, "csproj"@) {
                    Some(n) => Some(spec_join(self.spec_codebase_path(), n)),
                    None => None,
                },
            },
        }
    }

    /// Finds the solution or project file that the C# indexer is pointed at.
    pub fn find_dotnet_solution(&self, root: &Vec<String>, subdirs: &Vec<Vec<String>>) -> (r: Option<String>)
        requires
            subdirs@.len() == solution_subdirs().len(),
        ensures
            match r {
                Some(p) => self.spec_dotnet_solution(views(root@), subdir_views(subdirs@)) == Some(p@),
                None => self.spec_dotnet_solution(views(root@), subdir_views(subdirs@)) is None,
            },
    {
        match find_with_ext(root, "sln") {
            Some(i) => {
                return Some(join(self.codebase_path.as_str(), root[i].as_str()));
            },
            None => {},
        }
        let dirs = solution_subdir_names();
        let ghost sv = subdir_views(subdirs@);
        let mut k: usize = 0;
        while k < 4
            invariant
                k <= 4,
                subdirs@.len() == 4,
                dirs@.len() == 4,
                first_with_ext(views(root@), "sln"@) is None,
                sv == subdir_views(subdirs@),
                dirs@.map_values(|s: &str| s@) == solution_subdirs(),
                first_subdir_solution(sv, 0) == first_subdir_solution(sv, k as int),
            decreases 4 - k,
        {
            match find_with_ext(&subdirs[k], "sln") {
                Some(i) => {
                    assert(sv[k as int] == views(subdirs@[k as int]@));
                    assert(dirs@.map_values(|s: &str| s@)[k as int] == dirs@[k as int]@);
                    assert(views(subdirs@[k as int]@)[i as int] == subdirs@[k as int]@[i as int]@);
                    assert(first_subdir_solution(sv, k as int) == Some((k as int, subdirs@[k as int]@[i as int]@)));
                    let dir = join(self.codebase_path.as_str(), dirs[k]);
                    let found = join(dir.as_str(), subdirs[k][i].as_str());
                    assert(dir@ == spec_join(self.spec_codebase_path(), solution_subdirs()[k as int]));
                    assert(first_with_ext(views(root@), "sln"@) is None);
                    assert(first_subdir_solution(subdir_views(subdirs@), 0) == Some((k as int, subdirs@[k as int]@[i as int]@)));
                    return Some(found);
                },
                None => {
                    assert(sv[k as int] == views(subdirs@[k as int]@));
                },
            }
            k = k + 1;
        }
        match find_with_ext(root, "csproj") {
            Some(i) => Some(join(self.codebase_path.as_str(), root[i].as_str())),
            None => None,
        }
    }

}

/// A copy of a list of strings.
fn copy_all(v: &Vec<String>) -> (r: Vec<String>)
    ensures
        r@ == v@,
{
    let mut r: Vec<String> = Vec::new();
    let mut i: usize = 0;
    while i < v.len()
        invariant
            i <= v@.len(),
            r@ == v@.subrange(0, i as int),
        decreases v@.len() - i,
    {
        r.push(v[i].clone());
        assert(r@ =~= v@.subrange(0, i as int + 1));
        i = i + 1;
    }
    assert(v@.subrange(0, v@.len() as int) =~= v@);
    r
}

/// Appends copies of `src` to `dst`.
fn extend_copy(dst: &mut Vec<String>, src: &Vec<String>)
    ensures
        final(dst)@ == old(dst)@ + src@,
{
    let mut i: usize = 0;
    while i < src.len()
        invariant
            i <= src@.len(),
            dst@ == old(dst)@ + src@.subrange(0, i as int),
        decreases src@.len() - i,
    {
        dst.push(src[i].clone());
        assert(dst@ =~= old(dst)@ + src@.subrange(0, i as int + 1));
        i = i + 1;
    }
    assert(src@.subrange(0, src@.len() as int) =~= src@);
}

/// The arguments of the TypeScript indexer; without a root `tsconfig.json`
/// it is asked to infer one, for monorepos.
pub open spec fn typescript_args(out: Seq<char>, has_root_tsconfig: bool) -> Seq<Seq<char>> {
    if has_root_tsconfig {
        seq!["index"@, "--output"@, out]
    } else {
        seq!["index"@, "--output"@, out, "--infer-tsconfig"@]
    }
}

/// The arguments of the .NET indexer, naming the solution or project file
/// where one was found.
pub open spec fn dotnet_args(out: Seq<char>, solution: Option<Seq<char>>) -> Seq<Seq<char>> {
    match solution {
        Some(s) => seq!["index"@, s, "--output"@, out],
        None => seq!["index"@, "--output"@, out],
    }
}

/// Where a .NET indexer installed as a global tool lives, below the home
/// directory.
pub open spec fn dotnet_global_tool(home: Seq<char>) -> Seq<char> {
    spec_join(home, ".dotnet/tools/scip-dotnet"@)
}

/// Whether the language's indexer comes from the TypeScript toolchain.
pub open spec fn uses_node(l: Language) -> bool {
    l == Language::TypeScript || l == Language::JavaScript
}

/// The program and the arguments of a language run through a single
/// indexer; `None` for the node and .NET indexers and for languages without
/// an indexer.
pub open spec fn simple_invocation(l: Language, out: Seq<char>) -> Option<(Seq<char>, Seq<Seq<char>>)> {
    match l {
        Language::Python => Some(("scip-python"@, seq!["index"@, "."@, "--output"@, out])),
        Language::Java | Language::Kotlin | Language::Scala => Some(("scip-java"@, seq!["index"@, "--output"@, out])),
        Language::Go => Some(("scip-go"@, seq!["--output"@, out])),
        Language::Rust => Some(("rust-analyzer"@, seq!["scip"@, "."@, "--output"@, out])),
        Language::Ruby => Some(("scip-ruby"@, seq!["--output"@, out])),
        Language::Cpp | Language::C => Some(("scip-clang"@, seq!["--output"@, out])),
        _ => None,
    }
}

/// Whether no indexer is wired up for the language.
pub open spec fn lacks_indexer(l: Language) -> bool {
    l == Language::Php || l == Language::Dart
}

/// The error for a language without an indexer.
pub open spec fn unimplemented_message(l: Language) -> Seq<char> {
    match l {
        Language::Php => "Indexer for Php not yet implemented"@,
        _ => "Indexer for Dart not yet implemented"@,
    }
}

/// The subdirectories searched, after the root, for a solution file.
pub open spec fn solution_subdirs() -> Seq<Seq<char>> {
    seq!["src"@, "source"@, "Source"@, "Src"@]
}

/// The views of the listings of several directories.
pub open spec fn subdir_views(s: Seq<Vec<String>>) -> Seq<Seq<Seq<char>>> {
    s.map_values(|v: Vec<String>| views(v@))
}

/// The subdirectories searched, after the root, for a solution file.
pub fn solution_subdir_names() -> (r: &'static [&'static str])
    ensures
        r@.map_values(|s: &str| s@) == solution_subdirs(),
{
    let r: &'static [&'static str] = &["src", "source", "Source", "Src"];
    assert(r@.map_values(|s: &str| s@) =~= solution_subdirs());
    r
}

/// The first directory listing, from position `k` on, that holds a `.sln`
/// name: its position and that name.
pub open spec fn first_subdir_solution(subdirs: Seq<Seq<Seq<char>>>, k: int) -> Option<(int, Seq<char>)>
    decreases subdirs.len() - k,
{
    if k < 0 || k >= subdirs.len() {
        None
    } else {
        match first_with_ext(subdirs[k], "sln"@) {
            Some(n) => Some((k, n)),
            None => first_subdir_solution(subdirs, k + 1),
        }
    }
}

/// The first name in `names` with extension `ext`.
pub open spec fn first_with_ext(names: Seq<Seq<char>>, ext: Seq<char>) -> Option<Seq<char>>
    decreases names.len(),
{
    if names.len() == 0 {
        None
    } else if spec_extension(names[0]) == Some(ext) {
        Some(names[0])
    } else {
        first_with_ext(names.drop_first(), ext)
    }
}

/// The first name in `names` with extension `ext`.
fn find_with_ext(names: &Vec<String>, ext: &str) -> (r: Option<usize>)
    ensures
        match r {
            Some(i) => i < names@.len() && first_with_ext(views(names@), ext@) == Some(names@[i as int]@),
            None => first_with_ext(views(names@), ext@) is None,
        },
{
    let mut i: usize = 0;
    assert(views(names@).subrange(0, names@.len() as int) =~= views(names@));
    while i < names.len()
        invariant
            i <= names@.len(),
            first_with_ext(views(names@), ext@) == first_with_ext(views(names@).subrange(i as int, names@.len() as int), ext@),
        decreases names@.len() - i,
    {
        let ghost rest = views(names@).subrange(i as int, names@.len() as int);
        assert(rest.drop_first() =~= views(names@).subrange(i + 1, names@.len() as int));
        assert(rest[0] == names@[i as int]@);
        let hit = match extension_of(names[i].as_str()) {
            Some(e) => crate::text::str_eq(e, ext),
            None => false,
        };
        if hit {
            return Some(i);
        }
        i = i + 1;
    }
    None
}

/// What became of one attempt of a plan.
#[derive(Debug, Clone, PartialEq, Eq)]
pub enum AttemptOutcome {
    /// Its guard did not hold, so it was not run.
    Skipped,
    /// It ran and exited successfully.
    Succeeded,
    /// It ran and failed; the message says how.
    Failed(String),
    /// The program could not be started; the message says why.
    NotStarted(String),
}

/// What follows an attempt.
#[derive(Debug, PartialEq, Eq)]
pub enum RunStep {
    /// Go on with the next attempt of the plan.
    Next,
    /// The run is over, with this outcome.
    Done(Result<(), String>),
}

/// What follows an attempt with this outcome: a skipped attempt, or a
/// failed one that falls through, leads to the next; success ends the run
/// well; any other failure ends it with its message.
pub fn after_attempt(attempt: &Attempt, outcome: AttemptOutcome) -> (r: RunStep)
    ensures
        match outcome {
            AttemptOutcome::Skipped => r == RunStep::Next,
            AttemptOutcome::Succeeded => r == RunStep::Done(Ok(())),
            AttemptOutcome::Failed(m) => if attempt.fall_through {
                r == RunStep::Next
            } else {
                r == RunStep::Done(Err(m))
            },
            AttemptOutcome::NotStarted(m) => r == RunStep::Done(Err(m)),
        },
{
    match outcome {
        AttemptOutcome::Skipped => RunStep::Next,
        AttemptOutcome::Succeeded => RunStep::Done(Ok(())),
        AttemptOutcome::Failed(m) => if attempt.fall_through {
            RunStep::Next
        } else {
            RunStep::Done(Err(m))
        },
        AttemptOutcome::NotStarted(m) => RunStep::Done(Err(m)),
    }
}

/// The outcome of a plan whose attempts all led to the next one.
pub fn plan_exhausted() -> (r: Result<(), String>)
    ensures
        r matches Err(m) && m@ == "no indexer could be started"@,
{
    Err(String::from_str("no indexer could be started"))
}

} // verus!
