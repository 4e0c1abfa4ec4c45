//! Builds that validate a candidate: what is run, what a failure says, and what is kept of
//! the reports of failed tests.

use vstd::prelude::*;
use vstd::string::*;

use crate::edit::BuildSystem;
use crate::error::{failure, outcome, ClewError, ErrorCode, ErrorModel};
use crate::json::{decimal, digits};
use crate::model_input::{between, failed, framed, PathKind};
use crate::order;
use crate::order::{Ordered, Part, PartModel};
use crate::record::Record;
use crate::json::{Json, JsonModel};
use crate::text::{
    chars_of, contains_text, find_from, found, found_from, joined, pieces, same_text, split,
    starts_with, has_prefix, text_of,
};
use crate::words::{
    compact, compacted, ends_with, has_suffix, replace, replaced, shorten, shortened,
};

verus! {

/// The name of a build system, as messages have it.
pub open spec fn system_name(system: BuildSystem) -> Seq<char> {
    match system {
        BuildSystem::Gradle => "Gradle"@,
        BuildSystem::Maven => "Maven"@,
    }
}

fn name_of_system(system: BuildSystem) -> (r: &'static str)
    ensures
        r@ == system_name(system),
{
    match system {
        BuildSystem::Gradle => "Gradle",
        BuildSystem::Maven => "Maven",
    }
}

/// What is run to start a build: a file of the worktree, or a command of the machine.
#[derive(Clone, Copy, Debug, PartialEq, Eq, Structural)]
pub enum Launcher {
    GradleWrapper,
    MavenWrapper,
    MavenCommand,
}

impl DeepView for Launcher {
    type V = Launcher;

    open spec fn deep_view(&self) -> Launcher {
        *self
    }
}

/// The launcher that a policy stands for.
pub open spec fn launcher_for(system: BuildSystem, policy: Seq<char>) -> Result<
    Launcher,
    ErrorModel,
> {
    if system == BuildSystem::Gradle && policy == "./gradlew"@ {
        Ok(Launcher::GradleWrapper)
    } else if system == BuildSystem::Maven && policy == "./mvnw"@ {
        Ok(Launcher::MavenWrapper)
    } else if system == BuildSystem::Maven && policy == "mvn"@ {
        Ok(Launcher::MavenCommand)
    } else {
        failed(
            ErrorCode::UnsupportedProjectConfiguration,
            between("unsupported "@, system_name(system), " build launcher policy "@) + policy,
        )
    }
}

/// The launcher that a policy stands for.
pub fn build_launcher(system: BuildSystem, policy: &str) -> (r: Result<Launcher, ClewError>)
    ensures
        outcome(r) == launcher_for(system, policy@),
{
    match system {
        BuildSystem::Gradle => {
            if same_text(policy, "./gradlew") {
                return Ok(Launcher::GradleWrapper);
            }
        },
        BuildSystem::Maven => {
            if same_text(policy, "./mvnw") {
                return Ok(Launcher::MavenWrapper);
            }
            if same_text(policy, "mvn") {
                return Ok(Launcher::MavenCommand);
            }
        },
    }
    let message = joined(
        framed("unsupported ", name_of_system(system), " build launcher policy ").as_str(),
        policy,
    );
    Err(ClewError::new(ErrorCode::UnsupportedProjectConfiguration, message.as_str()))
}

/// The outcome for a launcher, from its path and whether a file is there. One whose path is
/// not absolute is looked for when it is run.
pub open spec fn launcher_checked(path: Seq<char>, found: bool) -> Result<(), ErrorModel> {
    if has_prefix(path, "/"@) && !found {
        failed(
            ErrorCode::UnsupportedProjectConfiguration,
            "stored build launcher is missing: "@ + path,
        )
    } else {
        Ok(())
    }
}

/// Checks that a launcher is there.
pub fn check_launcher(path: &str, found: bool) -> (r: Result<(), ClewError>)
    ensures
        outcome(r) == launcher_checked(path@, found),
{
    if starts_with(path, "/") && !found {
        let message = joined("stored build launcher is missing: ", path);
        return Err(
            ClewError::new(ErrorCode::UnsupportedProjectConfiguration, message.as_str()),
        );
    }
    Ok(())
}

/// Where a build system keeps its state in a repository.
pub open spec fn state_directory(system: BuildSystem) -> Seq<char> {
    match system {
        BuildSystem::Gradle => ".gradle"@,
        BuildSystem::Maven => ".semantic-thread/maven-repository"@,
    }
}

/// Where a build system keeps its state in a repository.
pub fn build_state_directory(system: BuildSystem) -> (r: &'static str)
    ensures
        r@ == state_directory(system),
{
    match system {
        BuildSystem::Gradle => ".gradle",
        BuildSystem::Maven => ".semantic-thread/maven-repository",
    }
}

/// The refusal of the state of a build.
pub open spec fn state_refused<T>(what: Seq<char>, system: BuildSystem) -> Result<T, ErrorModel> {
    failed(ErrorCode::UnsupportedProjectConfiguration, what + state_directory(system))
}

/// The outcome for the state of a build, from what stands there, whether it is ignored and
/// whether the worktree has one already: whether there is one to copy. Only a directory of
/// its own that the repository does not track may be copied.
pub open spec fn state_checked(
    system: BuildSystem,
    kind: Option<PathKind>,
    ignored: bool,
    taken: bool,
) -> Result<bool, ErrorModel> {
    match kind {
        None => Ok(false),
        Some(kind) => if kind != PathKind::Directory {
            state_refused("repository-owned build state is not a real directory: "@, system)
        } else if !ignored {
            state_refused(
                "repository-owned build state must be ignored before candidate validation: "@,
                system,
            )
        } else if taken {
            state_refused("candidate build-state destination already exists: "@, system)
        } else {
            Ok(true)
        },
    }
}

fn refuse_state(what: &str, system: BuildSystem) -> (r: ClewError)
    ensures
        r.deep_view() == failure(
            ErrorCode::UnsupportedProjectConfiguration,
            what@ + state_directory(system),
        ),
{
    let message = joined(what, build_state_directory(system));
    ClewError::new(ErrorCode::UnsupportedProjectConfiguration, message.as_str())
}

/// Says whether there is a state of a build to copy into a worktree.
pub fn prepare_candidate_repository_state(
    system: BuildSystem,
    kind: Option<PathKind>,
    ignored: bool,
    taken: bool,
) -> (r: Result<bool, ClewError>)
    ensures
        outcome(r) == state_checked(system, kind, ignored, taken),
{
    let kind = match kind {
        Some(kind) => kind,
        None => {
            return Ok(false);
        },
    };
    if kind != PathKind::Directory {
        Err(refuse_state("repository-owned build state is not a real directory: ", system))
    } else if !ignored {
        Err(
            refuse_state(
                "repository-owned build state must be ignored before candidate validation: ",
                system,
            ),
        )
    } else if taken {
        Err(refuse_state("candidate build-state destination already exists: ", system))
    } else {
        Ok(true)
    }
}

/// The outcome for the copy of the state of a build.
pub open spec fn copy_checked(kind: PathKind) -> Result<(), ErrorModel> {
    if kind == PathKind::Directory {
        Ok(())
    } else {
        failed(
            ErrorCode::UnsupportedProjectConfiguration,
            "candidate build-state snapshot is not an isolated directory"@,
        )
    }
}

/// Checks the copy of the state of a build.
pub fn check_state_copy(kind: PathKind) -> (r: Result<(), ClewError>)
    ensures
        outcome(r) == copy_checked(kind),
{
    if kind == PathKind::Directory {
        Ok(())
    } else {
        Err(
            ClewError::new(
                ErrorCode::UnsupportedProjectConfiguration,
                "candidate build-state snapshot is not an isolated directory",
            ),
        )
    }
}

/// How a run of a build ended.
#[derive(Clone, Copy, Debug, PartialEq, Eq, Structural)]
pub struct RunOutcome {
    pub success: bool,
    pub duration_ms: u64,
}

impl DeepView for RunOutcome {
    type V = RunOutcome;

    open spec fn deep_view(&self) -> RunOutcome {
        *self
    }
}

/// What comes next in validating a candidate: a run of the build with some arguments, the
/// times that compiling and testing took, or a failure.
pub enum BuildProgress {
    Run { launcher: Launcher, arguments: Vec<String> },
    Passed { compile_ms: u64, test_ms: u64 },
    Failed { error: ClewError, tests_failed: bool },
}

/// The model of a [`BuildProgress`].
pub enum BuildProgressModel {
    Run { launcher: Launcher, arguments: Seq<Seq<char>> },
    Passed { compile_ms: u64, test_ms: u64 },
    Failed { error: ErrorModel, tests_failed: bool },
}

impl DeepView for BuildProgress {
    type V = BuildProgressModel;

    open spec fn deep_view(&self) -> BuildProgressModel {
        match self {
            BuildProgress::Run { launcher, arguments } => BuildProgressModel::Run {
                launcher: *launcher,
                arguments: arguments.deep_view(),
            },
            BuildProgress::Passed { compile_ms, test_ms } => BuildProgressModel::Passed {
                compile_ms: *compile_ms,
                test_ms: *test_ms,
            },
            BuildProgress::Failed { error, tests_failed } => BuildProgressModel::Failed {
                error: error.deep_view(),
                tests_failed: *tests_failed,
            },
        }
    }
}

/// The texts of a list with a text between each two.
pub open spec fn listed(items: Seq<Seq<char>>, n: nat) -> Seq<char>
    decreases n,
{
    if n == 0 || n > items.len() {
        Seq::empty()
    } else if n == 1 {
        items[0]
    } else {
        listed(items, (n - 1) as nat) + ", "@ + items[n - 1]
    }
}

fn list_texts(items: &Vec<String>) -> (r: String)
    ensures
        r@ == listed(items.deep_view(), items@.len()),
{
    let ghost m = items.deep_view();
    let mut r = String::new();
    let mut i: usize = 0;
    assert(r@ =~= listed(m, 0));
    while i < items.len()
        invariant
            i <= items.len(),
            m == items.deep_view(),
            r@ == listed(m, i as nat),
        decreases items.len() - i,
    {
        assert(m[i as int] == items@[i as int]@);
        let ghost before = r@;
        if i > 0 {
            r.append(", ");
        }
        r.append(items[i].as_str());
        proof {
            if i == 0 {
                assert(before =~= Seq::empty());
                assert(r@ =~= m[0]);
            }
        }
        i = i + 1;
    }
    r
}

/// The arguments of a run that compiles.
pub open spec fn compile_arguments(system: BuildSystem, task: Seq<char>) -> Seq<Seq<char>> {
    match system {
        BuildSystem::Gradle => seq![task, "--no-daemon"@, "--quiet"@],
        BuildSystem::Maven => seq!["-q"@, "-DskipTests"@, task],
    }
}

/// The arguments of a run that tests.
pub open spec fn test_arguments(
    system: BuildSystem,
    tests: Seq<Seq<char>>,
    force: bool,
) -> Seq<Seq<char>> {
    match system {
        BuildSystem::Gradle => if force {
            tests + seq!["--no-daemon"@, "--quiet"@, "--rerun-tasks"@]
        } else {
            tests + seq!["--no-daemon"@, "--quiet"@]
        },
        BuildSystem::Maven => tests + seq!["-q"@],
    }
}

fn arguments_to_compile(system: BuildSystem, task: &str) -> (r: Vec<String>)
    ensures
        r.deep_view() == compile_arguments(system, task@),
{
    let r = match system {
        BuildSystem::Gradle => vec![
            task.to_owned(),
            "--no-daemon".to_owned(),
            "--quiet".to_owned(),
        ],
        BuildSystem::Maven => vec!["-q".to_owned(), "-DskipTests".to_owned(), task.to_owned()],
    };
    assert(r.deep_view() =~= compile_arguments(system, task@));
    r
}

fn arguments_to_test(system: BuildSystem, tests: &Vec<String>, force: bool) -> (r: Vec<String>)
    ensures
        r.deep_view() == test_arguments(system, tests.deep_view(), force),
{
    let ghost start = tests.deep_view();
    let mut r = tests.copied();
    match system {
        BuildSystem::Gradle => {
            r.push("--no-daemon".to_owned());
            r.push("--quiet".to_owned());
            if force {
                r.push("--rerun-tasks".to_owned());
            }
        },
        BuildSystem::Maven => {
            r.push("-q".to_owned());
        },
    }
    assert(r.deep_view() =~= test_arguments(system, start, force));
    r
}

/// An error with more to rest on.
pub open spec fn with_evidence(e: ErrorModel, evidence: Seq<Seq<char>>) -> ErrorModel {
    ErrorModel { evidence, ..e }
}

/// The line that says how long something took.
pub open spec fn took(what: Seq<char>, ms: u64) -> Seq<char> {
    what + digits(ms as nat)
}

/// What validating a candidate comes to after some runs. Maven compiles with its tests;
/// otherwise compiling comes first.
pub open spec fn build_progress(
    system: BuildSystem,
    launcher: Launcher,
    compile_task: Seq<char>,
    tests: Seq<Seq<char>>,
    force: bool,
    runs: Seq<RunOutcome>,
) -> BuildProgressModel {
    if system == BuildSystem::Maven && tests.len() > 0 {
        if runs.len() == 0 {
            BuildProgressModel::Run { launcher, arguments: test_arguments(system, tests, false) }
        } else if runs[0].success {
            BuildProgressModel::Passed { compile_ms: 0, test_ms: runs[0].duration_ms }
        } else {
            BuildProgressModel::Failed {
                error: with_evidence(
                    failure(
                        ErrorCode::TestFailed,
                        between(
                            "candidate worktree "@,
                            system_name(system),
                            " test lifecycle "@,
                        ) + listed(tests, tests.len()) + " failed"@,
                    ),
                    seq![
                        "buildCompileCoveredByTestLifecycle=true"@,
                        took("buildTestDurationMs="@, runs[0].duration_ms),
                    ],
                ),
                tests_failed: true,
            }
        }
    } else if runs.len() == 0 {
        BuildProgressModel::Run { launcher, arguments: compile_arguments(system, compile_task) }
    } else if !runs[0].success {
        BuildProgressModel::Failed {
            error: with_evidence(
                failure(
                    ErrorCode::CompileFailed,
                    between("candidate worktree "@, system_name(system), " compile task "@)
                        + compile_task + " failed"@,
                ),
                seq![took("buildCompileDurationMs="@, runs[0].duration_ms)],
            ),
            tests_failed: false,
        }
    } else if tests.len() == 0 {
        BuildProgressModel::Passed { compile_ms: runs[0].duration_ms, test_ms: 0 }
    } else if runs.len() == 1 {
        BuildProgressModel::Run { launcher, arguments: test_arguments(system, tests, force) }
    } else if runs[1].success {
        BuildProgressModel::Passed {
            compile_ms: runs[0].duration_ms,
            test_ms: runs[1].duration_ms,
        }
    } else {
        BuildProgressModel::Failed {
            error: with_evidence(
                failure(
                    ErrorCode::TestFailed,
                    between("candidate worktree "@, system_name(system), " test tasks "@) + listed(
                        tests,
                        tests.len(),
                    ) + " failed"@,
                ),
                seq![
                    took("buildCompileDurationMs="@, runs[0].duration_ms),
                    took("buildTestDurationMs="@, runs[1].duration_ms),
                ],
            ),
            tests_failed: true,
        }
    }
}

fn said_ms(what: &str, ms: u64) -> (r: String)
    ensures
        r@ == took(what@, ms),
{
    joined(what, decimal(ms).as_str())
}

fn failed_run(code: ErrorCode, head: &str, system: BuildSystem, middle: &str, what: &str) -> (r:
    ClewError)
    ensures
        r.deep_view() == failure(
            code,
            between(head@, system_name(system), middle@) + what@ + " failed"@,
        ),
{
    let message = joined(
        joined(framed(head, name_of_system(system), middle).as_str(), what).as_str(),
        " failed",
    );
    ClewError::new(code, message.as_str())
}

/// Says what comes next in validating a candidate, after some runs of its build.
pub fn validate_worktree_with_options(
    system: BuildSystem,
    launcher: Launcher,
    compile_task: &str,
    tests: &Vec<String>,
    force: bool,
    runs: &Vec<RunOutcome>,
) -> (r: BuildProgress)
    ensures
        r.deep_view() == build_progress(
            system,
            launcher,
            compile_task@,
            tests.deep_view(),
            force,
            runs@,
        ),
{
    if system == BuildSystem::Maven && tests.len() > 0 {
        if runs.len() == 0 {
            return BuildProgress::Run {
                launcher,
                arguments: arguments_to_test(system, tests, false),
            };
        }
        if runs[0].success {
            return BuildProgress::Passed { compile_ms: 0, test_ms: runs[0].duration_ms };
        }
        let mut error = failed_run(
            ErrorCode::TestFailed,
            "candidate worktree ",
            system,
            " test lifecycle ",
            list_texts(tests).as_str(),
        );
        error.evidence = vec![
            "buildCompileCoveredByTestLifecycle=true".to_owned(),
            said_ms("buildTestDurationMs=", runs[0].duration_ms),
        ];
        assert(error.evidence.deep_view() =~= seq![
            "buildCompileCoveredByTestLifecycle=true"@,
            took("buildTestDurationMs="@, runs@[0].duration_ms),
        ]);
        return BuildProgress::Failed { error, tests_failed: true };
    }
    if runs.len() == 0 {
        return BuildProgress::Run {
            launcher,
            arguments: arguments_to_compile(system, compile_task),
        };
    }
    if !runs[0].success {
        let mut error = failed_run(
            ErrorCode::CompileFailed,
            "candidate worktree ",
            system,
            " compile task ",
            compile_task,
        );
        error.evidence = vec![said_ms("buildCompileDurationMs=", runs[0].duration_ms)];
        assert(error.evidence.deep_view() =~= seq![
            took("buildCompileDurationMs="@, runs@[0].duration_ms),
        ]);
        return BuildProgress::Failed { error, tests_failed: false };
    }
    if tests.len() == 0 {
        return BuildProgress::Passed { compile_ms: runs[0].duration_ms, test_ms: 0 };
    }
    if runs.len() == 1 {
        return BuildProgress::Run {
            launcher,
            arguments: arguments_to_test(system, tests, force),
        };
    }
    if runs[1].success {
        return BuildProgress::Passed {
            compile_ms: runs[0].duration_ms,
            test_ms: runs[1].duration_ms,
        };
    }
    let mut error = failed_run(
        ErrorCode::TestFailed,
        "candidate worktree ",
        system,
        " test tasks ",
        list_texts(tests).as_str(),
    );
    error.evidence = vec![
        said_ms("buildCompileDurationMs=", runs[0].duration_ms),
        said_ms("buildTestDurationMs=", runs[1].duration_ms),
    ];
    assert(error.evidence.deep_view() =~= seq![
        took("buildCompileDurationMs="@, runs@[0].duration_ms),
        took("buildTestDurationMs="@, runs@[1].duration_ms),
    ]);
    BuildProgress::Failed { error, tests_failed: true }
}

/// Says what comes next in validating a candidate by a policy, after some runs of its
/// build.
pub fn validate_worktree(
    system: BuildSystem,
    policy: &str,
    compile_task: &str,
    tests: &Vec<String>,
    runs: &Vec<RunOutcome>,
) -> (r: Result<BuildProgress, ClewError>)
    ensures
        outcome(r) == (match launcher_for(system, policy@) {
            Err(e) => Err(e),
            Ok(launcher) => Ok(
                build_progress(
                    system,
                    launcher,
                    compile_task@,
                    tests.deep_view(),
                    false,
                    runs@,
                ),
            ),
        }),
{
    let launcher = build_launcher(system, policy)?;
    Ok(validate_worktree_with_options(system, launcher, compile_task, tests, false, runs))
}

/// Says what comes next in validating a candidate by a policy where tests that passed
/// before are run again, after some runs of its build.
pub fn validate_worktree_fresh(
    system: BuildSystem,
    policy: &str,
    compile_task: &str,
    tests: &Vec<String>,
    runs: &Vec<RunOutcome>,
) -> (r: Result<BuildProgress, ClewError>)
    ensures
        outcome(r) == (match launcher_for(system, policy@) {
            Err(e) => Err(e),
            Ok(launcher) => Ok(
                build_progress(
                    system,
                    launcher,
                    compile_task@,
                    tests.deep_view(),
                    true,
                    runs@,
                ),
            ),
        }),
{
    let launcher = build_launcher(system, policy)?;
    Ok(validate_worktree_with_options(system, launcher, compile_task, tests, true, runs))
}

/// What is run to observe selected tests.
pub open spec fn lifecycle_planned(
    system: BuildSystem,
    policy: Seq<char>,
    tests: Seq<Seq<char>>,
) -> Result<(Launcher, Seq<Seq<char>>), ErrorModel> {
    if tests.len() == 0 {
        failed(ErrorCode::InvalidInput, "exact differential test lifecycle is empty"@)
    } else {
        match launcher_for(system, policy) {
            Err(e) => Err(e),
            Ok(launcher) => Ok((launcher, test_arguments(system, tests, true))),
        }
    }
}

/// Plans the run of selected tests, whose failing is an observation and no error.
pub fn plan_test_lifecycle(system: BuildSystem, policy: &str, tests: &Vec<String>) -> (r: Result<
    (Launcher, Vec<String>),
    ClewError,
>)
    ensures
        outcome(r) == lifecycle_planned(system, policy@, tests.deep_view()),
{
    if tests.len() == 0 {
        return Err(
            ClewError::new(
                ErrorCode::InvalidInput,
                "exact differential test lifecycle is empty",
            ),
        );
    }
    let launcher = build_launcher(system, policy)?;
    Ok((launcher, arguments_to_test(system, tests, true)))
}

/// Validating a candidate takes two runs at most: after two it has passed or failed, and
/// it has passed only where every run that was made succeeded.
pub proof fn validation_ends(
    system: BuildSystem,
    launcher: Launcher,
    compile_task: Seq<char>,
    tests: Seq<Seq<char>>,
    force: bool,
    runs: Seq<RunOutcome>,
)
    ensures
        runs.len() >= 2 ==> !(build_progress(
            system,
            launcher,
            compile_task,
            tests,
            force,
            runs,
        ) is Run),
        build_progress(system, launcher, compile_task, tests, force, runs) is Passed
            ==> runs.len() > 0 && runs[0].success && (system == BuildSystem::Gradle && tests.len()
            > 0 ==> runs.len() > 1 && runs[1].success),
{
}

/// A path with a part behind it. A part that is absolute stands in the place of the path.
pub open spec fn pushed(path: Seq<char>, part: Seq<char>) -> Seq<char> {
    if has_prefix(part, "/"@) {
        part
    } else if path.len() > 0 && path.last() != '/' {
        path + "/"@ + part
    } else {
        path + part
    }
}

fn push_part(path: &str, part: &str) -> (r: String)
    ensures
        r@ == pushed(path@, part@),
{
    if starts_with(part, "/") {
        return part.to_owned();
    }
    let size: usize = path.unicode_len();
    if size > 0 && path.get_char(size - 1) != '/' {
        framed(path, "/", part)
    } else {
        joined(path, part)
    }
}

/// The path that some parts make behind a path.
pub open spec fn path_of(path: Seq<char>, parts: Seq<Seq<char>>) -> Seq<char>
    decreases parts.len(),
{
    if parts.len() == 0 {
        path
    } else {
        pushed(path_of(path, parts.drop_last()), parts.last())
    }
}

fn join_path(path: &str, parts: &Vec<String>) -> (r: String)
    ensures
        r@ == path_of(path@, parts.deep_view()),
{
    let ghost m = parts.deep_view();
    let mut r = path.to_owned();
    let mut i: usize = 0;
    assert(m.take(0) =~= Seq::empty());
    while i < parts.len()
        invariant
            i <= parts.len(),
            m == parts.deep_view(),
            r@ == path_of(path@, m.take(i as int)),
        decreases parts.len() - i,
    {
        assert(m[i as int] == parts@[i as int]@);
        assert(m.take(i as int + 1).drop_last() =~= m.take(i as int));
        assert(m.take(i as int + 1).last() == m[i as int]);
        r = push_part(r.as_str(), parts[i].as_str());
        i = i + 1;
    }
    assert(m.take(m.len() as int) =~= m);
    r
}

/// What paths are compared by at a piece of a path: a step up comes before every name. A
/// piece that names nothing is left out, as is one that stays where it is, but at the start
/// of a relative path.
pub open spec fn piece_part(piece: Seq<char>, first: bool) -> Option<PartModel> {
    if piece.len() == 0 {
        None
    } else if piece == "."@ {
        if first {
            Some(PartModel::Num(1))
        } else {
            None
        }
    } else if piece == ".."@ {
        Some(PartModel::Num(2))
    } else {
        Some(PartModel::Text(piece))
    }
}

/// What the first `n` pieces of a path are compared by.
pub open spec fn piece_parts(path_pieces: Seq<Seq<char>>, n: nat) -> Seq<PartModel>
    decreases n,
{
    if n == 0 || n > path_pieces.len() {
        Seq::empty()
    } else {
        let before = piece_parts(path_pieces, (n - 1) as nat);
        match piece_part(path_pieces[n - 1], n == 1) {
            Some(part) => before.push(part),
            None => before,
        }
    }
}

/// What paths are compared by: the root, and then what stands between the slashes.
pub open spec fn path_parts(path: Seq<char>) -> Seq<PartModel> {
    let parts = piece_parts(pieces(path, '/'), pieces(path, '/').len());
    if has_prefix(path, "/"@) {
        seq![PartModel::Num(0)] + parts
    } else {
        parts
    }
}

/// A directory of reports. Paths that are the same part for part are one directory.
#[derive(Debug, PartialEq, Eq)]
pub struct ReportRoot {
    pub path: String,
}

/// The model of a [`ReportRoot`].
pub struct ReportRootModel {
    pub path: Seq<char>,
}

impl DeepView for ReportRoot {
    type V = ReportRootModel;

    open spec fn deep_view(&self) -> ReportRootModel {
        ReportRootModel { path: self.path@ }
    }
}

impl Record for ReportRoot {
    open spec fn json(v: ReportRootModel) -> JsonModel {
        JsonModel::Str(v.path)
    }

    fn copied(&self) -> (r: ReportRoot) {
        ReportRoot { path: self.path.clone() }
    }

    fn same_as(&self, other: &ReportRoot) -> (r: bool) {
        same_text(self.path.as_str(), other.path.as_str())
    }

    fn to_json(&self) -> (r: Json) {
        Json::Str(self.path.clone())
    }
}

fn part_of_piece(piece: &String, first: bool) -> (r: Option<Part>)
    ensures
        r.deep_view() == piece_part(piece@, first),
{
    if piece.as_str().unicode_len() == 0 {
        None
    } else if same_text(piece.as_str(), ".") {
        if first {
            Some(Part::Num(1))
        } else {
            None
        }
    } else if same_text(piece.as_str(), "..") {
        Some(Part::Num(2))
    } else {
        Some(Part::Text(piece.clone()))
    }
}

impl Ordered for ReportRoot {
    open spec fn parts(v: ReportRootModel) -> Seq<PartModel> {
        path_parts(v.path)
    }

    fn to_parts(&self) -> (r: Vec<Part>) {
        let path_pieces = split(self.path.as_str(), '/');
        let ghost m = pieces(self.path@, '/');
        let mut r: Vec<Part> = Vec::new();
        let ghost mut start: Seq<PartModel> = Seq::empty();
        if starts_with(self.path.as_str(), "/") {
            r.push(Part::Num(0));
            proof {
                start = seq![PartModel::Num(0)];
            }
        }
        assert(r.deep_view() =~= start + piece_parts(m, 0));
        let mut i: usize = 0;
        while i < path_pieces.len()
            invariant
                i <= path_pieces.len(),
                m == path_pieces.deep_view(),
                r.deep_view() == start + piece_parts(m, i as nat),
            decreases path_pieces.len() - i,
        {
            assert(m[i as int] == path_pieces@[i as int]@);
            let ghost before = r.deep_view();
            match part_of_piece(&path_pieces[i], i == 0) {
                Some(part) => {
                    let ghost added = part.deep_view();
                    r.push(part);
                    assert(r.deep_view() =~= before.push(added));
                    assert(r.deep_view() =~= start + piece_parts(m, i as nat).push(added));
                },
                None => {},
            }
            i = i + 1;
        }
        assert(Seq::<PartModel>::empty() + piece_parts(m, m.len()) =~= piece_parts(m, m.len()));
        r
    }
}

/// The lower case of a letter of ASCII, and any other character as it is.
pub open spec fn ascii_lower(c: char) -> char {
    if 'A' <= c <= 'Z' {
        ((c as u32) + 32) as char
    } else {
        c
    }
}

/// A text with the letters of ASCII in lower case.
pub open spec fn lowered(s: Seq<char>) -> Seq<char> {
    Seq::new(s.len(), |i: int| ascii_lower(s[i]))
}

fn lower_ascii(s: &str) -> (r: String)
    ensures
        r@ == lowered(s@),
{
    let v = chars_of(s);
    let mut done: Vec<char> = Vec::new();
    let mut i: usize = 0;
    while i < v.len()
        invariant
            i <= v.len(),
            v@ == s@,
            done@ =~= Seq::new(i as nat, |k: int| ascii_lower(s@[k])),
        decreases v.len() - i,
    {
        let c = v[i];
        let low: char = if 'A' <= c && c <= 'Z' {
            let n: u8 = c as u8;
            (n + 32) as char
        } else {
            c
        };
        done.push(low);
        i = i + 1;
    }
    assert(done@ =~= lowered(s@));
    text_of(done.as_slice())
}

/// The parts of a task that are not empty.
pub open spec fn task_parts(argument: Seq<char>) -> Seq<Seq<char>> {
    pieces(argument, ':').filter(|part: Seq<char>| part.len() > 0)
}

/// Where the reports of a task of Gradle are, where it is one that tests.
pub open spec fn gradle_root(worktree: Seq<char>, argument: Seq<char>) -> Option<ReportRootModel> {
    let parts = task_parts(argument);
    if has_prefix(argument, "-"@) || parts.len() == 0 {
        None
    } else {
        let task = parts.last();
        if found(lowered(task), "test"@) is None || lowered(task) == "cleantest"@ {
            None
        } else {
            Some(
                ReportRootModel {
                    path: pushed(
                        pushed(path_of(worktree, parts.drop_last()), "build/test-results"@),
                        task,
                    ),
                },
            )
        }
    }
}

/// Where the reports of tasks of Gradle from one on are, in their order, with others.
pub open spec fn gradle_roots(
    worktree: Seq<char>,
    roots: Seq<ReportRootModel>,
    tests: Seq<Seq<char>>,
    i: int,
) -> Seq<ReportRootModel>
    decreases tests.len() - i,
{
    if i < 0 || i >= tests.len() {
        roots
    } else {
        match gradle_root(worktree, tests[i]) {
            None => gradle_roots(worktree, roots, tests, i + 1),
            Some(root) => gradle_roots(
                worktree,
                order::entered::<ReportRoot>(roots, root),
                tests,
                i + 1,
            ),
        }
    }
}

/// Where the reports of tests are, in the order of their paths.
pub open spec fn report_roots_of(
    worktree: Seq<char>,
    system: BuildSystem,
    tests: Seq<Seq<char>>,
) -> Seq<ReportRootModel> {
    match system {
        BuildSystem::Gradle => gradle_roots(worktree, Seq::empty(), tests, 0),
        BuildSystem::Maven => seq![
            ReportRootModel { path: pushed(worktree, "target/failsafe-reports"@) },
            ReportRootModel { path: pushed(worktree, "target/surefire-reports"@) },
        ],
    }
}

fn nonempty(parts: &Vec<String>) -> (r: Vec<String>)
    ensures
        r.deep_view() == parts.deep_view().filter(|part: Seq<char>| part.len() > 0),
{
    let ghost m = parts.deep_view();
    let ghost wanted = |part: Seq<char>| part.len() > 0;
    let mut r: Vec<String> = Vec::new();
    let mut i: usize = 0;
    proof {
        reveal(Seq::filter);
    }
    assert(r.deep_view() =~= m.take(0).filter(wanted));
    while i < parts.len()
        invariant
            i <= parts.len(),
            m == parts.deep_view(),
            wanted == (|part: Seq<char>| part.len() > 0),
            r.deep_view() == m.take(i as int).filter(wanted),
        decreases parts.len() - i,
    {
        assert(m[i as int] == parts@[i as int]@);
        assert(m.take(i as int + 1).drop_last() =~= m.take(i as int));
        proof {
            reveal(Seq::filter);
        }
        if parts[i].as_str().unicode_len() > 0 {
            let ghost before = r.deep_view();
            r.push(parts[i].clone());
            assert(r.deep_view() =~= before.push(m[i as int]));
        }
        i = i + 1;
    }
    assert(m.take(m.len() as int) =~= m);
    r
}

fn root_of_task(worktree: &str, argument: &str) -> (r: Option<ReportRoot>)
    ensures
        r.deep_view() == gradle_root(worktree@, argument@),
{
    if starts_with(argument, "-") {
        return None;
    }
    let mut components = nonempty(&split(argument, ':'));
    let ghost parts = components.deep_view();
    if components.len() == 0 {
        return None;
    }
    let last: usize = components.len() - 1;
    let task = components[last].clone();
    assert(parts.last() == task@);
    let lower = lower_ascii(task.as_str());
    if !contains_text(lower.as_str(), "test") || same_text(lower.as_str(), "cleantest") {
        return None;
    }
    components.pop();
    assert(components.deep_view() =~= parts.drop_last());
    let project = join_path(worktree, &components);
    let results = push_part(project.as_str(), "build/test-results");
    Some(ReportRoot { path: push_part(results.as_str(), task.as_str()) })
}

/// Says where the reports of tests are.
pub fn report_roots(worktree: &str, system: BuildSystem, tests: &Vec<String>) -> (r: Vec<ReportRoot>)
    ensures
        r.deep_view() == report_roots_of(worktree@, system, tests.deep_view()),
{
    match system {
        BuildSystem::Gradle => {
            let ghost m = tests.deep_view();
            let mut roots: Vec<ReportRoot> = Vec::new();
            let mut i: usize = 0;
            assert(roots.deep_view() =~= Seq::empty());
            while i < tests.len()
                invariant
                    i <= tests.len(),
                    m == tests.deep_view(),
                    gradle_roots(worktree@, Seq::empty(), m, 0) == gradle_roots(
                        worktree@,
                        roots.deep_view(),
                        m,
                        i as int,
                    ),
                decreases tests.len() - i,
            {
                assert(m[i as int] == tests@[i as int]@);
                match root_of_task(worktree, tests[i].as_str()) {
                    Some(root) => {
                        order::enter(&mut roots, root);
                    },
                    None => {},
                }
                i = i + 1;
            }
            roots
        },
        BuildSystem::Maven => {
            let failsafe = ReportRoot { path: push_part(worktree, "target/failsafe-reports") };
            let surefire = ReportRoot { path: push_part(worktree, "target/surefire-reports") };
            let roots = vec![failsafe, surefire];
            assert(roots.deep_view() =~= report_roots_of(worktree@, system, tests.deep_view()));
            roots
        },
    }
}

/// Whether what stands in a directory of reports is a report that is read: a file of XML,
/// no link, and not too large.
pub open spec fn is_report(kind: PathKind, size: u64, name: Seq<char>) -> bool {
    kind == PathKind::File && size <= 2097152 && has_suffix(name, ".xml"@) && name.len() > 4
}

/// Whether what stands in a directory of reports is a report that is read.
pub fn readable_report(kind: PathKind, size: u64, name: &str) -> (r: bool)
    ensures
        r == is_report(kind, size, name@),
{
    kind == PathKind::File && size <= 2097152 && ends_with(name, ".xml") && name.unicode_len() > 4
}

/// The value of an attribute of a tag.
pub open spec fn attribute_of(tag: Seq<char>, name: Seq<char>) -> Option<Seq<char>> {
    let needle = name + "=\""@;
    match found(tag, needle) {
        None => None,
        Some(k) => {
            let start = k + needle.len();
            match found_from(tag, "\""@, start) {
                None => None,
                Some(end) => Some(tag.subrange(start, end)),
            }
        },
    }
}

fn between_places(v: &Vec<char>, start: usize, end: usize) -> (r: String)
    requires
        start <= end <= v@.len(),
    ensures
        r@ == v@.subrange(start as int, end as int),
{
    let r = text_of(vstd::slice::slice_subrange(v.as_slice(), start, end));
    assert(r@ =~= v@.subrange(start as int, end as int));
    r
}

fn place_of(v: &Vec<char>, p: &str, start: usize) -> (r: Option<usize>)
    ensures
        match r {
            Some(k) => found_from(v@, p@, start as int) == Some(k as int) && start <= k && k
                + p@.len() <= v.len(),
            None => found_from(v@, p@, start as int) is None,
        },
{
    let pattern = chars_of(p);
    find_from(v.as_slice(), pattern.as_slice(), start)
}

/// The value of an attribute of a tag.
pub fn xml_attribute_value(tag: &str, name: &str) -> (r: Option<String>)
    ensures
        r.deep_view() == attribute_of(tag@, name@),
{
    let needle = joined(name, "=\"");
    let v = chars_of(tag);
    let size: usize = needle.as_str().unicode_len();
    match place_of(&v, needle.as_str(), 0) {
        None => None,
        Some(k) => {
            let start: usize = k + size;
            match place_of(&v, "\"", start) {
                None => None,
                Some(end) => Some(between_places(&v, start, end)),
            }
        },
    }
}

/// A text, or another one.
pub open spec fn text_or(value: Option<Seq<char>>, other: Seq<char>) -> Seq<char> {
    match value {
        Some(text) => text,
        None => other,
    }
}

fn or_text(value: Option<String>, other: &str) -> (r: String)
    ensures
        r@ == text_or(value.deep_view(), other@),
{
    match value {
        Some(text) => text,
        None => other.to_owned(),
    }
}

/// What is kept of a failure: without the path of the worktree and the marks of XML, its
/// words with one space between, and no longer than a bound.
pub open spec fn summary_sanitized(summary: Seq<char>, worktree: Seq<char>) -> Seq<char> {
    let s = replaced(summary, worktree, "<worktree>"@);
    let s = replaced(s, "&quot;"@, "\""@);
    let s = replaced(s, "&lt;"@, "<"@);
    let s = replaced(s, "&gt;"@, ">"@);
    let s = replaced(s, "&amp;"@, "&"@);
    shortened(compacted(s), 768)
}

/// Keeps of a failure what may be kept.
pub fn sanitize_test_failure_summary(summary: &str, worktree: &str) -> (r: String)
    ensures
        r@ == summary_sanitized(summary@, worktree@),
{
    let s = replace(summary, worktree, "<worktree>");
    let s = replace(s.as_str(), "&quot;", "\"");
    let s = replace(s.as_str(), "&lt;", "<");
    let s = replace(s.as_str(), "&gt;", ">");
    let s = replace(s.as_str(), "&amp;", "&");
    shorten(compact(s.as_str()).as_str(), 768)
}

/// The place in the body of a test case where it says that it failed.
pub open spec fn failure_place(body: Seq<char>) -> Option<int> {
    match found(body, "<failure"@) {
        Some(k) => Some(k),
        None => found(body, "<error"@),
    }
}

/// What is kept of a test case, from its tag and its body, where it failed.
pub open spec fn case_failure(tag: Seq<char>, body: Seq<char>, worktree: Seq<char>) -> Option<
    Seq<char>,
> {
    match failure_place(body) {
        None => None,
        Some(k) => match found_from(body, ">"@, k) {
            None => None,
            Some(end) => {
                let mark = body.subrange(k, end + 1);
                Some(
                    summary_sanitized(
                        "testFailure="@ + text_or(attribute_of(tag, "classname"@), "unknown"@)
                            + "#"@ + text_or(attribute_of(tag, "name"@), "unknown"@) + ":"@
                            + text_or(attribute_of(mark, "type"@), "unknown"@) + ":"@ + text_or(
                            attribute_of(mark, "message"@),
                            "no message"@,
                        ),
                        worktree,
                    ),
                )
            },
        },
    }
}

fn failure_of_case(tag: &str, body: &str, worktree: &str) -> (r: Option<String>)
    ensures
        r.deep_view() == case_failure(tag@, body@, worktree@),
{
    proof {
        reveal_strlit(">");
    }
    let v = chars_of(body);
    let start: usize = match place_of(&v, "<failure", 0) {
        Some(k) => k,
        None => match place_of(&v, "<error", 0) {
            Some(k) => k,
            None => {
                return None;
            },
        },
    };
    let end: usize = match place_of(&v, ">", start) {
        Some(end) => end,
        None => {
            return None;
        },
    };
    let mark = between_places(&v, start, end + 1);
    let mut summary = "testFailure=".to_owned();
    summary.append(or_text(xml_attribute_value(tag, "classname"), "unknown").as_str());
    summary.append("#");
    summary.append(or_text(xml_attribute_value(tag, "name"), "unknown").as_str());
    summary.append(":");
    summary.append(or_text(xml_attribute_value(mark.as_str(), "type"), "unknown").as_str());
    summary.append(":");
    summary.append(
        or_text(xml_attribute_value(mark.as_str(), "message"), "no message").as_str(),
    );
    Some(sanitize_test_failure_summary(summary.as_str(), worktree))
}

/// What is kept of the test cases of a report from a place on, behind some: of the first
/// four that failed.
pub open spec fn report_failures(
    text: Seq<char>,
    worktree: Seq<char>,
    before: Seq<Seq<char>>,
    cursor: int,
) -> Seq<Seq<char>>
    decreases text.len() - cursor,
{
    if before.len() >= 4 {
        before
    } else {
        match found_from(text, "<testcase"@, cursor) {
            None => before,
            Some(start) => match found_from(text, ">"@, start) {
                None => before,
                Some(end) => {
                    let tag_end = end + 1;
                    if tag_end <= cursor || tag_end > text.len() {
                        before
                    } else {
                        match found_from(text, "</testcase>"@, tag_end) {
                            None => report_failures(text, worktree, before, tag_end),
                            Some(close) => {
                                let next = close + "</testcase>"@.len();
                                if next <= cursor || next > text.len() {
                                    before
                                } else {
                                    report_failures(
                                        text,
                                        worktree,
                                        match case_failure(
                                            text.subrange(start, tag_end),
                                            text.subrange(tag_end, close),
                                            worktree,
                                        ) {
                                            Some(kept) => before.push(kept),
                                            None => before,
                                        },
                                        next,
                                    )
                                }
                            },
                        }
                    }
                },
            },
        }
    }
}

/// Keeps of a report the first failures, up to four.
pub fn junit_failure_evidence(text: &str, worktree: &str) -> (r: Vec<String>)
    ensures
        r.deep_view() == report_failures(text@, worktree@, Seq::empty(), 0),
{
    proof {
        reveal_strlit("<testcase");
        reveal_strlit(">");
        reveal_strlit("</testcase>");
    }
    let v = chars_of(text);
    let ghost w = worktree@;
    let mut evidence: Vec<String> = Vec::new();
    let mut cursor: usize = 0;
    assert(evidence.deep_view() =~= Seq::empty());
    while evidence.len() < 4
        invariant
            v@ == text@,
            w == worktree@,
            cursor <= v@.len(),
            "<testcase"@.len() == 9,
            ">"@.len() == 1,
            "</testcase>"@.len() == 11,
            report_failures(v@, w, Seq::empty(), 0) == report_failures(
                v@,
                w,
                evidence.deep_view(),
                cursor as int,
            ),
        decreases v@.len() - cursor,
    {
        let start: usize = match place_of(&v, "<testcase", cursor) {
            Some(start) => start,
            None => {
                return evidence;
            },
        };
        let end: usize = match place_of(&v, ">", start) {
            Some(end) => end,
            None => {
                return evidence;
            },
        };
        let tag_end: usize = end + 1;
        match place_of(&v, "</testcase>", tag_end) {
            None => {
                cursor = tag_end;
            },
            Some(close) => {
                let tag = between_places(&v, start, tag_end);
                let body = between_places(&v, tag_end, close);
                match failure_of_case(tag.as_str(), body.as_str(), worktree) {
                    Some(kept) => {
                        let ghost before = evidence.deep_view();
                        evidence.push(kept);
                        assert(evidence.deep_view() =~= before.push(kept@));
                    },
                    None => {},
                }
                cursor = close + 11;
            },
        }
    }
    evidence
}

/// What is kept of reports from one on, behind some: four failures in all.
pub open spec fn reports_kept(
    texts: Seq<Seq<char>>,
    worktree: Seq<char>,
    before: Seq<Seq<char>>,
    i: int,
) -> Seq<Seq<char>>
    decreases texts.len() - i,
{
    if i < 0 || i >= texts.len() || before.len() >= 4 {
        before
    } else {
        let all = before + report_failures(texts[i], worktree, Seq::empty(), 0);
        reports_kept(
            texts,
            worktree,
            if all.len() > 4 {
                all.take(4)
            } else {
                all
            },
            i + 1,
        )
    }
}

/// Keeps of some reports the first failures, up to four.
pub fn bounded_test_failure_evidence(texts: &Vec<String>, worktree: &str) -> (r: Vec<String>)
    ensures
        r.deep_view() == reports_kept(texts.deep_view(), worktree@, Seq::empty(), 0),
{
    let ghost m = texts.deep_view();
    let ghost w = worktree@;
    let mut kept: Vec<String> = Vec::new();
    let mut i: usize = 0;
    assert(kept.deep_view() =~= Seq::empty());
    while i < texts.len() && kept.len() < 4
        invariant
            i <= texts.len(),
            m == texts.deep_view(),
            w == worktree@,
            reports_kept(m, w, Seq::empty(), 0) == reports_kept(
                m,
                w,
                kept.deep_view(),
                i as int,
            ),
        decreases texts.len() - i,
    {
        assert(m[i as int] == texts@[i as int]@);
        let ghost before = kept.deep_view();
        let mut more = junit_failure_evidence(texts[i].as_str(), worktree);
        let ghost found_now = more.deep_view();
        kept.append(&mut more);
        assert(kept.deep_view() =~= before + found_now);
        if kept.len() > 4 {
            kept.truncate(4);
            assert(kept.deep_view() =~= (before + found_now).take(4));
        }
        i = i + 1;
    }
    kept
}

/// Adds to an error what is kept of the reports of its tests.
pub fn append_test_failure_evidence(error: &mut ClewError, texts: &Vec<String>, worktree: &str)
    ensures
        final(error).deep_view() == with_evidence(
            old(error).deep_view(),
            old(error).deep_view().evidence + reports_kept(
                texts.deep_view(),
                worktree@,
                Seq::empty(),
                0,
            ),
        ),
{
    let ghost before = error.evidence.deep_view();
    let mut kept = bounded_test_failure_evidence(texts, worktree);
    let ghost added = kept.deep_view();
    error.evidence.append(&mut kept);
    assert(error.evidence.deep_view() =~= before + added);
}

/// What is kept of reports is four failures at most, none longer than the bound.
pub proof fn kept_failures_are_bounded(texts: Seq<Seq<char>>, worktree: Seq<char>)
    ensures
        reports_kept(texts, worktree, Seq::empty(), 0).len() <= 4,
        forall|k: int|
            0 <= k < reports_kept(texts, worktree, Seq::empty(), 0).len() ==> (
            #[trigger] reports_kept(texts, worktree, Seq::empty(), 0)[k]).len() <= 768,
{
    kept_stay_bounded(texts, worktree, Seq::empty(), 0);
}

/// Whether some texts are few and short.
pub open spec fn are_bounded(s: Seq<Seq<char>>) -> bool {
    s.len() <= 4 && forall|k: int| 0 <= k < s.len() ==> (#[trigger] s[k]).len() <= 768
}

proof fn report_stays_bounded(
    text: Seq<char>,
    worktree: Seq<char>,
    before: Seq<Seq<char>>,
    cursor: int,
)
    requires
        are_bounded(before),
    ensures
        are_bounded(report_failures(text, worktree, before, cursor)),
    decreases text.len() - cursor,
{
    if before.len() < 4 {
        if let Some(start) = found_from(text, "<testcase"@, cursor) {
            if let Some(end) = found_from(text, ">"@, start) {
                let tag_end = end + 1;
                if cursor < tag_end <= text.len() {
                    match found_from(text, "</testcase>"@, tag_end) {
                        None => {
                            report_stays_bounded(text, worktree, before, tag_end);
                        },
                        Some(close) => {
                            let next = close + "</testcase>"@.len();
                            if cursor < next <= text.len() {
                                let more = match case_failure(
                                    text.subrange(start, tag_end),
                                    text.subrange(tag_end, close),
                                    worktree,
                                ) {
                                    Some(kept) => before.push(kept),
                                    None => before,
                                };
                                report_stays_bounded(text, worktree, more, next);
                            }
                        },
                    }
                }
            }
        }
    }
}

proof fn kept_stay_bounded(
    texts: Seq<Seq<char>>,
    worktree: Seq<char>,
    before: Seq<Seq<char>>,
    i: int,
)
    requires
        are_bounded(before),
    ensures
        are_bounded(reports_kept(texts, worktree, before, i)),
    decreases texts.len() - i,
{
    if 0 <= i < texts.len() && before.len() < 4 {
        let found_now = report_failures(texts[i], worktree, Seq::empty(), 0);
        report_stays_bounded(texts[i], worktree, Seq::empty(), 0);
        let all = before + found_now;
        let next = if all.len() > 4 {
            all.take(4)
        } else {
            all
        };
        assert forall|k: int| 0 <= k < next.len() implies (#[trigger] next[k]).len() <= 768 by {
            if k < before.len() {
                assert(next[k] == before[k]);
            } else {
                assert(next[k] == found_now[k - before.len()]);
            }
        }
        kept_stay_bounded(texts, worktree, next, i + 1);
    }
}

} // verus!
