//! Transactions: previews, builds, commits and the ledger.

use clew::canonical;
use clew::commit::{commit, qualify, CommitAction, CommitEvent, CommitPhase, CommitState};
use clew::edit::{
    BuildSystem, EditIr, EditOperation, ExpectedWriteFact, PreviewReport, ReadFact, Replacement,
    SemanticOperation, Snapshot, ThreadIr, Transaction, WriteFact,
};
use clew::error::{ClewError, ErrorCode};
use clew::history::{
    contains_line, find_matching_transaction_commit, find_transaction_commit, write_commit_message,
};
use clew::json::Json;
use clew::ledger::{
    entry, inspect, terminal, InspectAction, InspectEvent, InspectState, LedgerEvent,
};
use clew::model_input::{
    project_model_transition_evidence, tracked_regular, PathKind,
};
use clew::owner_identity::{canonicalize_identity_type_tokens, canonicalize_owner_symbol_query};
use clew::read_set::{
    resolve_seed, revalidate_semantic_read_set, semantic_read_set, validate_required_threads,
    GraphNode,
};
use clew::record::Record;
use clew::transaction::{
    apply_edit_target_transport, check_path, fresh_transaction_id, preview, PreviewAction,
    PreviewEvent, PreviewState,
};
use clew::words::{compact, replace, shorten, split_once, trim};
use clew::worktree::{
    append_test_failure_evidence, bounded_test_failure_evidence, build_launcher, check_launcher,
    check_state_copy, junit_failure_evidence, plan_test_lifecycle,
    prepare_candidate_repository_state, readable_report, report_roots,
    sanitize_test_failure_summary, validate_worktree, validate_worktree_fresh,
    xml_attribute_value, BuildProgress, Launcher, RunOutcome,
};
use serde_json::Value;

fn text(value: &str) -> Json {
    Json::Str(value.to_owned())
}

fn texts(values: &[&str]) -> Json {
    Json::Arr(values.iter().map(|value| text(value)).collect())
}

fn strings(values: &[&str]) -> Vec<String> {
    values.iter().map(|value| value.to_string()).collect()
}

fn owner_identity(parameter_types: &[&str], receiver_types: &[&str]) -> String {
    Json::object()
        .with("module", text(":workers:kotlin21"))
        .with("sourceSet", text("main"))
        .with("package", text("dev.semanticthread.worker"))
        .with("containingDeclarations", texts(&["Worker"]))
        .with("declarationName", text("index"))
        .with("declarationKind", text("FUNCTION"))
        .with("typeParameterArity", Json::Uint(0))
        .with("receiverTypes", texts(receiver_types))
        .with("contextReceiverTypes", texts(&[]))
        .with("parameterTypes", texts(parameter_types))
        .with("returnType", text("kotlinx/serialization/json/JsonObject"))
        .with("suspendFlag", Json::Bool(false))
        .with(
            "jvmDescriptor",
            text("(Ljava/nio/file/Path;)Ljava/lang/Object;"),
        )
        .encode()
}

fn strings_at(value: &Value, key: &str) -> Vec<String> {
    value[key]
        .as_array()
        .unwrap()
        .iter()
        .map(|item| item.as_str().unwrap().to_owned())
        .collect()
}

#[test]
fn apply_edit_owner_query_canonicalizes_qualified_types_inside_generics() {
    let original = owner_identity(
        &[
            "java/nio/file/Path",
            "kotlin/String?",
            "kotlin/Boolean",
            "kotlin.collections.List<kotlin.String>",
        ],
        &["kotlin/collections/Map<kotlin.String,java.nio.file.Path?>"],
    );
    let query: Value = serde_json::from_str(
        &canonicalize_owner_symbol_query(&original).expect("complete compiler identity"),
    )
    .unwrap();
    assert_eq!(
        strings_at(&query, "parameterTypes"),
        vec!["Path", "String?", "Boolean", "List<String>"]
    );
    assert_eq!(
        strings_at(&query, "receiverTypes"),
        vec!["Map<String,Path?>"]
    );
    assert_eq!(query["declarationName"], "index");
}

#[test]
fn apply_edit_owner_query_keeps_distinct_generic_leaf_names_distinct() {
    let first = canonicalize_owner_symbol_query(&owner_identity(
        &["kotlin/collections/List<com/acme/First>"],
        &[],
    ))
    .unwrap();
    let second = canonicalize_owner_symbol_query(&owner_identity(
        &["kotlin/collections/List<com/acme/Second>"],
        &[],
    ))
    .unwrap();
    let first: Value = serde_json::from_str(&first).unwrap();
    let second: Value = serde_json::from_str(&second).unwrap();
    assert_eq!(strings_at(&first, "parameterTypes"), vec!["List<First>"]);
    assert_eq!(strings_at(&second, "parameterTypes"), vec!["List<Second>"]);
    assert_ne!(first["parameterTypes"], second["parameterTypes"]);
}

#[test]
fn malformed_apply_edit_owner_query_is_passed_through_without_guessing() {
    let non_json = "dev.semanticthread.worker.Worker.index";
    assert!(canonicalize_owner_symbol_query(non_json).is_none());
    let malformed_type = owner_identity(&["kotlin/collections/List<kotlin/String"], &[]);
    assert!(canonicalize_owner_symbol_query(&malformed_type).is_none());

    let target = Json::object()
        .with("ownerSymbolId", text(&malformed_type))
        .with("exactTextHash", text("sha256:original-authority"))
        .with("syntaxKind", text("KtNamedFunction"));
    let transport = apply_edit_target_transport(&target);
    assert_eq!(
        transport.str_at("ownerSymbolId"),
        target.str_at("ownerSymbolId")
    );
}

#[test]
fn apply_edit_transport_keeps_original_authority_hash_and_target_unchanged() {
    let owner = owner_identity(&["kotlin/collections/List<kotlin/String>"], &[]);
    let target = Json::object()
        .with("ownerSymbolId", text(&owner))
        .with("exactTextHash", text("sha256:original-authority"))
        .with("syntaxKind", text("KtNamedFunction"))
        .with(
            "rangeHint",
            Json::Arr(vec![Json::Uint(72022), Json::Uint(79757)]),
        );
    let original_target = target.copied();
    let transport = apply_edit_target_transport(&target);
    assert_eq!(
        transport.str_at("exactTextHash").unwrap(),
        "sha256:original-authority"
    );
    assert_eq!(transport.str_at("syntaxKind").unwrap(), "KtNamedFunction");
    assert_ne!(
        transport.str_at("ownerSymbolId"),
        target.str_at("ownerSymbolId")
    );
    assert_eq!(target, original_target);
}

#[test]
fn type_tokens_keep_their_leaf_names() {
    assert_eq!(
        canonicalize_identity_type_tokens("kotlin/collections/List<kotlin.String>?").as_deref(),
        Some("List<String>?")
    );
    assert_eq!(canonicalize_identity_type_tokens(""), None);
    assert_eq!(canonicalize_identity_type_tokens("kotlin//String"), None);
}

fn model_project(path: &str, hash: &str, project_hash: &str) -> Json {
    let manifest = Json::object()
        .with("schema", text("kotlin-semantic-input-manifest/0.1"))
        .with("orderedCompileClasspath", texts(&[]))
        .with(
            "modelInputs",
            Json::Arr(vec![Json::object()
                .with("path", text(path))
                .with("hash", text(hash))]),
        );
    Json::object()
        .with("schema", text("semantic-project/0.1"))
        .with("projectModelHash", text(project_hash))
        .with(
            "semanticInputManifestHash",
            text(&canonical::hash(&manifest)),
        )
        .with("semanticInputManifest", manifest)
}

fn snapshot(base_revision: &str, project_model_hash: &str) -> Snapshot {
    Snapshot {
        base_revision: base_revision.to_owned(),
        project_model_hash: project_model_hash.to_owned(),
        compiler_version: "2.1".to_owned(),
        build_system: BuildSystem::Gradle,
        build_launcher: "./gradlew".to_owned(),
        index_snapshot: "sha256:index".to_owned(),
        compilation: ":app/main".to_owned(),
        compile_task: "compileKotlin".to_owned(),
        test_tasks: strings(&[":app:test"]),
    }
}

fn thread(id: &str, snapshot: Snapshot) -> ThreadIr {
    ThreadIr {
        schema: "semantic-thread/0.2".to_owned(),
        thread_id: id.to_owned(),
        snapshot,
        seed: Json::object().with("symbol", text("com/acme/run")),
        policy: Json::object(),
        completeness: Json::object(),
        nodes: Vec::new(),
        edges: Vec::new(),
        editable_units: Vec::new(),
        external_summaries: Vec::new(),
        read_set: Vec::new(),
        validation_plan: Vec::new(),
    }
}

fn operation(kind: &str, target: Json, kotlin: &str) -> EditOperation {
    EditOperation {
        op_id: "operation".to_owned(),
        kind: kind.to_owned(),
        target,
        replacement: Replacement {
            kotlin: kotlin.to_owned(),
        },
        semantic_operation: None,
        preconditions: Json::object(),
        postconditions: Json::object(),
    }
}

fn edit(thread: &ThreadIr, operations: Vec<EditOperation>) -> EditIr {
    EditIr {
        schema: "semantic-edit/0.2".to_owned(),
        thread_id: thread.thread_id.clone(),
        base_revision: thread.snapshot.base_revision.clone(),
        operations,
        expected_write_set: Vec::new(),
    }
}

fn head(revision: &str) -> PreviewEvent {
    PreviewEvent::Head {
        head: revision.to_owned(),
        transaction_id: "tx".to_owned(),
    }
}

fn previewed(
    thread: &ThreadIr,
    edit: &EditIr,
    events: Vec<PreviewEvent>,
) -> Result<PreviewAction, ClewError> {
    let mut state = PreviewState::start();
    let mut last = None;
    for event in events {
        let (next, action) = preview(state, thread, edit, false, event)?;
        state = next;
        last = Some(action);
    }
    Ok(last.unwrap())
}

#[test]
fn model_input_preview_is_a_whole_file_cas_and_detects_concurrent_change() {
    let path = "workers/kotlin21/build.gradle.kts";
    let original = "plugins {}\n";
    let changed = "plugins { kotlin(\"jvm\") }\n";
    let before_hash = canonical::hash_bytes(original.as_bytes());
    let project = model_project(path, &before_hash, "sha256:before-project");
    let thread = thread(
        "thread:model-input",
        snapshot("base", "sha256:before-project"),
    );
    let edit = edit(
        &thread,
        vec![operation(
            "REPLACE_MODEL_INPUT",
            Json::object()
                .with("fileId", text(path))
                .with("exactTextHash", text(&before_hash))
                .with("syntaxKind", text("MODEL_INPUT_FILE"))
                .with(
                    "semanticInputManifestHash",
                    text(project.str_at("semanticInputManifestHash").unwrap()),
                ),
            changed,
        )],
    );
    let events = |source: &str| {
        vec![
            head("base"),
            PreviewEvent::Project(project.copied()),
            PreviewEvent::ModelInput {
                listed: true,
                listing: format!("100644 0123456789abcdef 0\t{path}\0").into_bytes(),
                kinds: vec![PathKind::Directory, PathKind::Directory, PathKind::File],
            },
            PreviewEvent::ModelBytes(source.as_bytes().to_vec()),
        ]
    };
    let mut told = events(original);
    told.push(PreviewEvent::Originals(vec![Some(original.to_owned())]));
    let Ok(PreviewAction::Finish(report)) = previewed(&thread, &edit, told) else {
        panic!("the preview finishes")
    };
    assert_eq!(report.candidates.str_at(path).unwrap(), changed);
    assert_eq!(report.actual_write_set[0].kind, "MODEL_INPUT");
    assert_eq!(report.actual_write_set[0].before_hash, before_hash);
    assert_eq!(report.expected_write_set[0].kind, "MODEL_INPUT");
    assert_eq!(report.changed_files, vec![path]);
    assert!(report.diff.contains("-plugins {}\n+plugins { kotlin(\"jvm\") }\n"));
    assert!(report.diff.starts_with(&format!("--- a/{path}\n+++ b/{path}\n")));

    let Err(error) = previewed(&thread, &edit, events("// concurrent\nplugins {}\n")) else {
        panic!("the file has changed")
    };
    assert_eq!(error.code, ErrorCode::WwConflict);
}

#[test]
fn new_files_are_previewed_where_nothing_stands() {
    let thread = thread("thread:new", snapshot("base", "sha256:project"));
    let source = "fun fresh() = 1\n";
    let target = Json::object().with("fileId", text("src/New.kt"));
    let edit = edit(&thread, vec![operation("CREATE_FILE", target, source)]);
    let mut events = vec![head("base"), PreviewEvent::Existence(false)];
    let Ok(PreviewAction::ValidateCandidate(request)) = previewed(&thread, &edit, events) else {
        panic!("the new source is validated")
    };
    assert_eq!(request.str_at("file").unwrap(), "src/New.kt");
    assert_eq!(request.str_at("source").unwrap(), source);
    let valid = Json::object().with("valid", Json::Bool(true));
    events = vec![
        head("base"),
        PreviewEvent::Existence(false),
        PreviewEvent::Validation(valid),
        PreviewEvent::Originals(vec![None]),
    ];
    let Ok(PreviewAction::Finish(report)) = previewed(&thread, &edit, events) else {
        panic!("the preview finishes")
    };
    assert_eq!(report.actual_write_set[0].kind, "FILE");
    assert_eq!(
        report.actual_write_set[0].before_hash,
        canonical::hash_bytes(&[])
    );
    assert_eq!(report.candidates.str_at("src/New.kt").unwrap(), source);

    let taken = vec![head("base"), PreviewEvent::Existence(true)];
    let Err(error) = previewed(&thread, &edit, taken) else {
        panic!("something stands there")
    };
    assert_eq!(error.code, ErrorCode::PreconditionFailed);
    let broken = Json::object().with("valid", Json::Bool(false));
    let events = vec![
        head("base"),
        PreviewEvent::Existence(false),
        PreviewEvent::Validation(broken),
    ];
    let Err(error) = previewed(&thread, &edit, events) else {
        panic!("the source does not parse")
    };
    assert_eq!(error.code, ErrorCode::ReplacementParseError);
}

#[test]
fn previews_refuse_what_they_do_not_rest_on() {
    let thread = thread("thread:refused", snapshot("base", "sha256:project"));
    let edit = edit(&thread, Vec::new());
    let Err(moved) = previewed(&thread, &edit, vec![head("moved")]) else {
        panic!("another revision is checked out")
    };
    assert_eq!(moved.code, ErrorCode::ProjectModelChanged);
    let Err(empty) = previewed(&thread, &edit, vec![head("base")]) else {
        panic!("there is nothing to do")
    };
    assert_eq!(empty.code, ErrorCode::InvalidInput);
    assert_eq!(check_path("../outside").unwrap_err().code, ErrorCode::InvalidInput);
    assert!(check_path("src/Main.kt").is_ok());
}

#[test]
fn only_model_input_write_authorizes_and_records_project_model_drift() {
    let path = "workers/kotlin21/build.gradle.kts";
    let before_hash = canonical::hash_bytes(b"plugins {}\n");
    let after_hash = canonical::hash_bytes(b"plugins { kotlin(\"jvm\") }\n");
    let before = model_project(path, &before_hash, "sha256:before-project");
    let after = model_project(path, &after_hash, "sha256:after-project");
    let evidence = |writes: Vec<WriteFact>| {
        project_model_transition_evidence(&before, &after, "sha256:a", "sha256:b", &writes)
    };
    let write = |kind: &str| WriteFact {
        kind: kind.to_owned(),
        key: path.to_owned(),
        before_hash: before_hash.clone(),
        after_hash: after_hash.clone(),
    };

    let ordinary_error = evidence(Vec::new()).unwrap_err();
    assert_eq!(ordinary_error.code, ErrorCode::ProjectModelChanged);
    assert!(evidence(vec![write("FILE")]).is_err());
    let evidence = evidence(vec![write("MODEL_INPUT")]).unwrap().unwrap();
    assert_eq!(evidence.str_at("kind").unwrap(), "PROJECT_MODEL_TRANSITION");
    assert_eq!(evidence.str_at("authority").unwrap(), "REPLACE_MODEL_INPUT");
    assert_eq!(evidence.bool_at("stableIdentityChanged"), Some(true));
    assert_eq!(
        evidence.array_at("modelInputs").unwrap()[0].str_at("path").unwrap(),
        path
    );
    assert_eq!(
        evidence.str_at("status").unwrap(),
        "PENDING_INDEX_VERIFICATION"
    );
}

#[test]
fn only_regular_files_of_the_index_are_tracked() {
    let listed = |line: &str| tracked_regular(&line.as_bytes().to_vec(), "build.gradle.kts");
    assert!(listed("100644 abc 0\tbuild.gradle.kts\0"));
    assert!(listed("100755 abc 0\tbuild.gradle.kts\0"));
    assert!(!listed("120000 abc 0\tbuild.gradle.kts\0"));
    assert!(!listed("100644 abc 1\tbuild.gradle.kts\0"));
    assert!(!listed("100644 abc 0\tother.kts\0"));
    assert!(!listed(""));
}

#[test]
fn candidate_refuses_to_snapshot_unignored_build_state() {
    let prepare = |kind, ignored, taken| {
        prepare_candidate_repository_state(BuildSystem::Gradle, kind, ignored, taken)
    };
    let error = prepare(Some(PathKind::Directory), false, false).unwrap_err();
    assert_eq!(error.code, ErrorCode::UnsupportedProjectConfiguration);
    assert_eq!(
        error.message,
        "repository-owned build state must be ignored before candidate validation: .gradle"
    );
    assert!(prepare(Some(PathKind::Link), true, false).is_err());
    assert!(prepare(Some(PathKind::Directory), true, true).is_err());
    assert_eq!(prepare(Some(PathKind::Directory), true, false).unwrap(), true);
    assert_eq!(prepare(None, false, false).unwrap(), false);
    assert!(check_state_copy(PathKind::Directory).is_ok());
    assert!(check_state_copy(PathKind::Link).is_err());
}

fn ran(success: bool, duration_ms: u64) -> RunOutcome {
    RunOutcome {
        success,
        duration_ms,
    }
}

#[test]
fn validates_maven_compile_and_tests() {
    let tests = strings(&["test"]);
    let validate = |runs: Vec<RunOutcome>| {
        validate_worktree(BuildSystem::Maven, "./mvnw", "compile", &tests, &runs)
    };
    let Ok(BuildProgress::Run {
        launcher,
        arguments,
    }) = validate(Vec::new())
    else {
        panic!("the tests are run")
    };
    assert_eq!(launcher, Launcher::MavenWrapper);
    assert_eq!(arguments, vec!["test", "-q"]);
    let result = validate(vec![ran(true, 7)]);
    assert!(matches!(
        result,
        Ok(BuildProgress::Passed {
            compile_ms: 0,
            test_ms: 7
        })
    ));
}

#[test]
fn validates_gradle_compile_and_tests_one_after_another() {
    let tests = strings(&[":app:test", ":lib:test"]);
    let validate = |runs: Vec<RunOutcome>| {
        validate_worktree_fresh(
            BuildSystem::Gradle,
            "./gradlew",
            "compileKotlin",
            &tests,
            &runs,
        )
        .unwrap()
    };
    let BuildProgress::Run { arguments, .. } = validate(Vec::new()) else {
        panic!("compiles first")
    };
    assert_eq!(arguments, vec!["compileKotlin", "--no-daemon", "--quiet"]);
    let BuildProgress::Run { arguments, .. } = validate(vec![ran(true, 3)]) else {
        panic!("tests then")
    };
    assert_eq!(
        arguments,
        vec![
            ":app:test",
            ":lib:test",
            "--no-daemon",
            "--quiet",
            "--rerun-tasks"
        ]
    );
    let BuildProgress::Failed {
        error,
        tests_failed,
    } = validate(vec![ran(true, 3), ran(false, 40)])
    else {
        panic!("a test failed")
    };
    assert!(tests_failed);
    assert_eq!(error.code, ErrorCode::TestFailed);
    assert_eq!(
        error.message,
        "candidate worktree Gradle test tasks :app:test, :lib:test failed"
    );
    assert_eq!(
        error.evidence,
        vec!["buildCompileDurationMs=3", "buildTestDurationMs=40"]
    );
    let BuildProgress::Failed { error, .. } = validate(vec![ran(false, 5)]) else {
        panic!("it does not compile")
    };
    assert_eq!(error.code, ErrorCode::CompileFailed);
    assert!(matches!(
        validate(vec![ran(true, 3), ran(true, 4)]),
        BuildProgress::Passed {
            compile_ms: 3,
            test_ms: 4
        }
    ));
}

#[test]
fn launchers_follow_their_policy() {
    assert_eq!(
        build_launcher(BuildSystem::Maven, "mvn").unwrap(),
        Launcher::MavenCommand
    );
    let error = build_launcher(BuildSystem::Gradle, "gradle").unwrap_err();
    assert_eq!(error.code, ErrorCode::UnsupportedProjectConfiguration);
    assert_eq!(
        error.message,
        "unsupported Gradle build launcher policy gradle"
    );
    assert!(check_launcher("/w/gradlew", true).is_ok());
    assert!(check_launcher("/w/gradlew", false).is_err());
    assert!(check_launcher("w/gradlew", false).is_ok());
    assert!(check_launcher("mvn", false).is_ok());
    assert!(plan_test_lifecycle(BuildSystem::Gradle, "./gradlew", &Vec::new()).is_err());
}

#[test]
fn selected_gradle_test_failure_is_retained_as_bounded_path_free_evidence() {
    let tests = strings(&[":workers:kotlin:test", "--tests", "*CacheTest"]);
    let worktree = "/tmp/candidate/repo";
    let roots = report_roots(worktree, BuildSystem::Gradle, &tests);
    assert!(roots.iter().any(|root| root.path
        == "/tmp/candidate/repo/workers/kotlin/build/test-results/test"));
    let report = format!(
        r#"<testsuite><testcase name="publishes()" classname="example.CacheTest"><failure message="expected PUBLISHED below {worktree} but was WRITE_FAILED" type="org.opentest4j.AssertionFailedError">stack</failure></testcase></testsuite>"#
    );
    let evidence = bounded_test_failure_evidence(&vec![report.clone()], worktree);
    assert_eq!(evidence.len(), 1);
    assert!(evidence[0].contains("example.CacheTest#publishes()"));
    assert!(evidence[0].contains("expected PUBLISHED"));
    assert!(evidence[0].contains("<worktree>"));
    assert!(!evidence[0].contains("/tmp/candidate"));

    let mut error = ClewError::new(ErrorCode::TestFailed, "failed");
    append_test_failure_evidence(&mut error, &vec![report], worktree);
    assert_eq!(error.evidence, evidence);
}

#[test]
fn report_directories_are_compared_part_for_part() {
    let paths = |tests: &[&str]| {
        report_roots("/w", BuildSystem::Gradle, &strings(tests))
            .into_iter()
            .map(|root| root.path)
            .collect::<Vec<_>>()
    };
    assert_eq!(
        paths(&["a/b:test", ":a:b:test", "a:./b/:test"]),
        strings(&["/w/a/b/build/test-results/test"])
    );
    // A step up comes before every name, and an absolute part starts anew.
    assert_eq!(
        paths(&["+:test", "..:test", "x:/v:test", "cleanTest", "-x", "build"]),
        strings(&[
            "/v/build/test-results/test",
            "/w/../build/test-results/test",
            "/w/+/build/test-results/test"
        ])
    );
    assert_eq!(
        report_roots("w/", BuildSystem::Maven, &Vec::new())
            .into_iter()
            .map(|root| root.path)
            .collect::<Vec<_>>(),
        strings(&["w/target/failsafe-reports", "w/target/surefire-reports"])
    );
}

#[test]
fn kept_failures_are_few_and_short() {
    let one = |name: &str| {
        format!("<testcase name=\"{name}\" classname=\"C\"><error message=\"m\" type=\"T\"/></testcase>")
    };
    let report = (0..3).map(|i| one(&format!("t{i}"))).collect::<String>();
    let kept = bounded_test_failure_evidence(&vec![report.clone(), report], "/w");
    assert_eq!(kept.len(), 4);
    assert_eq!(kept[0], "testFailure=C#t0:T:m");
    assert!(junit_failure_evidence("<testcase name=\"ok\"></testcase>", "/w").is_empty());
    let long = sanitize_test_failure_summary(&"word ".repeat(400), "/w");
    assert_eq!(long.chars().count(), 768);
    assert_eq!(
        sanitize_test_failure_summary("a &lt;b&gt;\n\n &amp; &quot;c&quot; /w/x", "/w"),
        "a <b> & \"c\" <worktree>/x"
    );
    assert_eq!(
        xml_attribute_value("<t name=\"n\" type=\"k\">", "type").as_deref(),
        Some("k")
    );
    assert_eq!(xml_attribute_value("<t name=\"n", "name"), None);
    assert!(readable_report(PathKind::File, 2 * 1024 * 1024, "TEST-a.xml"));
    assert!(!readable_report(PathKind::File, 2 * 1024 * 1024 + 1, "TEST-a.xml"));
    assert!(!readable_report(PathKind::Link, 1, "TEST-a.xml"));
    assert!(!readable_report(PathKind::File, 1, ".xml"));
}

#[test]
fn generic_preview_cannot_apply_an_authority_semantic_operation() {
    let thread = thread("thread:authority", snapshot("base", "sha256:project"));
    let mut forged = operation(
        "MAP_EDGE_WITH_CONTEXT",
        Json::object().with("fileId", text("Runner.kt")),
        "",
    );
    forged.semantic_operation = Some(SemanticOperation::MapEdgeWithContext {
        workflow_symbol: "com/acme/workflow".to_owned(),
        context_producer_symbol: "com/acme/context".to_owned(),
        transformer_symbol: "com/acme/transform".to_owned(),
        value_parameter_index: 0,
        collection_type: "kotlin/collections/List<kotlin/Int>".to_owned(),
        element_type: "kotlin/Int".to_owned(),
        context_type: "kotlin/Int".to_owned(),
        placement: "com/acme/workflow#FUNCTION_ENTRY".to_owned(),
        strategy: "KOTLIN_EAGER_LIST_MAP_WITH_CONTEXT_ONCE".to_owned(),
    });
    let edit = edit(&thread, vec![forged]);
    let Err(error) = previewed(&thread, &edit, vec![head("base")]) else {
        panic!("no authority stands behind the operation")
    };
    assert_eq!(error.code, ErrorCode::PreconditionFailed);
    assert!(error.message.contains("live authority proof receipt"));
}

#[test]
fn fresh_identifiers_differ() {
    let one = fresh_transaction_id();
    let two = fresh_transaction_id();
    assert!(one.starts_with("tx:"));
    assert_eq!(one.len(), 39);
    assert_ne!(one, two);
    for (i, c) in one.chars().skip(3).enumerate() {
        match i {
            8 | 13 | 18 | 23 => assert_eq!(c, '-'),
            14 => assert_eq!(c, '4'),
            19 => assert!("89ab".contains(c)),
            _ => assert!("0123456789abcdef".contains(c)),
        }
    }
}

fn transaction() -> Transaction {
    let thread = thread("thread:commit", snapshot("base", "sha256:project"));
    let target = Json::object()
        .with("fileId", text("src/Run.kt"))
        .with("sourceText", text("fun run()"));
    Transaction {
        tx_id: "tx-1".to_owned(),
        intent: "change run".to_owned(),
        base_revision: "base".to_owned(),
        project_model_hash: "sha256:project".to_owned(),
        status: "CREATED".to_owned(),
        edit: edit(&thread, vec![operation("REPLACE", target, "fun run() = 2")]),
        thread,
        required_threads: Vec::new(),
        test_tasks: Vec::new(),
        preview: None,
        target_ref: None,
        base_index_snapshot: None,
        expected_write_set_hash: None,
        actual_write_set_hash: None,
        validation_evidence: Vec::new(),
        candidate_commit: None,
        final_commit: None,
    }
}

fn report(candidates: Json) -> PreviewReport {
    PreviewReport {
        schema: "semantic-preview/0.1".to_owned(),
        transaction_id: "tx-1".to_owned(),
        base_revision: "base".to_owned(),
        valid: true,
        changed_files: strings(&["src/Run.kt"]),
        diff: String::new(),
        candidates,
        actual_write_set: Vec::new(),
        expected_write_set: vec![ExpectedWriteFact {
            kind: "FILE".to_owned(),
            key: "src/Run.kt".to_owned(),
        }],
        diagnostics: Vec::new(),
        formatting_windows: Vec::new(),
    }
}

fn changed() -> Json {
    Json::object().with("src/Run.kt", text("fun run() = 2\n"))
}

fn told(
    mut state: CommitState,
    events: Vec<CommitEvent>,
) -> (CommitState, Result<CommitAction, ClewError>) {
    let mut last = Err(ClewError::new(ErrorCode::Internal, "nothing was told"));
    for event in events {
        let (next, action) = commit(state, event);
        state = next;
        last = action;
    }
    (state, last)
}

fn begun(current: &str, clean: bool) -> Vec<CommitEvent> {
    vec![
        CommitEvent::Begin {
            target_ref: "main".to_owned(),
        },
        CommitEvent::Target {
            current: current.to_owned(),
            clean,
        },
        CommitEvent::Index {
            snapshot: Some("sha256:index".to_owned()),
        },
    ]
}

fn to_reference(clean: bool) -> Vec<CommitEvent> {
    let project = Json::object().with("projectModelHash", text("sha256:project"));
    let mut events = begun("base", clean);
    events.extend([
        CommitEvent::History(String::new()),
        CommitEvent::Previewed(report(changed())),
        CommitEvent::Recorded,
        CommitEvent::WorktreeAdded,
        CommitEvent::Prepared,
        CommitEvent::Written,
        CommitEvent::Built {
            compile_ms: 3,
            test_ms: 4,
        },
        CommitEvent::Candidate("candidate".to_owned()),
        CommitEvent::Recorded,
        CommitEvent::Model(project.copied()),
        CommitEvent::CandidateModel {
            model: project,
            before_stable: "same".to_owned(),
            after_stable: "same".to_owned(),
        },
        CommitEvent::Indexed {
            project_model_hash: "sha256:project".to_owned(),
        },
        CommitEvent::Staged,
    ]);
    events
}

fn published() -> CommitEvent {
    CommitEvent::IndexPublished {
        snapshot: "sha256:new-index".to_owned(),
        invalidations: strings(&["src/Run.kt"]),
    }
}

#[test]
fn a_commit_publishes_the_reference_and_then_the_index() {
    let state = CommitState::start(transaction(), false);
    let (state, asked) = told(state, to_reference(true));
    let Ok(CommitAction::UpdateRef {
        reference,
        to,
        from,
    }) = asked
    else {
        panic!("the reference is moved")
    };
    assert_eq!(
        (reference.as_str(), to.as_str(), from.as_str()),
        ("refs/heads/main", "candidate", "base")
    );
    assert_eq!(state.transaction.status, "COMMITTING");
    let (state, asked) = told(state, vec![CommitEvent::RefUpdated, published()]);
    assert!(matches!(asked, Ok(CommitAction::Synchronize { .. })));
    let (state, asked) = told(state, vec![CommitEvent::Synchronized]);
    assert!(matches!(asked, Ok(CommitAction::Record { .. })));
    assert_eq!(state.transaction.status, "COMMITTED");
    assert_eq!(state.transaction.final_commit.as_deref(), Some("candidate"));
    let kinds: Vec<&String> = state
        .transaction
        .validation_evidence
        .iter()
        .map(|evidence| evidence.str_at("kind").unwrap())
        .collect();
    assert_eq!(kinds, vec!["SEMANTIC_PREVIEW", "BUILD", "INDEX_PUBLICATION"]);
    let unrecorded = CommitEvent::Unrecorded(ClewError::new(ErrorCode::Internal, "disk"));
    let (_, finished) = told(state, vec![unrecorded]);
    let Ok(CommitAction::Finish(report)) = finished else {
        panic!("a lost record is no failure")
    };
    assert_eq!(report.str_at("status").unwrap(), "COMMITTED");
    assert_eq!(report.u64_at("gradleValidationDurationMs"), Some(7));
    assert_eq!(report.bool_at("ledgerRecorded"), Some(false));
}

#[test]
fn a_failed_publication_rolls_the_reference_back() {
    let failing = || {
        let state = CommitState::start(transaction(), false);
        let mut events = to_reference(false);
        events.push(CommitEvent::RefUpdated);
        events.push(CommitEvent::Failed(ClewError::new(
            ErrorCode::Internal,
            "index",
        )));
        told(state, events)
    };
    let (state, asked) = failing();
    let Ok(CommitAction::UpdateRef { to, from, .. }) = asked else {
        panic!("the reference goes back")
    };
    assert_eq!((to.as_str(), from.as_str()), ("base", "candidate"));
    let (_, ended) = told(state, vec![CommitEvent::RefUpdated]);
    let Err(error) = ended else { panic!("nothing is committed") };
    assert_eq!(error.code, ErrorCode::Internal);
    let (state, _) = failing();
    let stuck = CommitEvent::Failed(ClewError::new(ErrorCode::Internal, "ref"));
    let (_, ended) = told(state, vec![stuck]);
    let Err(error) = ended else { panic!("nothing is committed") };
    assert_eq!(error.code, ErrorCode::TransactionRecoveryRequired);
    assert!(error.retryable);
    assert_eq!(
        error.message,
        "repository index publication requires recovery: index publication failed and target ref rollback also failed: index"
    );
}

#[test]
fn a_lost_race_for_the_reference_is_reported() {
    let mut events = to_reference(false);
    events.push(CommitEvent::Failed(ClewError::new(
        ErrorCode::Internal,
        "git update-ref failed",
    )));
    let (_, ended) = told(CommitState::start(transaction(), false), events);
    let Err(error) = ended else { panic!("the target moved") };
    assert_eq!(error.code, ErrorCode::RefCompareAndSwapFailed);
}

#[test]
fn a_commit_that_is_in_the_history_is_not_made_again() {
    let edit_hash = canonical::hash(&transaction().edit.to_json());
    let message = write_commit_message("change run", "tx-1", "base", &edit_hash);
    let history = format!("older\u{1f}first\u{1e}\ndone\u{1f}{message}\u{1e}\n");
    let mut events = begun("moved", false);
    events.push(CommitEvent::History(history));
    events.push(CommitEvent::Revision(Some("moved".to_owned())));
    events.push(CommitEvent::PublishedIndex {
        snapshot: Some("sha256:published".to_owned()),
        invalidations: Vec::new(),
    });
    events.push(CommitEvent::Recorded);
    let (state, finished) = told(CommitState::start(transaction(), false), events);
    let Ok(CommitAction::Finish(report)) = finished else {
        panic!("it was committed before")
    };
    assert_eq!(report.str_at("finalCommit").unwrap(), "done");
    assert_eq!(report.bool_at("idempotent"), Some(true));
    assert_eq!(state.transaction.status, "COMMITTED");
    assert_eq!(state.phase, CommitPhase::Done);
}

#[test]
fn the_index_of_an_earlier_commit_follows_the_target() {
    let edit_hash = canonical::hash(&transaction().edit.to_json());
    let message = write_commit_message("change run", "tx-1", "base", &edit_hash);
    let mut events = begun("moved", false);
    events.push(CommitEvent::History(format!("done\u{1f}{message}\u{1e}\n")));
    events.push(CommitEvent::Revision(Some("done".to_owned())));
    let (state, asked) = told(CommitState::start(transaction(), false), events);
    let Ok(CommitAction::AddWorktree { revision }) = asked else {
        panic!("the index is of an older revision")
    };
    assert_eq!(revision, "moved");
    let (_, asked) = told(state, vec![CommitEvent::WorktreeAdded, CommitEvent::Prepared]);
    let Ok(CommitAction::StageIndex { revision, .. }) = asked else {
        panic!("the worktree is prepared")
    };
    assert_eq!(revision, "moved");
}

#[test]
fn an_edit_that_changes_nothing_is_committed_where_it_stands() {
    let mut events = begun("base", true);
    events.extend([
        CommitEvent::History(String::new()),
        CommitEvent::Previewed(report(Json::object())),
        CommitEvent::Recorded,
        CommitEvent::Recorded,
    ]);
    let (state, finished) = told(CommitState::start(transaction(), false), events);
    assert!(matches!(finished, Ok(CommitAction::Finish(_))));
    assert_eq!(state.transaction.final_commit.as_deref(), Some("base"));
}

#[test]
fn a_moved_target_is_replayed_or_stale() {
    let mut events = begun("moved", true);
    events.extend([
        CommitEvent::History(String::new()),
        CommitEvent::Recorded,
        CommitEvent::WorktreeAdded,
        CommitEvent::Prepared,
    ]);
    let (state, asked) = told(CommitState::start(transaction(), false), events);
    assert!(matches!(
        asked,
        Ok(CommitAction::OpenProject {
            in_worktree: true,
            ..
        })
    ));
    assert_eq!(state.transaction.status, "REBASING");
    let same = Json::object().with("projectModelHash", text("sha256:project"));
    let rebuilt = CommitEvent::Rebuilt {
        threads: vec![transaction().thread],
        sources: vec![Some("fun run() = 1".to_owned())],
    };
    let (state, asked) = told(state, vec![CommitEvent::Model(same), rebuilt]);
    let Ok(CommitAction::Preview {
        thread,
        edit,
        in_worktree,
    }) = asked
    else {
        panic!("the edit is replayed")
    };
    assert!(in_worktree);
    assert_eq!(thread.snapshot.base_revision, "moved");
    assert_eq!(edit.base_revision, "moved");
    assert_eq!(state.transaction.edit.base_revision, "base");
    let gone = CommitEvent::Failed(ClewError::new(ErrorCode::StaleTarget, "gone"));
    let (_, ended) = told(state, vec![gone]);
    let Err(error) = ended else { panic!("the target is gone") };
    assert_eq!(error.code, ErrorCode::WwConflict);

    let mut events = begun("moved", true);
    let other = Json::object().with("projectModelHash", text("sha256:other"));
    events.extend([
        CommitEvent::History(String::new()),
        CommitEvent::Recorded,
        CommitEvent::WorktreeAdded,
        CommitEvent::Prepared,
        CommitEvent::Model(other),
        CommitEvent::Recorded,
    ]);
    let (state, ended) = told(CommitState::start(transaction(), false), events);
    let Err(error) = ended else { panic!("another project") };
    assert_eq!(error.code, ErrorCode::StaleRequiresReslice);
    assert_eq!(
        error.message,
        "project model changed since slice: expected sha256:project, current sha256:other"
    );
    assert_eq!(state.transaction.status, "STALE_REQUIRES_RESLICE");
}

#[test]
fn commits_refuse_a_stale_start() {
    let (_, ended) = told(CommitState::start(transaction(), true), begun("moved", true));
    let Err(error) = ended else { panic!("authority is bound to its revision") };
    assert_eq!(error.code, ErrorCode::Internal);
    let (_, ended) = told(
        CommitState::start(transaction(), true),
        vec![
            CommitEvent::Begin {
                target_ref: "refs/heads/main".to_owned(),
            },
            CommitEvent::Target {
                current: "moved".to_owned(),
                clean: true,
            },
        ],
    );
    let Err(error) = ended else { panic!("authority is bound to its revision") };
    assert_eq!(error.code, ErrorCode::StaleRequiresReslice);
    let mut without_index = transaction();
    without_index.thread.snapshot.index_snapshot = String::new();
    let (_, ended) = told(
        CommitState::start(without_index, false),
        vec![
            CommitEvent::Begin {
                target_ref: "main".to_owned(),
            },
            CommitEvent::Target {
                current: "base".to_owned(),
                clean: true,
            },
        ],
    );
    let Err(error) = ended else { panic!("no index to start from") };
    assert_eq!(error.code, ErrorCode::InvalidInput);
    assert_eq!(qualify("main"), "refs/heads/main");
    assert_eq!(qualify("refs/tags/v1"), "refs/tags/v1");
}

#[test]
fn histories_name_transactions_by_their_trailers() {
    let message = write_commit_message("do it", "tx-9", "base", "sha256:edit");
    assert_eq!(
        message,
        "semantic transaction do it\n\nSemantic-Transaction-Id: tx-9\nSemantic-Base-Revision: base\nSemantic-Edit-Hash: sha256:edit"
    );
    let history = format!("abc\u{1f}{message}\n\u{1e}\ndef\u{1f}other\u{1e}");
    assert!(contains_line(&message, "Semantic-Transaction-Id: tx-9"));
    assert_eq!(find_transaction_commit(&history, "tx-9").as_deref(), Some("abc"));
    assert_eq!(find_transaction_commit(&history, "tx"), None);
    assert_eq!(
        find_matching_transaction_commit(&history, "tx-9", "sha256:edit").unwrap().as_deref(),
        Some("abc")
    );
    let error = find_matching_transaction_commit(&history, "tx-9", "sha256:new").unwrap_err();
    assert_eq!(error.code, ErrorCode::InvalidInput);
}

fn read(kind: &str, key: &str, hash: &str) -> ReadFact {
    ReadFact {
        kind: kind.to_owned(),
        key: key.to_owned(),
        hash: hash.to_owned(),
    }
}

#[test]
fn reads_are_compared_without_the_project() {
    let mut t = transaction();
    t.thread.read_set = vec![
        read("SOURCE_NODE", "a", "1"),
        read("PROJECT_MODEL", "p", "1"),
        read("SOURCE_NODE", "a", "1"),
    ];
    assert_eq!(semantic_read_set(&t.thread).len(), 1);
    let mut same = t.thread.copied();
    same.read_set = vec![
        read("PROJECT_MODEL", "p", "2"),
        read("SOURCE_NODE", "a", "1"),
    ];
    let sources = vec![Some("fun run() = 1".to_owned())];
    assert!(revalidate_semantic_read_set(&t, &sources, &vec![same]).is_ok());
    let mut other = t.thread.copied();
    other.read_set = vec![read("SOURCE_NODE", "a", "2")];
    let changed = vec![other];
    let error = revalidate_semantic_read_set(&t, &sources, &changed).unwrap_err();
    assert_eq!(error.code, ErrorCode::StaleRequiresReslice);
    assert_eq!(
        error.evidence,
        vec![
            "requiredThreadId=thread:commit",
            "- SOURCE_NODE a 1",
            "+ SOURCE_NODE a 2"
        ]
    );
    let conflict = revalidate_semantic_read_set(&t, &vec![None], &changed).unwrap_err();
    assert_eq!(conflict.code, ErrorCode::WwConflict);
}

#[test]
fn required_threads_begin_with_the_primary_one() {
    let mut t = transaction();
    assert!(validate_required_threads(&t).is_ok());
    t.required_threads = vec![t.thread.copied(), t.thread.copied()];
    assert_eq!(
        validate_required_threads(&t).unwrap_err().message,
        "required transaction thread IDs must be unique"
    );
    t.required_threads.remove(0);
    assert!(validate_required_threads(&t).is_ok());
    t.required_threads[0].thread_id = "thread:other".to_owned();
    assert_eq!(
        validate_required_threads(&t).unwrap_err().code,
        ErrorCode::InvalidInput
    );
}

#[test]
fn seeds_resolve_by_node_or_by_anchor() {
    let mut sliced = thread("thread:seed", snapshot("base", "sha256:project"));
    sliced.seed = Json::object()
        .with("nodeId", text("n1"))
        .with("anchor", Json::object().with("anchorId", text("a1")));
    let node = |id: &str, anchor: &str| GraphNode {
        id: id.to_owned(),
        anchor_id: Some(anchor.to_owned()),
    };
    assert_eq!(
        resolve_seed(&sliced, &vec![node("n1", "a9")]).unwrap(),
        "n1"
    );
    assert_eq!(
        resolve_seed(&sliced, &vec![node("n7", "a1")]).unwrap(),
        "n7"
    );
    assert_eq!(
        resolve_seed(&sliced, &vec![node("n7", "a7")]).unwrap_err().code,
        ErrorCode::StaleRequiresReslice
    );
}

fn inspected(
    mut state: InspectState,
    events: Vec<InspectEvent>,
) -> (InspectState, Result<InspectAction, ClewError>) {
    let mut last = Err(ClewError::new(ErrorCode::Internal, "nothing was told"));
    for event in events {
        let (next, action) = inspect(state, event);
        state = next;
        last = action;
    }
    (state, last)
}

fn latest(status: &str, transaction: Transaction) -> InspectEvent {
    InspectEvent::Latest {
        status: status.to_owned(),
        transaction,
    }
}

#[test]
fn inspections_keep_settled_transactions() {
    let (state, asked) = inspected(
        InspectState::start("tx-1"),
        vec![latest("COMMITTED", transaction())],
    );
    assert!(matches!(asked, Ok(InspectAction::ReadEvents)));
    let row = LedgerEvent {
        sequence: 1,
        status: "COMMITTED".to_owned(),
        timestamp: "2024-01-01 00:00:00".to_owned(),
        evidence: "done".to_owned(),
    };
    let (_, finished) = inspected(state, vec![InspectEvent::Events(vec![row])]);
    let Ok(InspectAction::Finish(report)) = finished else {
        panic!("the inspection ends")
    };
    assert_eq!(report.str_at("reconciledStatus").unwrap(), "COMMITTED");
    assert_eq!(report.str_at("recoveryAction").unwrap(), "NONE");
    assert_eq!(report.array_at("events").unwrap().len(), 1);
    let (_, missing) = inspected(InspectState::start("tx-1"), vec![InspectEvent::Missing]);
    let Err(error) = missing else { panic!("there is no such transaction") };
    assert_eq!(error.message, "transaction not found: tx-1");
    assert!(terminal("ABORTED"));
    assert!(!terminal("COMMITTING"));
}

#[test]
fn inspections_abort_what_was_never_published() {
    let (state, _) = inspected(
        InspectState::start("tx-1"),
        vec![latest("VALIDATED", transaction())],
    );
    assert_eq!(state.status, "ABORTED");
    assert_eq!(state.action, "RECOVERED_ABORTED_NO_REF_CHANGE");
    assert_eq!(state.transaction.unwrap().status, "ABORTED");
    let (state, _) = inspected(
        InspectState::start("tx-1"),
        vec![latest("COMMITTING", transaction())],
    );
    assert_eq!(state.action, "RECOVERED_ABORTED_CANDIDATE_MISSING");
    let (state, _) = inspected(
        InspectState::start("tx-1"),
        vec![latest("PONDERING", transaction())],
    );
    assert_eq!(state.action, "RECOVERED_ABORTED_UNKNOWN_STATE");
}

#[test]
fn whole_inspections_add_one_entry_and_a_second_adds_none() {
    let (state, asked) = inspected(
        InspectState::start("tx-1"),
        vec![latest("VALIDATED", transaction())],
    );
    let Ok(InspectAction::Record { evidence }) = asked else {
        panic!("the abort is recorded")
    };
    let recorded = state.transaction.as_ref().unwrap();
    let added = entry(recorded, &evidence);
    assert_eq!(added.status, "ABORTED");
    assert_eq!(added.tx_id, transaction().tx_id);
    let (state, asked) = inspected(state, vec![InspectEvent::Recorded]);
    assert!(matches!(asked, Ok(InspectAction::ReadEvents)));
    let (_, finished) = inspected(state, vec![InspectEvent::Events(Vec::new())]);
    let Ok(InspectAction::Finish(report)) = finished else {
        panic!("the inspection ends")
    };
    assert_eq!(report.str_at("reconciledStatus").unwrap(), "ABORTED");
    assert_eq!(
        report.str_at("recoveryAction").unwrap(),
        "RECOVERED_ABORTED_NO_REF_CHANGE"
    );
    let (_, finished) = inspected(
        InspectState::start("tx-1"),
        vec![
            latest("ABORTED", transaction()),
            InspectEvent::Events(Vec::new()),
        ],
    );
    let Ok(InspectAction::Finish(report)) = finished else {
        panic!("the inspection ends")
    };
    assert_eq!(report.str_at("reconciledStatus").unwrap(), "ABORTED");
    assert_eq!(report.str_at("recoveryAction").unwrap(), "NONE");
}

fn committing() -> Transaction {
    let mut t = transaction();
    t.status = "COMMITTING".to_owned();
    t.target_ref = Some("refs/heads/main".to_owned());
    t.candidate_commit = Some("candidate".to_owned());
    t
}

fn candidate_message() -> String {
    let edit_hash = canonical::hash(&transaction().edit.to_json());
    write_commit_message("change run", "tx-1", "base", &edit_hash)
}

#[test]
fn inspections_find_commits_in_the_history() {
    let history = format!("done\u{1f}{}\u{1e}", candidate_message());
    let (state, asked) = inspected(
        InspectState::start("tx-1"),
        vec![
            latest("COMMITTING", committing()),
            InspectEvent::Target("head".to_owned()),
            InspectEvent::History(history),
            InspectEvent::Revision(Some("head".to_owned())),
        ],
    );
    assert!(matches!(asked, Ok(InspectAction::Record { .. })));
    assert_eq!(state.action, "RECOVERED_COMMITTED_FROM_TRAILER");
    assert_eq!(
        state.transaction.unwrap().final_commit.as_deref(),
        Some("done")
    );
}

#[test]
fn inspections_publish_candidates_that_still_can_be() {
    let events = |current: &str| {
        vec![
            latest("COMMITTING", committing()),
            InspectEvent::Target("base".to_owned()),
            InspectEvent::History(String::new()),
            InspectEvent::Message(candidate_message()),
            InspectEvent::Parent {
                parent: "base".to_owned(),
                current: current.to_owned(),
            },
        ]
    };
    let (state, asked) = inspected(InspectState::start("tx-1"), events("base"));
    assert!(matches!(asked, Ok(InspectAction::StartWorker)));
    let (state, asked) = inspected(
        state,
        vec![
            InspectEvent::WorkerStarted,
            InspectEvent::WorktreeAdded,
            InspectEvent::Prepared,
            InspectEvent::Staged,
        ],
    );
    let Ok(InspectAction::UpdateRef {
        reference,
        to,
        from,
    }) = asked
    else {
        panic!("the target is moved")
    };
    assert_eq!(
        (reference.as_str(), to.as_str(), from.as_str()),
        ("refs/heads/main", "candidate", "base")
    );
    let (state, _) = inspected(
        state,
        vec![
            InspectEvent::RefUpdated,
            InspectEvent::IndexPublished {
                snapshot: "sha256:new".to_owned(),
                invalidations: Vec::new(),
            },
        ],
    );
    assert_eq!(state.action, "RECOVERED_COMMITTED_CANDIDATE_CAS");

    let (state, asked) = inspected(InspectState::start("tx-1"), events("moved"));
    let Ok(InspectAction::Record { evidence }) = asked else {
        panic!("the target has moved")
    };
    assert_eq!(
        evidence,
        "target ref moved from candidate parent base to moved before recovery"
    );
    assert_eq!(state.status, "CONFLICTED");
}

#[test]
fn entries_hold_the_transaction() {
    let t = transaction();
    let written = entry(&t, "created");
    assert_eq!(written.tx_id, "tx-1");
    assert_eq!(written.status, "CREATED");
    assert_eq!(written.evidence, "created");
    let value: Value = serde_json::from_slice(&written.record).unwrap();
    assert_eq!(value["txId"], "tx-1");
}

#[test]
fn words_are_cut_and_joined() {
    assert_eq!(trim(" \ta b\n"), "a b");
    assert_eq!(compact("  a \n b\tc "), "a b c");
    assert_eq!(replace("a--b--c", "--", "+"), "a+b+c");
    assert_eq!(shorten("abcdef", 4), "abcd");
    assert_eq!(
        split_once("k=v=w", '='),
        Some(("k".to_owned(), "v=w".to_owned()))
    );
    assert_eq!(split_once("none", '='), None);
}
