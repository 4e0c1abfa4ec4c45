//! Contexts of threads: what is selected of the contexts of their members.

use clew::canonical;
use clew::cas::{CasObject, CAS_OBJECT_SCHEMA};
use clew::error::{ClewError, ErrorCode};
use clew::fair::take_fairly;
use clew::json::Json;
use clew::record::Record;
use clew::retained::ObjectRead;
use clew::thread::{
    ModelCachePolicy, RuntimeMode, SessionAuthority, SessionLanguage, ThreadAuthority,
    ThreadMemberBinding,
};
use clew::thread_context::{
    read_evidence, RequestChecks,
    bounded_source, bounded_thread_context_stdout, check_session, compose, create, id_filename,
    select_matches, select_sources, store, validate_evidence_bytes, validate_source_budget,
    validate_stdout_bytes, write_object, ContextObject, MemberContext, RetainedContext,
    ThreadContextAuthority, ThreadContextBudgets, ThreadContextObject, CONTEXT_SCHEMA,
    MAX_THREAD_EVIDENCE_BYTES, MAX_THREAD_FACTS, MAX_THREAD_SNIPPET_BYTES, MAX_THREAD_SOURCE_BYTES,
    MAX_THREAD_SOURCE_WINDOWS, MAX_THREAD_STDOUT_BYTES, MEMBER_CONTEXT_EVIDENCE_SCHEMA,
    THREAD_PROJECTION_TARGET_BYTES,
};

fn text(value: &str) -> Json {
    Json::Str(value.to_owned())
}

fn digest(seed: char) -> String {
    format!("sha256:{}", seed.to_string().repeat(64))
}

fn signed(mut session: SessionAuthority) -> SessionAuthority {
    session.authority_digest = String::new();
    session.authority_digest = canonical::hash(&session.to_json());
    session
}

fn session(seed: char, repository: &str, compilations: &[&str]) -> SessionAuthority {
    signed(SessionAuthority {
        schema: "codeclew-session/1.0".to_owned(),
        authority_digest: String::new(),
        session_id: format!("session:{}", seed.to_string().repeat(64)),
        repository_key: repository.to_owned(),
        base_revision: seed.to_string().repeat(40),
        target_ref: "refs/heads/main".to_owned(),
        target_oid: seed.to_string().repeat(40),
        runtime_key: format!("runtime:{}", seed.to_string().repeat(64)),
        runtime_mode: RuntimeMode::Development,
        language: SessionLanguage::Python,
        compilations: compilations.iter().map(|name| name.to_string()).collect(),
        generation_jobs: None,
        model_cache_policy: ModelCachePolicy::NonCacheable,
        model_cache_authority: None,
        created_unix_ms: 1,
    })
}

fn member(alias: &str, session: SessionAuthority) -> ThreadMemberBinding {
    ThreadMemberBinding {
        member_alias: alias.to_owned(),
        service_alias: format!("{alias}-service"),
        session,
    }
}

fn thread(id: &str, mut members: Vec<ThreadMemberBinding>) -> ThreadAuthority {
    members.sort_by(|a, b| a.member_alias.cmp(&b.member_alias));
    let mut authority = ThreadAuthority {
        schema: "codeclew-thread/1.0".to_owned(),
        authority_digest: String::new(),
        semantic_digest: canonical::hash(&members.to_json()),
        thread_id: id.to_owned(),
        created_unix_ms: 1,
        members,
    };
    authority.authority_digest = canonical::hash(&authority.to_json());
    authority
}

fn context(member: &ThreadMemberBinding, seed: char, status: &str) -> MemberContext {
    let evidence_ref = CasObject {
        schema: CAS_OBJECT_SCHEMA.to_owned(),
        object_schema: MEMBER_CONTEXT_EVIDENCE_SCHEMA.to_owned(),
        digest: digest(seed),
        size: 1,
    };
    let complete = status == "COMPLETE_TASK";
    let file = "src/main.py";
    let fact = Json::object()
        .with("compilation", text(":/main"))
        .with("factKey", text("same-fact-key"))
        .with("domainUri", text("language:test"))
        .with("payloadRef", evidence_ref.to_json())
        .with(
            "payload",
            Json::object()
                .with("file", text(file))
                .with("name", text("shared")),
        );
    let completeness = Json::object()
        .with("status", text(status))
        .with("support", text("SUPPORTED"))
        .with(
            "coverage",
            text(if complete { "QUERY_COMPLETE" } else { "PARTIAL" }),
        )
        .with(
            "certainty",
            text(if complete { "VERIFIED" } else { "UNSURE" }),
        )
        .with(
            "unmatchedTerms",
            Json::Arr(if complete {
                Vec::new()
            } else {
                vec![text("shared")]
            }),
        );
    let evidence = Json::object().with(
        "context",
        Json::object()
            .with("matches", Json::Arr(Vec::new()))
            .with(
                "sources",
                Json::Arr(vec![source(file, &evidence_ref, "shared = 1")]),
            )
            .with("completeness", completeness)
            .with(
                "verificationObligations",
                Json::Arr(if complete {
                    Vec::new()
                } else {
                    vec![Json::object().with("id", text("verify"))]
                }),
            ),
    );
    let mut context = MemberContext {
        member: member.copied(),
        context: ContextObject {
            schema: CONTEXT_SCHEMA.to_owned(),
            context_id: format!("context:{}", digest(seed)),
            session_id: member.session.session_id.clone(),
            session_authority_digest: member.session.authority_digest.clone(),
            parent_context_id: None,
            intent: "trace shared contract".to_owned(),
            terms: vec!["shared".to_owned()],
            evidence_digest: evidence_ref.digest.clone(),
            evidence_ref,
            projection: Json::object().with("fixture", Json::Bool(true)),
            evidence,
        },
        fact_paths: Vec::new(),
    };
    set_matches(&mut context, vec![fact]);
    context
}

fn source(file: &str, content_ref: &CasObject, content: &str) -> Json {
    Json::object()
        .with("fileId", text(file))
        .with("contentRef", content_ref.to_json())
        .with("startLine", Json::Uint(1))
        .with("endLine", Json::Uint(1))
        .with("text", text(content))
        .with("windows", Json::Arr(vec![window(1, content)]))
        .with("completeFile", Json::Bool(true))
}

fn window(line: u64, content: &str) -> Json {
    Json::object()
        .with("startLine", Json::Uint(line))
        .with("endLine", Json::Uint(line))
        .with("text", text(content))
}

fn at<'a>(value: &'a Json, key: &str) -> &'a Json {
    value.get(key).unwrap()
}

fn matches_of(context: &MemberContext) -> Vec<Json> {
    at(at(&context.context.evidence, "context"), "matches")
        .as_array()
        .unwrap()
        .copied()
}

fn set_in_context(context: &mut MemberContext, key: &str, value: Json) {
    let inner = at(&context.context.evidence, "context")
        .copied()
        .with(key, value);
    context.context.evidence = context.context.evidence.copied().with("context", inner);
}

fn set_matches(context: &mut MemberContext, facts: Vec<Json>) {
    context.fact_paths = facts
        .iter()
        .map(|fact| vec![at(fact, "payload").str_at("file").unwrap().clone()])
        .collect();
    set_in_context(context, "matches", Json::Arr(facts));
}

fn fixture() -> (ThreadAuthority, Vec<MemberContext>) {
    let left = member("left", session('a', "repo:left", &[":/main"]));
    let right = member("right", session('b', "repo:right", &[":/main"]));
    let contexts = vec![
        context(&right, 'd', "CONDITIONAL_TASK"),
        context(&left, 'c', "COMPLETE_TASK"),
    ];
    (thread("thread:fixed", vec![right, left]), contexts)
}

fn composed(
    thread: &ThreadAuthority,
    contexts: &Vec<MemberContext>,
) -> Result<(ThreadContextAuthority, Json, Json), ClewError> {
    compose(
        thread,
        "trace shared contract",
        &vec!["shared".to_owned()],
        &ThreadContextBudgets::new(2).unwrap(),
        contexts,
        &accepted(),
    )
}

fn accepted() -> RequestChecks {
    RequestChecks {
        given: None,
        bound: None,
    }
}

fn context_with_source_lengths(template: &MemberContext, lengths: &[usize]) -> MemberContext {
    let mut context = template.copied();
    let mut facts = Vec::new();
    let mut sources = Vec::new();
    for (index, length) in lengths.iter().copied().enumerate() {
        let file = format!("src/exact-{index:03}.py");
        facts.push(
            Json::object()
                .with("compilation", text(":/main"))
                .with("factKey", text(&format!("exact-{index:03}")))
                .with("domainUri", text("language:test"))
                .with("payload", Json::object().with("file", text(&file))),
        );
        sources.push(source(&file, &context.context.evidence_ref, &"x".repeat(length)));
    }
    set_matches(&mut context, facts);
    set_in_context(&mut context, "sources", Json::Arr(sources));
    context
}

fn selected_source_usage(sources: &[Json]) -> (usize, usize) {
    let mut usage = (0, 0);
    for source in sources {
        for window in source.array_at("windows").unwrap() {
            usage = (usage.0 + 1, usage.1 + window.str_at("text").unwrap().len());
        }
    }
    usage
}

fn keys(rows: &Json) -> Vec<String> {
    let mut keys: Vec<String> = rows
        .as_array()
        .unwrap()
        .iter()
        .map(|fact| fact.str_at("factKey").unwrap().clone())
        .collect();
    keys.sort();
    keys.dedup();
    keys
}

#[test]
fn thread_context_is_order_independent_and_namespaces_collisions() {
    let (thread, mut contexts) = fixture();
    let forward = composed(&thread, &contexts).unwrap();
    contexts.reverse();
    let reverse = composed(&thread, &contexts).unwrap();
    assert_eq!(forward.0.authority_digest, reverse.0.authority_digest);
    assert_eq!(forward.1.bytes(), reverse.1.bytes());
    let mut aliases: Vec<&String> = forward
        .1
        .array_at("matches")
        .unwrap()
        .iter()
        .map(|value| value.str_at("memberAlias").unwrap())
        .collect();
    aliases.sort();
    aliases.dedup();
    assert_eq!(aliases, vec!["left", "right"]);
}

#[test]
fn context_change_does_not_change_thread_authority_or_upgrade_certainty() {
    let (thread, mut contexts) = fixture();
    let thread_digest = thread.authority_digest.clone();
    let first = composed(&thread, &contexts).unwrap();
    contexts[0].context.context_id = format!("context:{}", digest('e'));
    let second = composed(&thread, &contexts).unwrap();
    assert_ne!(first.0.authority_digest, second.0.authority_digest);
    assert_eq!(thread.authority_digest, thread_digest);
    let completeness = at(&first.1, "completeness");
    assert_eq!(completeness.str_at("status").unwrap(), "CONDITIONAL_TASK");
    assert_eq!(completeness.str_at("support").unwrap(), "SUPPORTED");
    assert_eq!(completeness.str_at("coverage").unwrap(), "PARTIAL");
    assert_eq!(completeness.str_at("certainty").unwrap(), "UNSURE");
    assert_eq!(
        first.1.array_at("verificationObligations").unwrap().len(),
        1
    );
}

fn retained(object: &ThreadContextObject, evidence: &Json) -> RetainedContext {
    RetainedContext {
        bytes: Some(write_object(object)),
        object: Some(object.copied()),
        request: None,
        evidence: Some(evidence.copied()),
        reads: vec![ObjectRead {
            reference: object.evidence_ref.copied(),
            bytes: Some(evidence.bytes()),
        }],
    }
}

#[test]
fn retained_context_loads_after_thread_close_and_metadata_gc() {
    let (thread, mut contexts) = fixture();
    let (authority, evidence, projection) = composed(&thread, &contexts).unwrap();
    let object = store(&thread, &None, authority, &None, evidence.copied(), projection).unwrap();
    contexts[0].context.context_id = format!("context:{}", digest('e'));
    let (other_authority, other_evidence, other_projection) =
        composed(&thread, &contexts).unwrap();
    let replacement = store(
        &thread,
        &None,
        other_authority,
        &None,
        other_evidence.copied(),
        other_projection,
    )
    .unwrap();
    let load = |object: &ThreadContextObject, evidence: &Json| {
        ThreadContextObject::load(&thread, &None, &object.context_id, &retained(object, evidence))
    };
    let loaded = load(&object, &evidence).unwrap();
    assert_eq!(loaded.evidence_digest, object.evidence_digest);
    assert!(
        bounded_thread_context_stdout(&loaded).unwrap().bytes().len() <= MAX_THREAD_STDOUT_BYTES
    );
    let mut tampered = object.copied();
    tampered.projection = replacement.projection.copied();
    assert!(load(&tampered, &evidence).is_err());

    let mut substituted = object.copied();
    substituted.evidence_ref = replacement.evidence_ref.copied();
    substituted.evidence_digest = replacement.evidence_digest.clone();
    assert!(load(&substituted, &other_evidence).is_err());

    assert!(load(&object, &evidence).is_ok());
}

#[test]
fn fact_and_source_limits_are_global() {
    let (thread, mut contexts) = fixture();
    let template = matches_of(&contexts[0]).remove(0);
    let mut facts = Vec::new();
    for index in 0..=MAX_THREAD_FACTS {
        facts.push(
            template
                .copied()
                .with("factKey", text(&format!("fact-{index:05}"))),
        );
    }
    set_matches(&mut contexts[0], facts);
    let composed = composed(&thread, &contexts).unwrap();
    assert!(composed.1.array_at("matches").unwrap().len() <= MAX_THREAD_FACTS);
    assert_eq!(
        at(&composed.1, "selection").bool_at("truncated"),
        Some(true)
    );
    assert!(composed.1.bytes().len() <= MAX_THREAD_EVIDENCE_BYTES);
    assert!(composed.2.bytes().len() <= THREAD_PROJECTION_TARGET_BYTES);

    let mut lane = Vec::new();
    for index in 0..=MAX_THREAD_FACTS {
        lane.push(Json::object().with("index", Json::Uint(index as u64)));
    }
    assert_eq!(
        take_fairly(&vec![lane], MAX_THREAD_FACTS).len(),
        MAX_THREAD_FACTS
    );
}

#[test]
fn lanes_take_turns() {
    let lane = |names: &[&str]| names.iter().map(|name| name.to_string()).collect();
    let lanes: Vec<Vec<String>> = vec![lane(&["a1", "a2", "a3"]), lane(&[]), lane(&["c1", "c2"])];
    assert_eq!(take_fairly(&lanes, 4), vec!["a1", "c1", "a2", "c2"]);
    assert_eq!(take_fairly(&lanes, 9), vec!["a1", "c1", "a2", "c2", "a3"]);
}

#[test]
fn source_snippet_window_and_byte_limits_are_fail_closed() {
    let oversized = Json::object().with("fileId", text("src/main.py")).with(
        "windows",
        Json::Arr(vec![window(1, &"x".repeat(MAX_THREAD_SNIPPET_BYTES + 1))]),
    );
    assert!(bounded_source(&oversized, MAX_THREAD_SNIPPET_BYTES).is_err());

    let split = Json::object()
        .with("fileId", text("src/main.py"))
        .with(
            "contentRef",
            Json::object().with("fixture", Json::Bool(true)),
        )
        .with("startLine", Json::Uint(1))
        .with("endLine", Json::Uint(2))
        .with("text", text("ignored"))
        .with(
            "windows",
            Json::Arr(vec![
                window(1, &"a".repeat(10 * 1024)),
                window(2, &"b".repeat(10 * 1024)),
            ]),
        )
        .with("completeFile", Json::Bool(true));
    let (_, windows, bytes, truncated) = bounded_source(&split, MAX_THREAD_SNIPPET_BYTES).unwrap();
    assert_eq!(windows, 1);
    assert_eq!(bytes, 10 * 1024);
    assert!(truncated);

    let (_, contexts) = fixture();
    let lengths = vec![10 * 1024; MAX_THREAD_SOURCE_WINDOWS + 1];
    let many = context_with_source_lengths(&contexts[0], &lengths);
    let (selected, total, limited) = select_sources(
        &vec![many],
        MAX_THREAD_SOURCE_WINDOWS,
        MAX_THREAD_SOURCE_BYTES,
        MAX_THREAD_SNIPPET_BYTES,
    )
    .unwrap();
    assert_eq!(total, MAX_THREAD_SOURCE_WINDOWS + 1);
    assert!(selected.len() < total);
    assert!(selected.len() <= MAX_THREAD_SOURCE_WINDOWS);
    assert!(limited);
    assert!(selected_source_usage(&selected).1 <= MAX_THREAD_SOURCE_BYTES);
}

#[test]
fn source_selection_honors_exact_window_and_byte_boundaries() {
    let (_, contexts) = fixture();
    let picked = |lengths: &[usize]| {
        let (selected, total, limited) = select_sources(
            &vec![context_with_source_lengths(&contexts[0], lengths)],
            MAX_THREAD_SOURCE_WINDOWS,
            MAX_THREAD_SOURCE_BYTES,
            MAX_THREAD_SNIPPET_BYTES,
        )
        .unwrap();
        (selected_source_usage(&selected), total, limited)
    };
    assert_eq!(
        picked(&[1; MAX_THREAD_SOURCE_WINDOWS]),
        (
            (MAX_THREAD_SOURCE_WINDOWS, 32),
            MAX_THREAD_SOURCE_WINDOWS,
            false
        )
    );
    assert_eq!(
        picked(&[1; MAX_THREAD_SOURCE_WINDOWS + 1]),
        (
            (MAX_THREAD_SOURCE_WINDOWS, 32),
            MAX_THREAD_SOURCE_WINDOWS + 1,
            true
        )
    );
    assert_eq!(
        picked(&[16 * 1024; 16]),
        ((16, MAX_THREAD_SOURCE_BYTES), 16, false)
    );
    let mut byte_lengths = vec![16 * 1024; 16];
    byte_lengths.push(1);
    assert_eq!(
        picked(&byte_lengths),
        ((16, MAX_THREAD_SOURCE_BYTES), 17, true)
    );
}

#[test]
fn oversized_member_fact_does_not_starve_later_bounded_evidence() {
    let (thread, mut contexts) = fixture();
    contexts.reverse();
    let small = matches_of(&contexts[0]).remove(0);
    let later = small.copied().with("factKey", text("later-bounded"));
    let payload = at(&small, "payload")
        .copied()
        .with("opaque", text(&"x".repeat(MAX_THREAD_EVIDENCE_BYTES)));
    let oversized = small
        .with("factKey", text("oversized"))
        .with("payload", payload);
    set_matches(&mut contexts[0], vec![oversized, later]);
    let composed = composed(&thread, &contexts).unwrap();
    let keys = keys(at(&composed.1, "matches"));
    assert!(keys.contains(&"later-bounded".to_owned()));
    assert!(!keys.contains(&"oversized".to_owned()));
    assert_eq!(
        at(&composed.1, "selection").bool_at("truncated"),
        Some(true)
    );
}

#[test]
fn oversized_lane_does_not_starve_other_member_or_compilation_lanes() {
    let left = member("left", session('a', "repo:left", &[":/main", ":/test"]));
    let right = member("right", session('b', "repo:right", &[":/main", ":/test"]));
    let mut left_context = context(&left, 'c', "COMPLETE_TASK");
    let mut right_context = context(&right, 'd', "COMPLETE_TASK");
    let thread = thread("thread:fair-lanes", vec![left, right]);
    let template = matches_of(&left_context).remove(0);
    let fact = |key: &str, compilation: &str| {
        template
            .copied()
            .with("factKey", text(key))
            .with("compilation", text(compilation))
    };
    let oversized = fact("left-main-oversized", ":/main");
    let payload = at(&oversized, "payload")
        .copied()
        .with("opaque", text(&"x".repeat(MAX_THREAD_EVIDENCE_BYTES)));
    set_matches(
        &mut left_context,
        vec![
            oversized.with("payload", payload),
            fact("left-test-small", ":/test"),
        ],
    );
    set_matches(
        &mut right_context,
        vec![
            fact("right-main-small", ":/main"),
            fact("right-test-small", ":/test"),
        ],
    );
    let composed = composed(&thread, &vec![left_context, right_context]).unwrap();
    for rows in [at(&composed.1, "matches"), at(&composed.2, "matches")] {
        assert_eq!(
            keys(rows),
            vec!["left-test-small", "right-main-small", "right-test-small"]
        );
    }
}

#[test]
fn frozen_byte_and_source_limits_accept_limit_and_reject_limit_plus_one() {
    let evidence_at = text(&"x".repeat(MAX_THREAD_EVIDENCE_BYTES - 2)).bytes();
    let evidence_over = text(&"x".repeat(MAX_THREAD_EVIDENCE_BYTES - 1)).bytes();
    assert_eq!(evidence_at.len(), MAX_THREAD_EVIDENCE_BYTES);
    assert_eq!(evidence_over.len(), MAX_THREAD_EVIDENCE_BYTES + 1);
    validate_evidence_bytes(&evidence_at).unwrap();
    assert!(validate_evidence_bytes(&evidence_over).is_err());

    let stdout_at = text(&"x".repeat(MAX_THREAD_STDOUT_BYTES - 3)).bytes();
    let stdout_over = text(&"x".repeat(MAX_THREAD_STDOUT_BYTES - 2)).bytes();
    assert_eq!(stdout_at.len() + 1, MAX_THREAD_STDOUT_BYTES);
    assert_eq!(stdout_over.len() + 1, MAX_THREAD_STDOUT_BYTES + 1);
    validate_stdout_bytes(&stdout_at).unwrap();
    assert!(validate_stdout_bytes(&stdout_over).is_err());

    let budgets = ThreadContextBudgets::new(1).unwrap();
    validate_source_budget(&budgets, MAX_THREAD_SOURCE_WINDOWS, 0).unwrap();
    assert!(validate_source_budget(&budgets, MAX_THREAD_SOURCE_WINDOWS + 1, 0).is_err());
    validate_source_budget(&budgets, 0, MAX_THREAD_SOURCE_BYTES).unwrap();
    assert!(validate_source_budget(&budgets, 0, MAX_THREAD_SOURCE_BYTES + 1).is_err());
}

#[test]
fn budgets_have_at_least_one_root() {
    assert!(ThreadContextBudgets::new(0).is_err());
    let budgets = ThreadContextBudgets::new(1).unwrap();
    assert!(budgets.validate().is_ok());
    let error = composed(&fixture().0, &Vec::new()).unwrap_err();
    assert_eq!(error.code, ErrorCode::InvalidInput);
}

#[test]
fn created_contexts_are_composed_and_load_again() {
    let (thread, contexts) = fixture();
    let terms = vec!["shared".to_owned()];
    let object = create(
        &thread,
        &None,
        "trace shared contract",
        &terms,
        2,
        &contexts,
        &accepted(),
    ).unwrap();
    let (authority, evidence, _) = composed(&thread, &contexts).unwrap();
    assert_eq!(
        object.context_id,
        format!("thread-context:{}", authority.authority_digest)
    );
    assert_eq!(
        id_filename(&object.context_id).unwrap(),
        format!("{}.json", &authority.authority_digest[7..])
    );
    let loaded =
        ThreadContextObject::load(&thread, &None, &object.context_id, &retained(&object, &evidence))
            .unwrap();
    assert!(loaded.same_as(&object));
    let (matches, total) = select_matches(&contexts, 1).unwrap();
    assert_eq!((matches.len(), total), (1, 2));
}

#[test]
fn a_session_is_the_one_of_its_member() {
    let (thread, _) = fixture();
    let bound = &thread.members[0];
    assert!(check_session(&bound.session, bound).is_ok());
    assert!(check_session(&thread.members[1].session, bound).is_err());
}

#[test]
fn refused_requests_and_threads_make_no_context() {
    let (thread, contexts) = fixture();
    let terms = vec!["shared".to_owned()];
    let refusal = || Some(ClewError::new(ErrorCode::InvalidInput, "request is refused"));
    let made = |verified: &Option<ClewError>, request: &RequestChecks| {
        create(&thread, verified, "trace shared contract", &terms, 2, &contexts, request)
    };
    let given = RequestChecks {
        given: refusal(),
        bound: None,
    };
    assert_eq!(made(&None, &given).err(), refusal());
    let bound = RequestChecks {
        given: None,
        bound: refusal(),
    };
    assert_eq!(made(&None, &bound).err(), refusal());
    let corrupt = Some(ClewError::new(ErrorCode::StateCorrupt, "thread is corrupt"));
    assert_eq!(made(&corrupt, &accepted()).err(), corrupt);
    let object = made(&None, &accepted()).unwrap();
    let evidence = object.evidence.copied();
    let load = |verified: &Option<ClewError>, request: Option<ClewError>| {
        let mut kept = retained(&object, &evidence);
        kept.request = request;
        ThreadContextObject::load(&thread, verified, &object.context_id, &kept)
    };
    assert!(load(&None, None).is_ok());
    assert_eq!(load(&corrupt, None).err(), corrupt);
    assert_eq!(load(&None, refusal()).err(), refusal());
}

#[test]
fn the_order_of_terms_makes_no_difference() {
    let (thread, contexts) = fixture();
    let budgets = ThreadContextBudgets::new(2).unwrap();
    let made = |terms: &[&str]| {
        let terms = terms.iter().map(|term| (*term).to_owned()).collect();
        compose(&thread, "trace shared contract", &terms, &budgets, &contexts, &accepted())
    };
    let once = made(&["shared"]).unwrap();
    let twice = made(&["shared", "shared"]).unwrap();
    assert_eq!(once.0.authority_digest, twice.0.authority_digest);
    assert_eq!(once.1.bytes(), twice.1.bytes());
    assert_eq!(once.0.terms, vec!["shared"]);
}

#[test]
fn evidence_is_read_from_its_object() {
    let (thread, contexts) = fixture();
    let (authority, evidence, projection) = composed(&thread, &contexts).unwrap();
    let object = store(&thread, &None, authority, &None, evidence.copied(), projection).unwrap();
    let kept = retained(&object, &evidence);
    assert!(read_evidence(&kept.reads, &object).unwrap().same_as(&evidence));
    assert!(read_evidence(&Vec::new(), &object).is_none());
}
