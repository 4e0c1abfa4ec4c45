//! Impacts of Kotlin declarations on the two members of a pair.

use clew::canonical;
use clew::cas::CasObject;
use clew::error::{ClewError, ErrorCode};
use clew::json::Json;
use clew::record::Record;
use clew::thread_callables::{
    BoundaryFact, CallableCompilationBinding, CallableCompleteness, CallableFact, CallableFactKind,
    CallableFactProvenance, CallableFactSetAuthority, CallableFactSetCertainty,
    CallableFactSetCoverage, CallableFactShard, CallableLookup, CallableMemberBinding,
    CallablePairBinding, CallableQueryTrace, DeclarationFact, DeclarationKind, GraphCoverage,
    PreparedCallableFactSet, PreparedFactShard, RelationshipAuthority, SourceAnchor,
};
use clew::thread_impact::{
    build, canonical_cas_closure, checked_derived_cas_object_count, checked_obligations,
    fact_entries, fair_take_candidates, obligation, obligation_evidence, plan_query, select,
    select_source_windows, verify_prepared, Candidate, ImpactBudgets, ImpactCertainty,
    ImpactFinding, ImpactFindingAuthority, ImpactFindingDetail, ImpactObligation,
    ImpactObligationCode, ImpactQuerySelection, ImpactShapeStatus, ImpactSide, ImpactSubjectKind,
    KotlinImpactSubject, PreparedThreadImpact, ThreadImpactRequest, IMPACT_STDOUT_ENVELOPE_RESERVE,
    MAX_IMPACT_DERIVED_CAS_OBJECTS, MAX_IMPACT_FINDINGS, MAX_IMPACT_OBLIGATIONS,
    MAX_IMPACT_RETAINED_CLOSURE_BYTES, MAX_IMPACT_SOURCE_WINDOWS, MAX_IMPACT_SOURCE_WINDOW_BYTES,
    MAX_IMPACT_STDOUT_BYTES,
};

fn digest(label: &str) -> String {
    canonical::hash(&text(label))
}

fn text(value: &str) -> Json {
    Json::Str(value.to_owned())
}

fn object(schema: &str, label: &str) -> CasObject {
    CasObject::for_bytes(schema, label.as_bytes())
}

/// What a compiler says of a member, before it is a fact of one.
#[derive(Clone)]
enum Payload {
    Descriptor {
        callable: String,
        jvm: String,
        return_type: String,
        file: String,
        start: u64,
    },
    Boundary {
        subject: String,
        file: String,
        start: u64,
        relation: bool,
    },
}

fn descriptor(callable: &str, jvm: &str, return_type: &str, file: &str, start: u64) -> Payload {
    Payload::Descriptor {
        callable: callable.to_owned(),
        jvm: jvm.to_owned(),
        return_type: return_type.to_owned(),
        file: file.to_owned(),
        start,
    }
}

fn boundary(subject: &str, file: &str, start: u64) -> Payload {
    Payload::Boundary {
        subject: subject.to_owned(),
        file: file.to_owned(),
        start,
        relation: false,
    }
}

fn relation_boundary(owner: &str, file: &str, start: u64) -> Payload {
    Payload::Boundary {
        subject: owner.to_owned(),
        file: file.to_owned(),
        start,
        relation: true,
    }
}

fn provenance(alias: &str, key: &str, file: &str, start: u64, end: u64) -> CallableFactProvenance {
    CallableFactProvenance {
        member_alias: alias.to_owned(),
        repository_namespace: format!("repository-{alias}"),
        compilation_id: ":app/main".to_owned(),
        generation_ref: object(
            "codeclew-generation-manifest/2.0",
            &format!("generation-{alias}"),
        ),
        input_fact_key: key.to_owned(),
        input_payload_ref: object("codeclew-kotlin-semantic-fact/1.0", &format!("{alias}:{key}")),
        source: Some(SourceAnchor {
            path: file.to_owned(),
            content_ref: object(
                "codeclew-repository-source-content/1.0",
                &format!("{alias}:{file}"),
            ),
            start: Some(start),
            end: Some(end),
        }),
    }
}

fn fact(alias: &str, payload: &Payload) -> CallableFact {
    match payload {
        Payload::Descriptor {
            callable,
            jvm,
            return_type,
            file,
            start,
        } => {
            let owner = format!("class:{}", callable.rsplit_once('.').unwrap().0);
            let symbol = format!("callable:{callable}#jvm:{jvm}");
            let shape = Json::object()
                .with("symbolIdentity", text(&symbol))
                .with("declarationKind", text("FUNCTION"))
                .with("ownerIdentity", text(&owner))
                .with("returnType", text(return_type))
                .with("jvmDescriptor", text(jvm));
            let label = format!("{alias}:{symbol}:{file}:{start}");
            let key = format!("kotlin:descriptor:{}", &digest(&label)[7..]);
            CallableFact::Declaration(DeclarationFact {
                fact_id: digest(&label),
                provenance: provenance(alias, &key, file, *start, start + 8),
                declaration_kind: DeclarationKind::Function,
                symbol_identity: symbol,
                owner_identity: owner.clone(),
                containment: vec![owner],
                compiler_callable_id: Some(callable.clone()),
                compiler_class_id: None,
                exact_eligible: true,
                shape_digest: Some(canonical::hash(&shape)),
                projected_shape: shape,
            })
        }
        Payload::Boundary {
            subject,
            file,
            start,
            relation,
        } => {
            let label = format!("{alias}:{subject}:{file}:{start}");
            let (kind, stage, code) = if *relation {
                ("relation-boundary", "CALL_RESOLUTION", "UNRESOLVED_RELATION_TARGET")
            } else {
                ("descriptor-boundary", "DECLARATION", "UNRESOLVED_DESCRIPTOR_TYPE")
            };
            let key = format!("kotlin:{kind}:{}", &digest(&label)[7..]);
            CallableFact::Boundary(BoundaryFact {
                fact_id: digest(&label),
                provenance: provenance(alias, &key, file, *start, start + 1),
                stage: stage.to_owned(),
                code: code.to_owned(),
                subject: Some(subject.clone()),
                required_checks: vec![format!("VERIFY_{code}")],
            })
        }
    }
}

fn coverage(partial: bool) -> GraphCoverage {
    if partial {
        GraphCoverage::Partial
    } else {
        GraphCoverage::CompleteSupportedSubset
    }
}

fn member(alias: &str, payloads: &[Payload]) -> CallableMemberBinding {
    let partial = |wanted: bool| {
        payloads
            .iter()
            .any(|payload| matches!(payload, Payload::Boundary { relation, .. } if *relation == wanted))
    };
    CallableMemberBinding {
        member_alias: alias.to_owned(),
        service_alias: format!("{alias}-service"),
        session_id: format!("session:{alias}"),
        session_authority_digest: digest(&format!("session-{alias}")),
        repository_namespace: format!("repository-{alias}"),
        base_revision: digest(&format!("revision-{alias}")),
        snapshot_ref: object(
            "codeclew-repository-input-snapshot/1.0",
            &format!("snapshot-{alias}"),
        ),
        compilations: vec![CallableCompilationBinding {
            compilation_id: ":app/main".to_owned(),
            generation_id: digest(&format!("generation-id-{alias}")),
            generation_ref: object(
                "codeclew-generation-manifest/2.0",
                &format!("generation-{alias}"),
            ),
            semantic_authority: "K2_FIR".to_owned(),
            extractor_id: "fir-facts-extractor/0.6".to_owned(),
            adapter_digest: digest("adapter"),
            runtime_digest: digest("runtime"),
            descriptor_coverage: coverage(partial(false)),
            relation_coverage: coverage(partial(true)),
        }],
    }
}

fn fact_set_as(
    left: Vec<Payload>,
    right: Vec<Payload>,
    relationship_authority: RelationshipAuthority,
) -> PreparedCallableFactSet {
    let mut facts = Vec::new();
    for payload in &left {
        facts.push(fact("left", payload));
    }
    for payload in &right {
        facts.push(fact("right", payload));
    }
    facts.sort_by(|a, b| a.fact_id().cmp(b.fact_id()));
    let bounded = facts
        .iter()
        .any(|fact| matches!(fact, CallableFact::Boundary(_)));
    let shard = CallableFactShard {
        schema: "codeclew-kotlin-callable-fact-shard/1.0".to_owned(),
        facts,
    };
    let bytes = shard.to_json().bytes();
    let reference = CasObject::for_bytes("codeclew-kotlin-callable-fact-shard/1.0", &bytes);
    let query_index_ref = object("codeclew-kotlin-callable-query-index/1.0", "index");
    let evidence_ref = object("codeclew-kotlin-callable-evidence/1.0", "evidence");
    let authority_digest = digest(&format!("fact-set-{}", reference.digest));
    PreparedCallableFactSet {
        fact_set_id: format!("callable-fact-set:{authority_digest}"),
        authority: CallableFactSetAuthority {
            binding_digest: digest("binding"),
            thread_id: "thread:test".to_owned(),
            thread_authority_digest: digest("thread"),
            profile_digest: digest("profile"),
            pairs: vec![CallablePairBinding {
                pair_id: "pair-one".to_owned(),
                provider_member: "left".to_owned(),
                consumer_member: "right".to_owned(),
                relationship_authority,
                dependency_evidence_ref: None,
            }],
            members: vec![member("left", &left), member("right", &right)],
            completeness: CallableCompleteness {
                certainty: if bounded {
                    CallableFactSetCertainty::Unsure
                } else {
                    CallableFactSetCertainty::Verified
                },
                coverage: if bounded {
                    CallableFactSetCoverage::Partial
                } else {
                    CallableFactSetCoverage::Complete
                },
            },
            fact_shards: vec![reference.copied()],
            query_index_ref: query_index_ref.copied(),
            evidence_ref: evidence_ref.copied(),
            direct_cas_closure: vec![reference.copied(), query_index_ref, evidence_ref],
            authority_digest,
        },
        fact_shards: vec![PreparedFactShard {
            reference,
            bytes,
            shard: Some(shard),
        }],
    }
}

fn fact_set(left: Vec<Payload>, right: Vec<Payload>) -> PreparedCallableFactSet {
    fact_set_as(left, right, RelationshipAuthority::DeclaredTopology)
}

fn words(value: &str) -> Vec<String> {
    let mut words: Vec<String> = Vec::new();
    let mut word = String::new();
    for c in value.chars() {
        if !c.is_alphanumeric() || c.is_uppercase() {
            if !word.is_empty() {
                words.push(word.clone());
            }
            word.clear();
        }
        if c.is_alphanumeric() {
            word.extend(c.to_lowercase());
        }
    }
    words.push(word);
    words
}

fn found(fact: &CallableFact, lookup: &CallableLookup) -> bool {
    let CallableFact::Declaration(row) = fact else {
        return false;
    };
    match lookup {
        CallableLookup::FullSymbol {
            repository_namespace,
            symbol_identity,
        } => {
            row.provenance.repository_namespace == *repository_namespace
                && row.symbol_identity == *symbol_identity
        }
        CallableLookup::CallableFamily { callable_id, .. } => {
            row.compiler_callable_id.as_ref() == Some(callable_id)
        }
        CallableLookup::Token { term } => {
            words(row.compiler_callable_id.as_ref().unwrap()).contains(term)
        }
    }
}

/// What the index of a fact set would find.
fn trace(
    prepared: &PreparedCallableFactSet,
    request: &ThreadImpactRequest,
) -> Result<CallableQueryTrace, ClewError> {
    let query = plan_query(prepared, request)?;
    let mut matched_fact_ids = Vec::new();
    for entry in fact_entries(prepared)? {
        if query.lookups.iter().any(|lookup| found(&entry.fact, lookup)) {
            matched_fact_ids.push(entry.fact.fact_id().clone());
        }
    }
    Ok(CallableQueryTrace {
        matched_fact_ids,
        query_shard_refs: vec![object("codeclew-kotlin-callable-query-shard/1.0", "shard")],
    })
}

fn request(
    prepared: &PreparedCallableFactSet,
    subject: KotlinImpactSubject,
) -> ThreadImpactRequest {
    ThreadImpactRequest {
        fact_set_authority_digest: prepared.authority.authority_digest.clone(),
        pair_id: "pair-one".to_owned(),
        subject,
        budgets: ImpactBudgets::frozen(),
    }
}

fn family(callable: &str) -> KotlinImpactSubject {
    KotlinImpactSubject::CallableFamily {
        callable_id: callable.to_owned(),
    }
}

fn selected(
    prepared: &PreparedCallableFactSet,
    subject: KotlinImpactSubject,
) -> Result<ImpactQuerySelection, ClewError> {
    let request = request(prepared, subject);
    let trace = trace(prepared, &request)?;
    select(prepared, &None, &request, &trace)
}

fn built(
    prepared: &PreparedCallableFactSet,
    subject: KotlinImpactSubject,
) -> Result<PreparedThreadImpact, ClewError> {
    let request = request(prepared, subject);
    let trace = trace(prepared, &request)?;
    build(prepared, &None, &request, &trace)
}

fn verified(
    prepared: &PreparedCallableFactSet,
    impact: &PreparedThreadImpact,
) -> Result<(), ClewError> {
    let trace = trace(prepared, &impact.authority.request)?;
    verify_prepared(prepared, &None, impact, Some(&trace))
}

fn one_sided() -> PreparedCallableFactSet {
    fact_set(
        vec![descriptor(
            "p/Orders.findOrder",
            "()Ljava/lang/String;",
            "kotlin/String",
            "src/Left.kt",
            0,
        )],
        vec![],
    )
}

fn numbered(base: &CallableFact, index: usize) -> CallableFact {
    let mut fact = base.copied();
    let CallableFact::Declaration(row) = &mut fact else {
        panic!("fixture declaration expected")
    };
    row.fact_id = format!("fact-{index:05}");
    fact
}

fn repeated_candidates(prepared: &PreparedCallableFactSet, count: usize) -> Vec<Candidate> {
    let base = fact_entries(prepared).unwrap().remove(0);
    (0..count)
        .map(|index| Candidate {
            side: ImpactSide::Provider,
            member_alias: "left".to_owned(),
            fact: numbered(&base.fact, index),
            shard_ref: base.shard_ref.copied(),
        })
        .collect()
}

fn findings_with_source_spans(
    prepared: &PreparedCallableFactSet,
    count: usize,
    span_bytes: u64,
) -> Vec<ImpactFinding> {
    let selection = selected(prepared, family("p/Orders.findOrder")).unwrap();
    let template = &selection.findings[0];
    (0..count)
        .map(|index| {
            let mut finding = template.copied();
            finding.finding_id = format!("finding-{index:05}");
            let source = finding.evidence.provenance.source.as_mut().unwrap();
            source.path = format!("src/Window{index:05}.kt");
            source.start = Some(0);
            source.end = Some(span_bytes);
            source.content_ref = object(
                "codeclew-repository-source-content/1.0",
                &format!("source-window-{index:05}"),
            );
            source.content_ref.size = span_bytes.max(1);
            finding
        })
        .collect()
}

#[test]
fn exact_family_shapes_report_equal_and_delta_without_upgrading_topology() {
    let equal_facts = fact_set(
        vec![descriptor(
            "p/Orders.findOrder",
            "()Ljava/lang/String;",
            "kotlin/String",
            "src/Left.kt",
            0,
        )],
        vec![descriptor(
            "p/Orders.findOrder",
            "()Ljava/lang/String;",
            "kotlin/String",
            "src/Right.kt",
            10,
        )],
    );
    let equal = built(&equal_facts, family("p/Orders.findOrder")).unwrap();
    assert_eq!(
        equal.authority.shape_status,
        ImpactShapeStatus::ExactProjectedShapeEqual
    );
    assert_eq!(equal.authority.certainty, ImpactCertainty::Unsure);
    assert_eq!(
        equal.authority.relationship_authority,
        RelationshipAuthority::DeclaredTopology
    );
    assert_eq!(equal.authority.members.len(), 2);
    assert!(equal.authority.members.iter().all(|member| member.observed));
    assert!(equal.projection_bytes.len() < MAX_IMPACT_STDOUT_BYTES);
    assert!(!equal.projection.findings.is_empty());
    assert!(matches!(
        equal.projection.findings[0].detail,
        ImpactFindingDetail::Declaration { .. }
    ));
    assert_eq!(
        equal.projection.obligations.len(),
        equal.authority.obligation_count
    );
    assert!(!equal.projection.source_windows.is_empty());
    verified(&equal_facts, &equal).unwrap();
    let mut tampered = equal.copied();
    tampered.projection.findings[0].shape_digest = Some(digest("tampered"));
    assert!(verified(&equal_facts, &tampered).is_err());

    let delta_facts = fact_set(
        vec![descriptor(
            "p/Orders.findOrder",
            "()Ljava/lang/String;",
            "kotlin/String",
            "src/Left.kt",
            0,
        )],
        vec![descriptor(
            "p/Orders.findOrder",
            "()I",
            "kotlin/Int",
            "src/Right.kt",
            10,
        )],
    );
    let delta = selected(&delta_facts, family("p/Orders.findOrder")).unwrap();
    assert_eq!(
        delta.shape_status,
        ImpactShapeStatus::ExactProjectedShapeDelta
    );
}

#[test]
fn a_verified_dependency_with_exact_shapes_is_verified() {
    let side = |file: &str| {
        vec![descriptor(
            "p/Orders.findOrder",
            "()Ljava/lang/String;",
            "kotlin/String",
            file,
            0,
        )]
    };
    let prepared = fact_set_as(
        side("src/Left.kt"),
        side("src/Right.kt"),
        RelationshipAuthority::VerifiedSameSnapshotCompilationDependency,
    );
    let impact = selected(&prepared, family("p/Orders.findOrder")).unwrap();
    assert_eq!(impact.certainty, ImpactCertainty::Verified);
    assert!(impact.obligations.is_empty());
}

#[test]
fn overload_family_is_ambiguous_and_never_exact() {
    let prepared = fact_set(
        vec![
            descriptor(
                "p/Orders.findOrder",
                "()Ljava/lang/String;",
                "kotlin/String",
                "src/Left.kt",
                0,
            ),
            descriptor(
                "p/Orders.findOrder",
                "(I)Ljava/lang/String;",
                "kotlin/String",
                "src/Left.kt",
                20,
            ),
        ],
        vec![descriptor(
            "p/Orders.findOrder",
            "()Ljava/lang/String;",
            "kotlin/String",
            "src/Right.kt",
            10,
        )],
    );
    let impact = selected(&prepared, family("p/Orders.findOrder")).unwrap();
    assert_eq!(impact.shape_status, ImpactShapeStatus::Unsure);
    assert!(impact.obligations.iter().any(|obligation| {
        obligation.code == ImpactObligationCode::DisambiguateOverloadSet
            && obligation.member_alias.as_deref() == Some("left")
    }));
    assert_eq!(
        impact
            .findings
            .iter()
            .filter(|finding| finding.side == ImpactSide::Provider)
            .filter(|finding| {
                finding.authority == ImpactFindingAuthority::ExactProjectedDeclaration
            })
            .count(),
        2,
        "each compiler-projected overload stays exact even though the family aggregate is UNSURE"
    );
}

#[test]
fn token_is_navigation_only_and_missing_side_is_explicit() {
    let prepared = one_sided();
    let impact = selected(
        &prepared,
        KotlinImpactSubject::Token {
            term: "FIND".to_owned(),
        },
    )
    .unwrap();
    assert_eq!(
        impact.subject,
        KotlinImpactSubject::Token {
            term: "find".to_owned()
        }
    );
    assert_eq!(impact.shape_status, ImpactShapeStatus::NotComparable);
    assert!(!impact.findings.is_empty());
    assert!(impact.findings.iter().all(|finding| {
        finding.authority != ImpactFindingAuthority::ExactProjectedDeclaration
    }));
    assert!(impact.obligations.iter().any(|obligation| {
        obligation.code == ImpactObligationCode::SubjectNotObservedInMember
            && obligation.member_alias.as_deref() == Some("right")
    }));
}

#[test]
fn full_symbol_is_exact_only_in_the_explicit_selected_namespace() {
    let prepared = fact_set(
        vec![descriptor(
            "p/Orders.findOrder",
            "()Ljava/lang/String;",
            "kotlin/String",
            "src/Left.kt",
            0,
        )],
        vec![descriptor(
            "p/Orders.findOrder",
            "()Ljava/lang/String;",
            "kotlin/String",
            "src/Right.kt",
            10,
        )],
    );
    let impact = selected(
        &prepared,
        KotlinImpactSubject::FullSymbol {
            symbol_identity: "callable:p/Orders.findOrder#jvm:()Ljava/lang/String;".to_owned(),
            member_alias: Some("left".to_owned()),
        },
    )
    .unwrap();
    assert_eq!(impact.shape_status, ImpactShapeStatus::NotComparable);
    assert_eq!(impact.findings.len(), 1);
    assert_eq!(
        impact.findings[0].authority,
        ImpactFindingAuthority::ExactProjectedDeclaration
    );
    assert_eq!(impact.findings[0].member_alias, "left");
    assert!(impact.members[0].exact_shape_digest.is_some());
    assert!(impact.members[1].exact_shape_digest.is_none());
    assert!(!impact.consulted_query_shard_refs.is_empty());
}

#[test]
fn relevant_boundary_downgrades_but_unrelated_boundary_does_not() {
    let relevant = fact_set(
        vec![
            descriptor(
                "p/Orders.findOrder",
                "()Ljava/lang/String;",
                "kotlin/String",
                "src/Left.kt",
                0,
            ),
            boundary("class:p/Orders", "src/Left.kt", 30),
        ],
        vec![descriptor(
            "p/Orders.findOrder",
            "()Ljava/lang/String;",
            "kotlin/String",
            "src/Right.kt",
            10,
        )],
    );
    let relevant_impact = selected(&relevant, family("p/Orders.findOrder")).unwrap();
    assert_eq!(relevant_impact.shape_status, ImpactShapeStatus::Unsure);
    assert!(relevant_impact
        .findings
        .iter()
        .any(|finding| finding.fact_kind == CallableFactKind::Boundary));
    let boundary_obligation = relevant_impact
        .obligations
        .iter()
        .find(|obligation| obligation.code == ImpactObligationCode::VerifyBoundaryCheck)
        .expect("owner-scoped boundary required check");
    assert_eq!(
        boundary_obligation.required_check.as_deref(),
        Some("VERIFY_UNRESOLVED_DESCRIPTOR_TYPE")
    );
    assert!(relevant_impact.obligation_evidence.iter().any(|evidence| {
        Some(evidence.fact_id.as_str()) == boundary_obligation.fact_id.as_deref()
    }));

    let unrelated = fact_set(
        vec![
            descriptor(
                "p/Orders.findOrder",
                "()Ljava/lang/String;",
                "kotlin/String",
                "src/Left.kt",
                0,
            ),
            relation_boundary("callable:p/Other.load#jvm:()V", "src/Left.kt", 30),
        ],
        vec![descriptor(
            "p/Orders.findOrder",
            "()Ljava/lang/String;",
            "kotlin/String",
            "src/Right.kt",
            10,
        )],
    );
    let unrelated_impact = selected(&unrelated, family("p/Orders.findOrder")).unwrap();
    assert_eq!(
        unrelated_impact.shape_status,
        ImpactShapeStatus::ExactProjectedShapeEqual
    );
    assert!(unrelated_impact.obligations.iter().any(|obligation| {
        obligation.code == ImpactObligationCode::VerifyFactSetBoundaryScope
    }));
}

#[test]
fn payload_permutation_preserves_impact_identity() {
    let mut left = vec![
        descriptor(
            "p/Orders.findOrder",
            "()Ljava/lang/String;",
            "kotlin/String",
            "src/Left.kt",
            0,
        ),
        descriptor("p/Other.load", "()V", "kotlin/Unit", "src/Other.kt", 20),
    ];
    let right = vec![descriptor(
        "p/Orders.findOrder",
        "()Ljava/lang/String;",
        "kotlin/String",
        "src/Right.kt",
        10,
    )];
    let first = fact_set(left.clone(), right.clone());
    left.reverse();
    let second = fact_set(left, right);
    let one = built(&first, family("p/Orders.findOrder")).unwrap();
    let two = built(&second, family("p/Orders.findOrder")).unwrap();
    assert_eq!(
        first.authority.authority_digest,
        second.authority.authority_digest
    );
    assert!(one.same_as(&two));
}

fn check_obligations(count: usize) -> Result<Vec<ImpactObligation>, ClewError> {
    checked_obligations(
        (0..count)
            .map(|index| {
                obligation(
                    ImpactObligationCode::VerifyBoundaryCheck,
                    Some("left"),
                    Some(&format!("fact-{index:05}")),
                    Some("VERIFY"),
                )
            })
            .collect(),
        MAX_IMPACT_OBLIGATIONS,
    )
}

#[test]
fn obligation_limit_accepts_exact_and_rejects_plus_one() {
    assert!(check_obligations(MAX_IMPACT_OBLIGATIONS).is_ok());
    assert!(check_obligations(MAX_IMPACT_OBLIGATIONS + 1).is_err());
}

#[test]
fn finding_limit_accepts_exact_and_truncates_limit_plus_one() {
    let prepared = one_sided();
    let (at_limit, at_limit_truncated) = fair_take_candidates(
        &repeated_candidates(&prepared, MAX_IMPACT_FINDINGS),
        MAX_IMPACT_FINDINGS,
    );
    assert_eq!(at_limit.len(), MAX_IMPACT_FINDINGS);
    assert!(!at_limit_truncated);

    let (over_limit, over_limit_truncated) = fair_take_candidates(
        &repeated_candidates(&prepared, MAX_IMPACT_FINDINGS + 1),
        MAX_IMPACT_FINDINGS,
    );
    assert_eq!(over_limit.len(), MAX_IMPACT_FINDINGS);
    assert!(over_limit_truncated);
    assert_eq!(
        at_limit
            .iter()
            .map(|candidate| candidate.fact.fact_id())
            .collect::<Vec<_>>(),
        over_limit
            .iter()
            .map(|candidate| candidate.fact.fact_id())
            .collect::<Vec<_>>()
    );
}

#[test]
fn retained_byte_limit_accepts_exact_and_rejects_limit_plus_one() {
    let sized_reference = |label: &str, size: usize| {
        let mut reference = object("codeclew-test-impact-retained/1.0", label);
        reference.size = u64::try_from(size).unwrap();
        reference
    };
    let (closure, retained_bytes) = canonical_cas_closure(
        &vec![sized_reference("exact", MAX_IMPACT_RETAINED_CLOSURE_BYTES)],
        MAX_IMPACT_RETAINED_CLOSURE_BYTES,
    )
    .unwrap();
    assert_eq!(closure.len(), 1);
    assert_eq!(retained_bytes, MAX_IMPACT_RETAINED_CLOSURE_BYTES);

    let error = canonical_cas_closure(
        &vec![sized_reference(
            "plus-one",
            MAX_IMPACT_RETAINED_CLOSURE_BYTES + 1,
        )],
        MAX_IMPACT_RETAINED_CLOSURE_BYTES,
    )
    .unwrap_err();
    assert_eq!(error.code, ErrorCode::SliceBudgetExceeded);
}

#[test]
fn derived_cas_object_limit_accepts_exact_and_rejects_limit_plus_one() {
    assert_eq!(
        checked_derived_cas_object_count(
            MAX_IMPACT_DERIVED_CAS_OBJECTS,
            MAX_IMPACT_DERIVED_CAS_OBJECTS,
        )
        .unwrap(),
        MAX_IMPACT_DERIVED_CAS_OBJECTS
    );
    let error = checked_derived_cas_object_count(
        MAX_IMPACT_DERIVED_CAS_OBJECTS + 1,
        MAX_IMPACT_DERIVED_CAS_OBJECTS,
    )
    .unwrap_err();
    assert_eq!(error.code, ErrorCode::SliceBudgetExceeded);
}

#[test]
fn source_window_count_and_byte_limits_truncate_only_limit_plus_one() {
    let prepared = one_sided();
    let exact_count = findings_with_source_spans(&prepared, MAX_IMPACT_SOURCE_WINDOWS, 1);
    let (windows, truncated) = select_source_windows(
        "sha256:test",
        &exact_count,
        MAX_IMPACT_SOURCE_WINDOWS,
        MAX_IMPACT_SOURCE_WINDOW_BYTES,
    )
    .unwrap();
    assert_eq!(windows.len(), MAX_IMPACT_SOURCE_WINDOWS);
    assert!(!truncated);

    let plus_one_count = findings_with_source_spans(&prepared, MAX_IMPACT_SOURCE_WINDOWS + 1, 1);
    let (windows, truncated) = select_source_windows(
        "sha256:test",
        &plus_one_count,
        MAX_IMPACT_SOURCE_WINDOWS,
        MAX_IMPACT_SOURCE_WINDOW_BYTES,
    )
    .unwrap();
    assert_eq!(windows.len(), MAX_IMPACT_SOURCE_WINDOWS);
    assert!(truncated);

    let exact_bytes =
        findings_with_source_spans(&prepared, 1, MAX_IMPACT_SOURCE_WINDOW_BYTES as u64);
    let (windows, truncated) = select_source_windows(
        "sha256:test",
        &exact_bytes,
        MAX_IMPACT_SOURCE_WINDOWS,
        MAX_IMPACT_SOURCE_WINDOW_BYTES,
    )
    .unwrap();
    assert_eq!(windows.len(), 1);
    assert_eq!(windows[0].span_bytes, MAX_IMPACT_SOURCE_WINDOW_BYTES);
    assert!(!truncated);

    let plus_one_bytes =
        findings_with_source_spans(&prepared, 1, (MAX_IMPACT_SOURCE_WINDOW_BYTES + 1) as u64);
    let (windows, truncated) = select_source_windows(
        "sha256:test",
        &plus_one_bytes,
        MAX_IMPACT_SOURCE_WINDOWS,
        MAX_IMPACT_SOURCE_WINDOW_BYTES,
    )
    .unwrap();
    assert!(windows.is_empty());
    assert!(truncated);
}

#[test]
fn stdout_bound_trims_findings_but_fails_closed_for_mandatory_projection() {
    let exact_projection_bytes = MAX_IMPACT_STDOUT_BYTES - IMPACT_STDOUT_ENVELOPE_RESERVE;
    assert!(
        exact_projection_bytes.saturating_add(IMPACT_STDOUT_ENVELOPE_RESERVE)
            <= MAX_IMPACT_STDOUT_BYTES
    );
    assert!(
        (exact_projection_bytes + 1).saturating_add(IMPACT_STDOUT_ENVELOPE_RESERVE)
            > MAX_IMPACT_STDOUT_BYTES
    );

    let many_declarations = (0..64)
        .map(|index| {
            let jvm_descriptor = format!("(Lp/Argument{index};)Ljava/lang/String;");
            descriptor(
                "p/Orders.findOrder",
                &jvm_descriptor,
                "kotlin/String",
                &format!("src/Declaration{index:05}.kt"),
                u64::try_from(index * 16).unwrap(),
            )
        })
        .collect();
    let trimmable = fact_set(
        many_declarations,
        vec![descriptor(
            "p/Orders.findOrder",
            "()Ljava/lang/String;",
            "kotlin/String",
            "src/Right.kt",
            0,
        )],
    );
    let trimmed = built(&trimmable, family("p/Orders.findOrder")).unwrap();
    assert!(trimmed.authority.public_findings_truncated);
    assert!(trimmed.authority.public_findings.len() < trimmed.authority.finding_count);
    assert_eq!(
        trimmed.projection.obligations.len(),
        trimmed.authority.obligation_count
    );
    assert_eq!(
        trimmed.projection.source_windows.len(),
        trimmed.authority.source_window_count
    );
    assert!(
        trimmed
            .projection_bytes
            .len()
            .saturating_add(IMPACT_STDOUT_ENVELOPE_RESERVE)
            <= MAX_IMPACT_STDOUT_BYTES
    );

    let mut mandatory_rows = vec![descriptor(
        "p/Orders.findOrder",
        "()Ljava/lang/String;",
        "kotlin/String",
        "src/Left.kt",
        0,
    )];
    mandatory_rows.extend((0..160).map(|index| {
        boundary(
            "class:p/Orders",
            &format!("src/Boundary{index:05}.kt"),
            u64::try_from(index * 2 + 16).unwrap(),
        )
    }));
    let fail_closed = fact_set(
        mandatory_rows,
        vec![descriptor(
            "p/Orders.findOrder",
            "()Ljava/lang/String;",
            "kotlin/String",
            "src/Right.kt",
            0,
        )],
    );
    let Err(error) = built(&fail_closed, family("p/Orders.findOrder")) else {
        panic!("mandatory projection does not fit")
    };
    assert_eq!(error.code, ErrorCode::SliceBudgetExceeded);
    assert!(error.message.contains("obligations/source anchors"));
}

#[test]
fn omitted_obligation_fact_keeps_a_deduplicated_evidence_pointer() {
    let prepared = one_sided();
    let base = fact_entries(&prepared).unwrap().remove(0);
    let candidates = (0..=MAX_IMPACT_FINDINGS)
        .map(|index| {
            let mut fact = numbered(&base.fact, index);
            let CallableFact::Declaration(row) = &mut fact else {
                panic!("fixture declaration expected")
            };
            row.exact_eligible = index != MAX_IMPACT_FINDINGS;
            Candidate {
                side: ImpactSide::Provider,
                member_alias: "left".to_owned(),
                fact,
                shard_ref: base.shard_ref.copied(),
            }
        })
        .collect::<Vec<_>>();
    let omitted_id = format!("fact-{MAX_IMPACT_FINDINGS:05}");
    let (selected, truncated) = fair_take_candidates(&candidates, MAX_IMPACT_FINDINGS);
    assert!(truncated);
    assert!(selected
        .iter()
        .all(|candidate| candidate.fact.fact_id() != &omitted_id));
    let obligations = vec![obligation(
        ImpactObligationCode::VerifyDeclarationEvidence,
        Some("left"),
        Some(&omitted_id),
        None,
    )];
    let evidence = obligation_evidence(&obligations, &candidates).unwrap();
    assert_eq!(evidence.len(), 1);
    assert_eq!(evidence[0].fact_id, omitted_id);
    assert_eq!(evidence[0].fact_shard_ref, base.shard_ref);
}

#[test]
fn source_windows_are_a_strict_prefix_when_the_first_span_is_oversized() {
    let prepared = one_sided();
    let selection = selected(&prepared, family("p/Orders.findOrder")).unwrap();
    let mut first = selection.findings[0].copied();
    first.finding_id = "finding-a".to_owned();
    let first_source = first.evidence.provenance.source.as_mut().unwrap();
    first_source.path = "a.kt".to_owned();
    first_source.start = Some(0);
    first_source.end = Some(11);
    let mut second = first.copied();
    second.finding_id = "finding-b".to_owned();
    let second_source = second.evidence.provenance.source.as_mut().unwrap();
    second_source.path = "b.kt".to_owned();
    second_source.end = Some(1);
    let (windows, truncated) =
        select_source_windows("sha256:test", &vec![first, second], 2, 10).unwrap();
    assert!(truncated);
    assert!(windows.is_empty());
}

#[test]
fn an_inconsistent_source_range_is_corrupt() {
    let prepared = one_sided();
    let mut findings = findings_with_source_spans(&prepared, 1, 4);
    findings[0].evidence.provenance.source.as_mut().unwrap().end = None;
    let error = select_source_windows("sha256:test", &findings, 2, 10).unwrap_err();
    assert_eq!(error.code, ErrorCode::StateCorrupt);
}

#[test]
fn closed_subject_validation_rejects_implicit_full_symbol_and_path_like_family() {
    let prepared = one_sided();
    let full = KotlinImpactSubject::FullSymbol {
        symbol_identity: "callable:p/Orders.findOrder#jvm:()Ljava/lang/String;".to_owned(),
        member_alias: None,
    };
    assert!(selected(&prepared, full).is_err());
    assert!(selected(&prepared, family("../../private/path")).is_err());
}

#[test]
fn a_request_for_another_fact_set_is_refused() {
    let prepared = one_sided();
    let mut request = request(&prepared, family("p/Orders.findOrder"));
    request.fact_set_authority_digest = digest("another");
    let Err(error) = plan_query(&prepared, &request) else {
        panic!("bound to a different fact set")
    };
    assert_eq!(error.code, ErrorCode::InvalidInput);
}

#[test]
fn subjects_know_their_kind_and_budgets_are_frozen() {
    assert_eq!(family("p/A.b").kind(), ImpactSubjectKind::CallableFamily);
    let mut budgets = ImpactBudgets::frozen();
    assert!(budgets.validate().is_ok());
    budgets.max_findings += 1;
    assert!(budgets.validate().is_err());
}

#[test]
fn a_refused_fact_set_refuses_its_impacts() {
    let prepared = one_sided();
    let subject = KotlinImpactSubject::CallableFamily {
        callable_id: "p/left".to_owned(),
    };
    let request = request(&prepared, subject);
    let none = CallableQueryTrace {
        matched_fact_ids: Vec::new(),
        query_shard_refs: Vec::new(),
    };
    let refusal = Some(ClewError::new(ErrorCode::StateCorrupt, "fact set is corrupt"));
    let error = build(&prepared, &refusal, &request, &none).err().unwrap();
    assert_eq!(Some(error), refusal);
    let error = select(&prepared, &refusal, &request, &none).unwrap_err();
    assert_eq!(Some(error), refusal);
}
