//! Impacts and change sets as they are created, published and loaded again.

use clew::canonical;
use clew::cas::CasObject;
use clew::error::{ClewError, ErrorCode};
use clew::json::Json;
use clew::record::Record;
use clew::retained::{ObjectRead, Publication};
use clew::thread::{
    ModelCachePolicy, RuntimeMode, SessionAuthority, SessionLanguage, ThreadAuthority,
    ThreadMemberBinding,
};
use clew::thread_callables::{
    CallableCompilationBinding, CallableCompleteness, CallableFact, CallableFactProvenance,
    CallableFactSetAuthority, CallableFactSetCertainty, CallableFactSetCoverage, CallableFactShard,
    CallableMemberBinding, CallablePairBinding, CallableQueryTrace, DeclarationFact,
    DeclarationKind, GraphCoverage, PreparedCallableFactSet, PreparedFactShard,
    RelationshipAuthority, SourceAnchor,
};
use clew::thread_change_set::{
    build_from_verified, verify_prepared_from_verified, write_document, ChangeSetBudgets,
    ChangeSetStatus, CoverageDocumentEntry, CoverageHandling, CoverageHandlingKind,
    KotlinChangeCoverageDocument, MemberCorrespondence, PreparedThreadChangeSet,
    ThreadChangeSetRequest, ValidatorRuntimeAuthority, VerificationCategory, VerifiedChangeSide,
    KOTLIN_CHANGE_COVERAGE_DOCUMENT_SCHEMA, MAX_CHANGE_COVERAGE_DOCUMENT_BYTES,
    MAX_CHANGE_COVERAGE_ENTRIES, MAX_CHANGE_STDOUT_BYTES,
};
use clew::thread_change_set_service;
use clew::thread_change_set_service::{
    enforce_serialized_bound, RetainedChangeSet, RetainedSide, ThreadChangeSetRoot,
    ThreadChangeSetServiceRequest, MAX_THREAD_CHANGE_SET_ROOT_BYTES,
};
use clew::thread_impact::{KotlinImpactSubject, PreparedThreadImpact, MAX_IMPACT_STDOUT_BYTES};
use clew::thread_impact_service;
use clew::thread_impact_service::{
    validate_selected_sources, RetainedImpact, ThreadImpactRoot, ThreadImpactServiceRequest,
};

fn digest(label: &str) -> String {
    canonical::hash_bytes(label.as_bytes())
}

fn text(value: &str) -> Json {
    Json::Str(value.to_owned())
}

/// Objects under their references.
struct Store {
    objects: Vec<(CasObject, Vec<u8>)>,
}

impl Store {
    fn put(&mut self, schema: &str, bytes: &[u8]) -> CasObject {
        let reference = CasObject::for_bytes(schema, bytes);
        self.objects.push((reference.copied(), bytes.to_vec()));
        reference
    }

    fn reads(&self) -> Vec<ObjectRead> {
        self.objects
            .iter()
            .map(|(reference, bytes)| ObjectRead {
                reference: reference.copied(),
                bytes: Some(bytes.clone()),
            })
            .collect()
    }

    fn has(&self, reference: &CasObject) -> bool {
        self.objects.iter().any(|(stored, _)| stored == reference)
    }

    fn without(&self, reference: &CasObject) -> Vec<ObjectRead> {
        let mut reads = self.reads();
        for read in &mut reads {
            if read.reference == *reference {
                read.bytes = None;
            }
        }
        reads
    }
}

fn session(phase: &str, repository: &str, alias: &str, seed: char) -> SessionAuthority {
    let oid = seed.to_string().repeat(40);
    let mut authority = SessionAuthority {
        schema: "codeclew-session/1.0".to_owned(),
        authority_digest: String::new(),
        session_id: format!("session:{phase}-{alias}"),
        repository_key: format!("repository:{repository}"),
        base_revision: oid.clone(),
        target_ref: "refs/heads/main".to_owned(),
        target_oid: oid,
        runtime_key: digest("runtime"),
        runtime_mode: RuntimeMode::Development,
        language: SessionLanguage::Kotlin,
        compilations: vec![":/main".to_owned()],
        generation_jobs: None,
        model_cache_policy: ModelCachePolicy::NonCacheable,
        model_cache_authority: None,
        created_unix_ms: 1,
    };
    authority.authority_digest = canonical::hash(&authority.to_json());
    authority
}

fn thread(id: &str, members: Vec<ThreadMemberBinding>) -> ThreadAuthority {
    let mut authority = ThreadAuthority {
        schema: "codeclew-thread/1.0".to_owned(),
        authority_digest: String::new(),
        semantic_digest: canonical::hash(&members.to_json()),
        thread_id: id.to_owned(),
        created_unix_ms: 1,
        members,
    };
    authority.authority_digest = canonical::hash(&authority.to_json());
    authority
}

fn binding(alias: &str, service: &str, session: &SessionAuthority) -> ThreadMemberBinding {
    ThreadMemberBinding {
        member_alias: alias.to_owned(),
        service_alias: service.to_owned(),
        session: session.copied(),
    }
}

fn callable_member(
    member: &ThreadMemberBinding,
    role: &str,
    phase: &str,
    store: &mut Store,
) -> CallableMemberBinding {
    CallableMemberBinding {
        member_alias: member.member_alias.clone(),
        service_alias: member.service_alias.clone(),
        session_id: member.session.session_id.clone(),
        session_authority_digest: member.session.authority_digest.clone(),
        repository_namespace: member.session.repository_key.clone(),
        base_revision: member.session.base_revision.clone(),
        snapshot_ref: store.put(
            "codeclew-repository-input-snapshot/1.0",
            format!("{role}-{phase}-snapshot").as_bytes(),
        ),
        compilations: vec![CallableCompilationBinding {
            compilation_id: ":/main".to_owned(),
            generation_id: digest(&format!("generation-{phase}-{role}")),
            generation_ref: store.put(
                "codeclew-generation-manifest/2.0",
                format!("{role}-{phase}-generation").as_bytes(),
            ),
            semantic_authority: "K2_FIR".to_owned(),
            extractor_id: "fir-facts-extractor/0.6".to_owned(),
            adapter_digest: digest("adapter"),
            runtime_digest: digest("runtime"),
            descriptor_coverage: GraphCoverage::CompleteSupportedSubset,
            relation_coverage: GraphCoverage::CompleteSupportedSubset,
        }],
    }
}

fn descriptor(
    store: &mut Store,
    member: &CallableMemberBinding,
    file: &str,
    start: u64,
    source: &CasObject,
    return_type: &str,
    jvm: &str,
    parameters: usize,
) -> CallableFact {
    let symbol = format!("callable:com/acme/publicDescriptor#jvm:{jvm}");
    let mut parameter_types = Vec::new();
    for _ in 0..parameters {
        parameter_types.push(text("kotlin/Int"));
    }
    let shape = Json::object()
        .with("symbolIdentity", text(&symbol))
        .with("declarationKind", text("FUNCTION"))
        .with("ownerIdentity", text("class:com/acme"))
        .with("containment", Json::Arr(vec![text("class:com/acme")]))
        .with("visibility", text("public"))
        .with("effectiveVisibility", text("public"))
        .with("exportBoundary", text("PUBLIC_API"))
        .with("modality", text("FINAL"))
        .with("typeParameters", Json::Arr(Vec::new()))
        .with("compilerCallableId", text("com/acme/publicDescriptor"))
        .with("isOverride", Json::Bool(false))
        .with("jvmDescriptor", text(jvm))
        .with("returnType", text(return_type))
        .with("returnNullable", Json::Bool(false))
        .with("parameterTypes", Json::Arr(parameter_types));
    let payload = shape
        .copied()
        .with("file", text(file))
        .with("start", Json::Uint(start))
        .with("end", Json::Uint(start + 8));
    let payload_ref = store.put("codeclew-kotlin-semantic-fact/1.0", &payload.bytes());
    let key = format!("kotlin:descriptor:{}", &payload_ref.digest[7..]);
    CallableFact::Declaration(DeclarationFact {
        fact_id: digest(&format!("{}:{key}", member.member_alias)),
        provenance: CallableFactProvenance {
            member_alias: member.member_alias.clone(),
            repository_namespace: member.repository_namespace.clone(),
            compilation_id: ":/main".to_owned(),
            generation_ref: member.compilations[0].generation_ref.copied(),
            input_fact_key: key,
            input_payload_ref: payload_ref,
            source: Some(SourceAnchor {
                path: file.to_owned(),
                content_ref: source.copied(),
                start: Some(start),
                end: Some(start + 8),
            }),
        },
        declaration_kind: DeclarationKind::Function,
        symbol_identity: symbol,
        owner_identity: "class:com/acme".to_owned(),
        containment: vec!["class:com/acme".to_owned()],
        compiler_callable_id: Some("com/acme/publicDescriptor".to_owned()),
        compiler_class_id: None,
        exact_eligible: true,
        shape_digest: Some(canonical::hash(&shape)),
        projected_shape: shape,
    })
}

fn fact_set(
    store: &mut Store,
    thread: &ThreadAuthority,
    members: Vec<CallableMemberBinding>,
    mut facts: Vec<CallableFact>,
) -> (PreparedCallableFactSet, CallableQueryTrace) {
    facts.sort_by(|a, b| a.fact_id().cmp(b.fact_id()));
    let matched_fact_ids = facts.iter().map(|fact| fact.fact_id().clone()).collect();
    let shard = CallableFactShard {
        schema: "codeclew-kotlin-callable-fact-shard/1.0".to_owned(),
        facts,
    };
    let bytes = shard.to_json().bytes();
    let reference = store.put("codeclew-kotlin-callable-fact-shard/1.0", &bytes);
    let query_index_ref = store.put("codeclew-kotlin-callable-query-index/1.0", b"query index");
    let query_shard_ref = store.put("codeclew-kotlin-callable-query-shard/1.0", b"query shard");
    let evidence_ref = store.put("codeclew-kotlin-callable-evidence/1.0", b"evidence");
    let mut direct_cas_closure = vec![
        reference.copied(),
        query_index_ref.copied(),
        query_shard_ref.copied(),
        evidence_ref.copied(),
    ];
    for (stored, _) in &store.objects {
        direct_cas_closure.push(stored.copied());
    }
    let authority_digest = digest(&format!("fact-set-{}", reference.digest));
    let prepared = PreparedCallableFactSet {
        fact_set_id: format!("thread-callables:{authority_digest}"),
        authority: CallableFactSetAuthority {
            authority_digest,
            binding_digest: digest("binding"),
            thread_id: thread.thread_id.clone(),
            thread_authority_digest: thread.authority_digest.clone(),
            profile_digest: digest("profile"),
            pairs: vec![CallablePairBinding {
                pair_id: "provider-consumer".to_owned(),
                provider_member: members[0].member_alias.clone(),
                consumer_member: members[1].member_alias.clone(),
                relationship_authority: RelationshipAuthority::DeclaredTopology,
                dependency_evidence_ref: None,
            }],
            members,
            completeness: CallableCompleteness {
                certainty: CallableFactSetCertainty::Verified,
                coverage: CallableFactSetCoverage::Complete,
            },
            fact_shards: vec![reference.copied()],
            query_index_ref,
            evidence_ref,
            direct_cas_closure,
        },
        fact_shards: vec![PreparedFactShard {
            reference,
            bytes,
            shard: Some(shard),
        }],
    };
    (
        prepared,
        CallableQueryTrace {
            matched_fact_ids,
            query_shard_refs: vec![query_shard_ref],
        },
    )
}

/// A thread with a fact set and an impact in it.
struct Side {
    thread: ThreadAuthority,
    fact_set: PreparedCallableFactSet,
    trace: CallableQueryTrace,
    prepared: PreparedThreadImpact,
    root: ThreadImpactRoot,
    store: Store,
}

fn service_request() -> ThreadImpactServiceRequest {
    ThreadImpactServiceRequest {
        pair_id: "provider-consumer".to_owned(),
        subject: KotlinImpactSubject::CallableFamily {
            callable_id: "com/acme/publicDescriptor".to_owned(),
        },
    }
}

impl Side {
    fn finish(
        thread: ThreadAuthority,
        mut store: Store,
        members: Vec<CallableMemberBinding>,
        facts: Vec<CallableFact>,
    ) -> Side {
        let (fact_set, trace) = fact_set(&mut store, &thread, members, facts);
        let (prepared, root) = thread_impact_service::create(
            &thread,
            &None,
            &fact_set,
            &trace,
            &store.reads(),
            &service_request(),
        )
        .unwrap();
        store.put(
            &prepared.evidence_object.reference.object_schema,
            &prepared.evidence_object.bytes,
        );
        Side {
            thread,
            fact_set,
            trace,
            prepared,
            root,
            store,
        }
    }

    /// A side of a change.
    fn of_change(
        phase: &str,
        provider: &str,
        consumer: &str,
        return_type: &str,
        jvm: &str,
        seed: char,
    ) -> Side {
        let mut store = Store {
            objects: Vec::new(),
        };
        let next = |step: u32| char::from_u32(seed as u32 + step).unwrap();
        let unrelated = format!("unrelated-{phase}");
        let thread = thread(
            &format!("thread:coverage-{phase}"),
            vec![
                binding(
                    provider,
                    "provider-service",
                    &session(phase, "provider", provider, seed),
                ),
                binding(
                    consumer,
                    "consumer-service",
                    &session(phase, "consumer", consumer, next(1)),
                ),
                binding(
                    &unrelated,
                    "unrelated-service",
                    &session(phase, "unrelated", &unrelated, next(2)),
                ),
            ],
        );
        let provider_source = store.put(
            "codeclew-repository-source-content/1.0",
            format!("fun publicDescriptor(): Any = \"{phase}\"\n").as_bytes(),
        );
        let consumer_source = store.put(
            "codeclew-repository-source-content/1.0",
            b"fun publicDescriptor(): String = \"consumer\"\n",
        );
        let left = callable_member(&thread.members[0], "provider", phase, &mut store);
        let right = callable_member(&thread.members[1], "consumer", phase, &mut store);
        let facts = vec![
            descriptor(
                &mut store,
                &left,
                "src/Provider.kt",
                0,
                &provider_source,
                return_type,
                jvm,
                0,
            ),
            descriptor(
                &mut store,
                &right,
                "src/Consumer.kt",
                0,
                &consumer_source,
                "kotlin/String",
                "()Ljava/lang/String;",
                0,
            ),
        ];
        Side::finish(thread, store, vec![left, right], facts)
    }

    /// A pair of services with overloads of one callable.
    fn of_pair(overloads: usize) -> Side {
        let mut store = Store {
            objects: Vec::new(),
        };
        let thread = thread(
            "thread:impact-service-fixture",
            vec![
                binding(
                    "provider",
                    "provider-service",
                    &session("pair", "provider", "provider", 'a'),
                ),
                binding(
                    "consumer",
                    "consumer-service",
                    &session("pair", "consumer", "consumer", 'b'),
                ),
            ],
        );
        let left = callable_member(&thread.members[0], "provider", "pair", &mut store);
        let right = callable_member(&thread.members[1], "consumer", "pair", &mut store);
        let mut facts = Vec::new();
        if overloads == 0 {
            let provider_source = store.put(
                "codeclew-repository-source-content/1.0",
                b"fun descriptor(): String = \"provider\" // cafe\xCC\x81\n",
            );
            let consumer_source = store.put(
                "codeclew-repository-source-content/1.0",
                b"fun descriptor(): String = \"consumer\" // cafe\xCC\x81\n",
            );
            for (member, file, start, source) in [
                (&left, "src/Provider.kt", 0, &provider_source),
                (&right, "src/Consumer.kt", 10, &consumer_source),
            ] {
                facts.push(descriptor(
                    &mut store,
                    member,
                    file,
                    start,
                    source,
                    "kotlin/String",
                    "()Ljava/lang/String;",
                    0,
                ));
            }
        }
        let source = store.put(
            "codeclew-repository-source-content/1.0",
            &vec![b'x'; overloads * 10 + 16],
        );
        for (member, file) in [(&left, "src/Provider.kt"), (&right, "src/Consumer.kt")] {
            for index in 0..overloads {
                let jvm = format!("({})Ljava/lang/String;", "I".repeat(index + 1));
                facts.push(descriptor(
                    &mut store,
                    member,
                    file,
                    u64::try_from(index * 10).unwrap(),
                    &source,
                    "kotlin/String",
                    &jvm,
                    index + 1,
                ));
            }
        }
        Side::finish(thread, store, vec![left, right], facts)
    }

    fn retained(&self) -> RetainedImpact {
        RetainedImpact {
            root_bytes: Some(thread_impact_service::write_root(&self.root)),
            root: Some(self.root.copied()),
            evidence: Some(self.prepared.evidence.copied()),
            reads: self.store.reads(),
        }
    }

    fn retained_side<'a>(&'a self, impact: &'a RetainedImpact) -> RetainedSide<'a> {
        RetainedSide {
            thread: &self.thread,
            verified: &None,
            fact_set: &self.fact_set,
            trace: Some(&self.trace),
            impact,
        }
    }

    fn verified_side(&self) -> VerifiedChangeSide<'_> {
        VerifiedChangeSide {
            thread: &self.thread,
            fact_set: &self.fact_set,
            impact: &self.prepared,
            trace: Some(&self.trace),
        }
    }
}

/// What a change set is made of.
struct Fixture {
    before: Side,
    after: Side,
    validator: ValidatorRuntimeAuthority,
}

impl Fixture {
    fn new() -> Self {
        Self {
            before: Side::of_change(
                "before",
                "provider-old",
                "consumer-old",
                "kotlin/String",
                "()Ljava/lang/String;",
                'a',
            ),
            after: Side::of_change(
                "after",
                "provider-new",
                "consumer-new",
                "kotlin/Int",
                "()I",
                'c',
            ),
            validator: ValidatorRuntimeAuthority {
                runtime_key: digest("runtime"),
                runtime_mode: RuntimeMode::Development,
                manifest_digest: digest("manifest"),
            },
        }
    }

    fn reads(&self) -> Vec<ObjectRead> {
        let mut reads = self.before.store.reads();
        reads.extend(self.after.store.reads());
        reads
    }

    fn correspondence(&self) -> Vec<MemberCorrespondence> {
        vec![
            MemberCorrespondence {
                before_member_alias: "provider-old".to_owned(),
                after_member_alias: "provider-new".to_owned(),
            },
            MemberCorrespondence {
                before_member_alias: "consumer-old".to_owned(),
                after_member_alias: "consumer-new".to_owned(),
            },
        ]
    }

    fn request(&self, coverage_document: Vec<u8>) -> ThreadChangeSetServiceRequest {
        ThreadChangeSetServiceRequest {
            before_impact_id: self.before.root.impact_id.clone(),
            after_impact_id: self.after.root.impact_id.clone(),
            member_correspondence: self.correspondence(),
            coverage_document,
        }
    }

    fn try_create(
        &self,
        request: &ThreadChangeSetServiceRequest,
        document: KotlinChangeCoverageDocument,
        validator: &ValidatorRuntimeAuthority,
    ) -> Result<(PreparedThreadChangeSet, ThreadChangeSetRoot), ClewError> {
        let (before, after) = (self.before.retained(), self.after.retained());
        thread_change_set_service::create(
            &self.before.retained_side(&before),
            &self.after.retained_side(&after),
            request,
            &Some(document),
            validator,
            &self.reads(),
        )
    }

    fn create(
        &self,
        document: KotlinChangeCoverageDocument,
    ) -> (PreparedThreadChangeSet, ThreadChangeSetRoot) {
        let request = self.request(write_document(&document));
        self.try_create(&request, document, &self.validator).unwrap()
    }

    fn prepared(&self, document: KotlinChangeCoverageDocument) -> PreparedThreadChangeSet {
        build_from_verified(
            &self.before.verified_side(),
            &self.after.verified_side(),
            &ThreadChangeSetRequest {
                member_correspondence: self.correspondence(),
                coverage_document: write_document(&document),
                document: Some(document),
                validator_runtime: self.validator.copied(),
                budgets: ChangeSetBudgets::frozen(),
            },
        )
        .unwrap()
    }

    fn load(
        &self,
        prepared: &PreparedThreadChangeSet,
        root: &ThreadChangeSetRoot,
        root_bytes: Option<Vec<u8>>,
    ) -> Result<ThreadChangeSetRoot, ClewError> {
        let (before, after) = (self.before.retained(), self.after.retained());
        let mut reads = self.reads();
        for object in [&prepared.coverage_document_object, &prepared.evidence_object] {
            reads.push(ObjectRead {
                reference: object.reference.copied(),
                bytes: Some(object.bytes.clone()),
            });
        }
        thread_change_set_service::load(
            &self.before.retained_side(&before),
            &self.after.retained_side(&after),
            &root.change_set_id,
            &RetainedChangeSet {
                root_bytes,
                root: Some(root.copied()),
                document: Some(prepared.coverage_document.copied()),
                evidence: Some(prepared.evidence.copied()),
                reads,
            },
        )
    }
}

fn empty_coverage() -> KotlinChangeCoverageDocument {
    KotlinChangeCoverageDocument {
        schema: KOTLIN_CHANGE_COVERAGE_DOCUMENT_SCHEMA.to_owned(),
        entries: Vec::new(),
    }
}

fn complete_coverage(root: &ThreadChangeSetRoot) -> KotlinChangeCoverageDocument {
    let mut document = empty_coverage();
    for (index, target) in root.projection.missing_targets.iter().enumerate() {
        document.entries.push(CoverageDocumentEntry {
            target_id: target.target_id.clone(),
            required_categories: target.required_categories.copied(),
            handling: CoverageHandling {
                kind: CoverageHandlingKind::ExternalWork,
                id: format!("verify-{index}"),
            },
        });
    }
    document
}

#[test]
fn managed_incomplete_complete_repeat_and_terminal_retention_are_exact() {
    let fixture = Fixture::new();
    let (_, incomplete) = fixture.create(empty_coverage());
    assert_eq!(incomplete.authority.status, ChangeSetStatus::Incomplete);
    assert!(incomplete.authority.missing_target_count > 0);
    assert_eq!(fixture.create(empty_coverage()).1, incomplete);
    let output = thread_change_set_service::bounded_stdout(&incomplete).unwrap();
    assert!(output.bytes().len() < MAX_CHANGE_STDOUT_BYTES);

    let (prepared, complete) = fixture.create(complete_coverage(&incomplete));
    assert_eq!(
        complete.authority.status,
        ChangeSetStatus::ValidatedConditional
    );
    assert_eq!(complete.authority.missing_target_count, 0);
    assert_eq!(
        complete.authority.comparison_digest,
        incomplete.authority.comparison_digest
    );
    assert_ne!(complete.change_set_id, incomplete.change_set_id);
    assert_eq!(fixture.create(complete_coverage(&incomplete)).1, complete);
    assert_eq!(complete.authority.new_derived_cas_object_count, 2);

    let bytes = thread_change_set_service::write_root(&complete);
    let loaded = fixture.load(&prepared, &complete, Some(bytes)).unwrap();
    assert_eq!(loaded, complete);
    for reference in &complete.authority.direct_cas_closure {
        assert!(
            fixture.before.store.has(reference)
                || fixture.after.store.has(reference)
                || prepared.coverage_document_object.reference == *reference
                || prepared.evidence_object.reference == *reference
        );
    }
}

#[test]
fn stdout_and_retained_root_bounds_are_exact() {
    for maximum in [MAX_CHANGE_STDOUT_BYTES, MAX_THREAD_CHANGE_SET_ROOT_BYTES] {
        assert!(enforce_serialized_bound(maximum, maximum, "bounded").is_ok());
        assert_eq!(
            enforce_serialized_bound(maximum + 1, maximum, "bounded")
                .unwrap_err()
                .code,
            ErrorCode::SliceBudgetExceeded
        );
    }
}

#[test]
fn comparison_identity_survives_validator_capsule_rebuild() {
    let fixture = Fixture::new();
    let (_, first) = fixture.create(empty_coverage());
    let rebuilt_validator = ValidatorRuntimeAuthority {
        runtime_key: digest("rebuilt-runtime"),
        runtime_mode: RuntimeMode::Development,
        manifest_digest: digest("rebuilt-manifest"),
    };
    let (_, second) = fixture
        .try_create(
            &fixture.request(write_document(&empty_coverage())),
            empty_coverage(),
            &rebuilt_validator,
        )
        .unwrap();
    assert_eq!(
        first.authority.comparison_digest,
        second.authority.comparison_digest
    );
    assert_eq!(
        first.projection.missing_targets,
        second.projection.missing_targets
    );
    assert_ne!(
        first.authority.authority_digest,
        second.authority.authority_digest
    );
    assert_ne!(first.change_set_id, second.change_set_id);
}

#[test]
fn correspondence_is_exactly_the_selected_pair_even_in_larger_threads() {
    let fixture = Fixture::new();
    let (_, accepted) = fixture.create(empty_coverage());
    assert_eq!(accepted.authority.member_target_count, 2);
    assert_eq!(fixture.before.thread.members.len(), 3);
    assert_eq!(fixture.after.thread.members.len(), 3);

    let mut request = fixture.request(write_document(&empty_coverage()));
    request.member_correspondence.push(MemberCorrespondence {
        before_member_alias: "unrelated-before".to_owned(),
        after_member_alias: "unrelated-after".to_owned(),
    });
    let Err(error) = fixture.try_create(&request, empty_coverage(), &fixture.validator) else {
        panic!("three members correspond")
    };
    assert_eq!(error.code, ErrorCode::SliceBudgetExceeded);
}

#[test]
fn coverage_entry_budget_failure_publishes_neither_document_nor_root() {
    let fixture = Fixture::new();
    let mut document = empty_coverage();
    for index in 0..=MAX_CHANGE_COVERAGE_ENTRIES {
        document.entries.push(CoverageDocumentEntry {
            target_id: digest(&format!("overflow-target-{index}")),
            required_categories: vec![VerificationCategory::StructuralComparison],
            handling: CoverageHandling {
                kind: CoverageHandlingKind::Action,
                id: format!("a{index}"),
            },
        });
    }
    let bytes = write_document(&document);
    assert!(bytes.len() < MAX_CHANGE_COVERAGE_DOCUMENT_BYTES);
    let request = fixture.request(bytes);
    let Err(error) = fixture.try_create(&request, document, &fixture.validator) else {
        panic!("too many entries")
    };
    assert_eq!(error.code, ErrorCode::SliceBudgetExceeded);
}

#[test]
fn prepared_parent_result_and_cas_substitution_fail_closed() {
    let fixture = Fixture::new();
    let prepared = fixture.prepared(empty_coverage());
    let before = fixture.before.verified_side();
    let after = fixture.after.verified_side();
    let document = Some(empty_coverage());
    assert!(verify_prepared_from_verified(&before, &after, &prepared, &document).is_ok());

    assert!(verify_prepared_from_verified(&after, &after, &prepared, &document).is_err());
    let mut result_substitution = prepared.copied();
    result_substitution.projection.status = ChangeSetStatus::ValidatedConditional;
    assert!(
        verify_prepared_from_verified(&before, &after, &result_substitution, &document).is_err()
    );
    let mut cas_substitution = prepared;
    cas_substitution.evidence_object.bytes.push(b' ');
    assert!(verify_prepared_from_verified(&before, &after, &cas_substitution, &document).is_err());
}

#[test]
fn injected_failure_after_cas_batch_leaves_no_retained_root() {
    let fixture = Fixture::new();
    let (prepared, root) = fixture.create(empty_coverage());
    for object in [&prepared.coverage_document_object, &prepared.evidence_object] {
        assert!(!fixture.before.store.has(&object.reference));
        assert!(!fixture.after.store.has(&object.reference));
    }
    assert!(matches!(
        thread_change_set_service::publish(None, &root),
        Ok(Publication::Write)
    ));
    let Err(error) = fixture.load(&prepared, &root, None) else {
        panic!("no root was written")
    };
    assert_eq!(error.code, ErrorCode::InvalidInput);
}

#[test]
fn published_roots_are_kept_and_other_roots_refused() {
    let fixture = Fixture::new();
    let (prepared, root) = fixture.create(empty_coverage());
    let bytes = thread_change_set_service::write_root(&root);
    assert!(matches!(
        thread_change_set_service::publish(Some(&bytes), &root),
        Ok(Publication::AlreadyPublished)
    ));
    let mut other = bytes.clone();
    other.push(b' ');
    assert!(thread_change_set_service::publish(Some(&other), &root).is_err());
    assert!(thread_change_set_service::confirm_created(true, &bytes, &root).is_ok());
    let published = vec![
        prepared.coverage_document_object.reference.copied(),
        prepared.evidence_object.reference.copied(),
    ];
    assert!(thread_change_set_service::confirm_published(&published, &prepared).is_ok());
    let swapped = vec![published[1].copied(), published[0].copied()];
    assert!(thread_change_set_service::confirm_published(&swapped, &prepared).is_err());
}

#[test]
fn another_validator_runtime_is_refused() {
    let fixture = Fixture::new();
    let expected = &fixture.validator;
    assert!(
        thread_change_set_service::revalidate_runtime(expected, &Some(expected.copied())).is_ok()
    );
    let mut moved = expected.copied();
    moved.runtime_key = digest("another");
    assert!(thread_change_set_service::revalidate_runtime(expected, &Some(moved)).is_err());
    assert!(thread_change_set_service::required_runtime(&None).is_err());
}

#[test]
fn near_limit_full_service_envelope_including_outer_fields_and_lf_is_bounded() {
    let side = Side::of_pair(16);
    let value = thread_impact_service::bounded_stdout(&side.root).unwrap();
    assert_eq!(value.str_at("threadId"), Some(&side.thread.thread_id));
    assert_eq!(value.str_at("factSetId"), Some(&side.fact_set.fact_set_id));
    assert!(value.get("authorityDigest").is_some());
    assert!(value.get("evidenceRef").is_some());
    assert!(value.get("impact").is_some());
    let mut full_line = value.bytes();
    full_line.push(b'\n');
    assert!(full_line.len() <= MAX_IMPACT_STDOUT_BYTES);
    assert!(
        MAX_IMPACT_STDOUT_BYTES - full_line.len() <= 4 * 1024,
        "full managed envelope was not near its limit: {} bytes",
        full_line.len()
    );
    assert_eq!(full_line.last(), Some(&b'\n'));
    serde_json::from_slice::<serde_json::Value>(&full_line[..full_line.len() - 1]).unwrap();
}

#[test]
fn source_ranges_are_exact_relative_utf8_authority_and_stdout_is_one_bounded_line() {
    let mut side = Side::of_pair(0);
    let evidence = &side.prepared.evidence;
    validate_selected_sources(evidence, &side.store.reads()).unwrap();

    let altered = |change: &dyn Fn(&mut SourceAnchor)| {
        let mut altered = evidence.copied();
        change(
            altered.selection.findings[0]
                .evidence
                .provenance
                .source
                .as_mut()
                .unwrap(),
        );
        altered
    };
    let reads = side.store.reads();
    let unsafe_path = altered(&|anchor| anchor.path = "/workspace/private/Source.kt".to_owned());
    assert!(validate_selected_sources(&unsafe_path, &reads).is_err());
    let half_range = altered(&|anchor| anchor.end = None);
    assert!(validate_selected_sources(&half_range, &reads).is_err());
    let beyond_end = altered(&|anchor| anchor.end = Some(anchor.content_ref.size + 1));
    assert!(validate_selected_sources(&beyond_end, &reads).is_err());

    let source = evidence.selection.findings[0]
        .evidence
        .provenance
        .source
        .as_ref()
        .unwrap();
    let source_bytes = reads
        .iter()
        .find(|read| read.reference == source.content_ref)
        .and_then(|read| read.bytes.clone())
        .unwrap();
    let combining = source_bytes
        .windows(2)
        .position(|window| window == [0xcc, 0x81])
        .unwrap();
    let split_utf8 = altered(&|anchor| {
        anchor.start = Some(u64::try_from(combining + 1).unwrap());
        anchor.end = Some(u64::try_from(combining + 2).unwrap());
    });
    assert!(validate_selected_sources(&split_utf8, &reads).is_err());

    let content_ref =
        CasObject::for_bytes("codeclew-repository-source-content/1.0", &[0xff, 0xfe]);
    let non_utf8_source = altered(&|anchor| {
        anchor.content_ref = content_ref.copied();
        anchor.start = Some(0);
        anchor.end = Some(1);
    });
    side.store
        .put("codeclew-repository-source-content/1.0", &[0xff, 0xfe]);
    assert!(validate_selected_sources(&non_utf8_source, &side.store.reads()).is_err());

    let value = thread_impact_service::bounded_stdout(&side.root).unwrap();
    let mut line = value.bytes();
    line.push(b'\n');
    assert!(line.len() <= MAX_IMPACT_STDOUT_BYTES);
    assert_eq!(line.last(), Some(&b'\n'));
    assert_eq!(line.iter().filter(|byte| **byte == b'\n').count(), 1);
    let rendered = String::from_utf8(line).unwrap();
    assert!(!rendered.contains("/Users/"));
    assert!(!rendered.contains("/private/"));
}

#[test]
fn created_impacts_load_again() {
    let side = Side::of_pair(0);
    let loaded = thread_impact_service::load(
        &side.thread,
        &None,
        &side.root.impact_id,
        &side.retained(),
        &side.fact_set,
        Some(&side.trace),
    )
    .unwrap();
    assert_eq!(loaded, side.root);
    let mut other_order = side.retained();
    other_order.reads.reverse();
    let loaded = thread_impact_service::load(
        &side.thread,
        &None,
        &side.root.impact_id,
        &other_order,
        &side.fact_set,
        Some(&side.trace),
    )
    .unwrap();
    assert_eq!(loaded, side.root);
}

#[test]
fn retained_load_rejects_missing_or_tampered_parent_evidence_source_and_closure() {
    let side = Side::of_pair(0);
    let load = |retained: &RetainedImpact| {
        thread_impact_service::load(
            &side.thread,
            &None,
            &side.root.impact_id,
            retained,
            &side.fact_set,
            Some(&side.trace),
        )
    };
    assert!(load(&side.retained()).is_ok());
    let mut without_root = side.retained();
    without_root.root_bytes = None;
    without_root.root = None;
    assert!(load(&without_root).is_err());
    for reference in &side.root.authority.direct_cas_closure {
        let mut without = side.retained();
        without.reads = side.store.without(reference);
        assert!(load(&without).is_err());
    }
    let mut corrupted = side.retained();
    let evidence = side.prepared.evidence_object.reference.copied();
    for read in &mut corrupted.reads {
        if read.reference == evidence {
            let mut bytes = side.prepared.evidence_object.bytes.clone();
            bytes[0] ^= 1;
            read.bytes = Some(bytes);
        }
    }
    assert!(load(&corrupted).is_err());
}

#[test]
fn a_root_that_was_created_first_is_the_same_root() {
    let side = Side::of_pair(0);
    let bytes = thread_impact_service::write_root(&side.root);
    assert!(thread_impact_service::confirm_created(true, &Vec::new(), &side.root).is_ok());
    assert!(thread_impact_service::confirm_created(false, &bytes, &side.root).is_ok());
    let error =
        thread_impact_service::confirm_created(false, &b"other".to_vec(), &side.root).unwrap_err();
    assert_eq!(error.code, ErrorCode::BindingChanged);
    assert_eq!(
        error.message,
        "thread impact root was concurrently bound to different evidence"
    );
}
