//! Flows of calls from an exact declaration, with and without the order of a compiler.

use clew::canonical;
use clew::cas::CasObject;
use clew::error::{ClewError, ErrorCode};
use clew::json::Json;
use clew::record::Record;
use clew::retained::{ObjectRead, Publication};
use clew::thread::{
    ModelCachePolicy, RuntimeMode, SessionAuthority, SessionLanguage, ThreadAuthority,
    ThreadMemberBinding,
};
use clew::thread_callables::{
    CallableCompilationBinding, CallableCompleteness, CallableFact, CallableFactProvenance,
    CallableFactSetAuthority, CallableFactSetCertainty, CallableFactSetCoverage, CallableFactShard,
    CallableMemberBinding, CallablePairBinding, DeclarationFact, DeclarationKind, GraphCoverage,
    PreparedCallableFactSet, PreparedFactShard, RelationshipAuthority, SourceAnchor,
    TargetResolution, UseFact,
};
use clew::thread_flow::{
    build, build_with_cfg, verify_prepared, verify_prepared_with_cfg, FlowBudgets, FlowCertainty,
    FlowDirection, FlowNodeKind, FlowOrderAuthority, FlowRequest, FlowRootKind, FlowStatus,
    PreparedFlowSlice, MAX_FLOW_DEPTH,
};
use clew::thread_flow_cfg::{
    seal, validate, validate_boundary, LocalCfgCatalog, LocalCfgEdge, LocalCfgEdgeKind,
    LocalCfgNode, LocalCfgNodeRole, LocalCfgPayload, LocalCfgSourceRange, LocalCfgSupport,
    PreparedLocalCfg, LOCAL_CFG_BOUNDARY_SCHEMA, LOCAL_CFG_PAYLOAD_SCHEMA, LOCAL_CFG_SCHEMA,
};
use clew::thread_flow_service;
use clew::thread_flow_service::{
    validate_flow_id, RetainedFlow, ThreadFlowServiceRequest,
};

fn digest(label: &str) -> String {
    canonical::hash_bytes(label.as_bytes())
}

fn text(value: &str) -> Json {
    Json::Str(value.to_owned())
}

/// Objects under their references.
struct Store {
    reads: Vec<ObjectRead>,
}

impl Store {
    fn put(&mut self, schema: &str, bytes: &[u8]) -> CasObject {
        let reference = CasObject::for_bytes(schema, bytes);
        self.reads.push(ObjectRead {
            reference: reference.copied(),
            bytes: Some(bytes.to_vec()),
        });
        reference
    }

    fn all(&self) -> Vec<ObjectRead> {
        self.reads
            .iter()
            .map(|read| ObjectRead {
                reference: read.reference.copied(),
                bytes: read.bytes.clone(),
            })
            .collect()
    }
}

fn symbol(callable: &str) -> String {
    format!("callable:{callable}#jvm:()V")
}

/// A fact set of calls, its thread and its objects.
struct Fixture {
    store: Store,
    thread: ThreadAuthority,
    members: Vec<CallableMemberBinding>,
    facts: Vec<CallableFact>,
}

impl Fixture {
    fn new() -> Self {
        let mut store = Store { reads: Vec::new() };
        let mut bindings = Vec::new();
        let mut members = Vec::new();
        for alias in ["consumer", "provider"] {
            let session = SessionAuthority {
                schema: "codeclew-session/1.0".to_owned(),
                authority_digest: digest(&format!("session-{alias}")),
                session_id: format!("session:{alias}"),
                repository_key: format!("repository:{alias}"),
                base_revision: "a".repeat(40),
                target_ref: "refs/heads/main".to_owned(),
                target_oid: "a".repeat(40),
                runtime_key: digest("runtime"),
                runtime_mode: RuntimeMode::Development,
                language: SessionLanguage::Kotlin,
                compilations: vec![":/main".to_owned()],
                generation_jobs: None,
                model_cache_policy: ModelCachePolicy::NonCacheable,
                model_cache_authority: None,
                created_unix_ms: 1,
            };
            members.push(CallableMemberBinding {
                member_alias: alias.to_owned(),
                service_alias: format!("{alias}-service"),
                session_id: session.session_id.clone(),
                session_authority_digest: session.authority_digest.clone(),
                repository_namespace: session.repository_key.clone(),
                base_revision: session.base_revision.clone(),
                snapshot_ref: store.put(
                    "codeclew-repository-input-snapshot/1.0",
                    format!("snapshot-{alias}").as_bytes(),
                ),
                compilations: vec![CallableCompilationBinding {
                    compilation_id: ":/main".to_owned(),
                    generation_id: digest(&format!("generation-{alias}")),
                    generation_ref: store.put(
                        "codeclew-generation-manifest/2.0",
                        format!("generation-{alias}").as_bytes(),
                    ),
                    semantic_authority: "K2_FIR".to_owned(),
                    extractor_id: "fir-facts-extractor/0.6".to_owned(),
                    adapter_digest: digest("adapter"),
                    runtime_digest: digest("runtime"),
                    descriptor_coverage: GraphCoverage::CompleteSupportedSubset,
                    relation_coverage: GraphCoverage::CompleteSupportedSubset,
                }],
            });
            bindings.push(ThreadMemberBinding {
                member_alias: alias.to_owned(),
                service_alias: format!("{alias}-service"),
                session,
            });
        }
        Self {
            store,
            thread: ThreadAuthority {
                schema: "codeclew-thread/1.0".to_owned(),
                authority_digest: digest("thread"),
                semantic_digest: digest("semantic"),
                thread_id: "thread:flow".to_owned(),
                created_unix_ms: 1,
                members: bindings,
            },
            members,
            facts: Vec::new(),
        }
    }

    fn provenance(&mut self, label: &str) -> CallableFactProvenance {
        let member = &self.members[0];
        CallableFactProvenance {
            member_alias: member.member_alias.clone(),
            repository_namespace: member.repository_namespace.clone(),
            compilation_id: ":/main".to_owned(),
            generation_ref: member.compilations[0].generation_ref.copied(),
            input_fact_key: format!("kotlin:fact:{label}"),
            input_payload_ref: self
                .store
                .put("codeclew-kotlin-semantic-fact/1.0", label.as_bytes()),
            source: Some(SourceAnchor {
                path: "src/Flow.kt".to_owned(),
                content_ref: self
                    .store
                    .put("codeclew-repository-source-content/1.0", b"fun flow() = Unit\n"),
                start: Some(0),
                end: Some(3),
            }),
        }
    }

    fn declare(&mut self, callable: &str) {
        let provenance = self.provenance(&format!("declaration-{callable}"));
        let shape = Json::object().with("symbolIdentity", text(&symbol(callable)));
        self.facts.push(CallableFact::Declaration(DeclarationFact {
            fact_id: digest(&format!("declaration-{callable}")),
            provenance,
            declaration_kind: DeclarationKind::Function,
            symbol_identity: symbol(callable),
            owner_identity: "class:p".to_owned(),
            containment: vec!["class:p".to_owned()],
            compiler_callable_id: Some(callable.to_owned()),
            compiler_class_id: None,
            exact_eligible: true,
            shape_digest: Some(canonical::hash(&shape)),
            projected_shape: shape,
        }));
    }

    fn call(&mut self, source: &str, target: &str, authority: RelationshipAuthority, order: Json) {
        let provenance = self.provenance(&format!("use-{source}-{target}"));
        let topology = authority == RelationshipAuthority::DeclaredTopology;
        let namespace = self.members[0].repository_namespace.clone();
        self.facts.push(CallableFact::Use(UseFact {
            fact_id: digest(&format!("use-{source}-{target}")),
            provenance,
            source_owner: source.to_owned(),
            relation_kind: "CALLS".to_owned(),
            target_callable_id: target.to_owned(),
            target_symbol_identity: if topology { None } else { Some(symbol(target)) },
            target_repository_namespace: if topology { None } else { Some(namespace) },
            target_resolution: if topology {
                TargetResolution::CallableFamily
            } else {
                TargetResolution::ExactSymbol
            },
            relationship_authority: authority,
            exact_eligible: !topology,
            relation_evidence: order,
        }));
    }

    fn call_here(&mut self, source: &str, target: &str) {
        self.call(
            source,
            target,
            RelationshipAuthority::VerifiedSameSnapshotCompilationDependency,
            Json::object(),
        );
    }

    fn fact_set(&mut self) -> PreparedCallableFactSet {
        let mut facts = self.facts.copied();
        facts.sort_by(|a, b| a.fact_id().cmp(b.fact_id()));
        let shard = CallableFactShard {
            schema: "codeclew-kotlin-callable-fact-shard/1.0".to_owned(),
            facts,
        };
        let bytes = shard.to_json().bytes();
        let reference = self
            .store
            .put("codeclew-kotlin-callable-fact-shard/1.0", &bytes);
        let authority_digest = digest(&format!("facts-{}", reference.digest));
        let query_index_ref = self.store.put("codeclew-query-index/1.0", b"index");
        let evidence_ref = self.store.put("codeclew-evidence/1.0", b"evidence");
        let direct_cas_closure = self
            .store
            .reads
            .iter()
            .map(|read| read.reference.copied())
            .collect();
        PreparedCallableFactSet {
            fact_set_id: format!("thread-callables:{authority_digest}"),
            authority: CallableFactSetAuthority {
                authority_digest,
                binding_digest: digest("binding"),
                thread_id: self.thread.thread_id.clone(),
                thread_authority_digest: self.thread.authority_digest.clone(),
                profile_digest: digest("profile"),
                pairs: vec![CallablePairBinding {
                    pair_id: "pair".to_owned(),
                    provider_member: "provider".to_owned(),
                    consumer_member: "consumer".to_owned(),
                    relationship_authority: RelationshipAuthority::DeclaredTopology,
                    dependency_evidence_ref: None,
                }],
                members: self.members.copied(),
                completeness: CallableCompleteness {
                    certainty: CallableFactSetCertainty::Verified,
                    coverage: CallableFactSetCoverage::Complete,
                },
                fact_shards: vec![reference.copied()],
                query_index_ref,
                evidence_ref,
                direct_cas_closure,
            },
            fact_shards: vec![PreparedFactShard {
                reference,
                bytes,
                shard: Some(shard),
            }],
        }
    }
}

fn request(set: &PreparedCallableFactSet, root: &str, max_depth: usize) -> FlowRequest {
    FlowRequest {
        thread_id: set.authority.thread_id.clone(),
        thread_authority_digest: set.authority.thread_authority_digest.clone(),
        fact_set_id: set.fact_set_id.clone(),
        fact_set_authority_digest: set.authority.authority_digest.clone(),
        pair_id: "pair".to_owned(),
        member_alias: "consumer".to_owned(),
        root_kind: FlowRootKind::FullSymbol,
        root: symbol(root),
        direction: FlowDirection::Downstream,
        budgets: FlowBudgets::frozen(max_depth).unwrap(),
    }
}

fn codes(prepared: &PreparedFlowSlice) -> Vec<String> {
    let mut codes: Vec<String> = prepared
        .slice
        .boundaries
        .iter()
        .map(|boundary| boundary.code.clone())
        .collect();
    codes.sort();
    codes
}

fn chain() -> Fixture {
    let mut fixture = Fixture::new();
    for name in ["p/a.one", "p/a.two", "p/a.three"] {
        fixture.declare(name);
    }
    fixture.call_here("p/a.one", "p/a.two");
    fixture.call_here("p/a.two", "p/a.three");
    fixture.call_here("p/a.three", "p/a.one");
    fixture
}

#[test]
fn a_chain_of_calls_is_followed_once_and_round() {
    let set = chain().fact_set();
    let prepared = build(request(&set, "p/a.one", MAX_FLOW_DEPTH), &set).unwrap();
    assert_eq!(prepared.slice.status, FlowStatus::Complete);
    assert_eq!(prepared.slice.nodes.len(), 3);
    assert_eq!(prepared.slice.edges.len(), 3);
    assert_eq!(prepared.slice.counts.nodes, 3);
    let root = prepared
        .slice
        .nodes
        .iter()
        .find(|node| node.node_id == prepared.slice.root_node_id)
        .unwrap();
    assert_eq!(root.symbol_identity, symbol("p/a.one"));
    assert_eq!(root.depth, 0);
    assert!(prepared
        .slice
        .edges
        .iter()
        .all(|edge| edge.order_authority == FlowOrderAuthority::UnorderedStaticRelation));
    verify_prepared(&prepared, &set).unwrap();
    let again = build(request(&set, "p/a.one", MAX_FLOW_DEPTH), &set).unwrap();
    assert!(again.same_as(&prepared));
}

#[test]
fn depth_truncates_and_says_so() {
    let set = chain().fact_set();
    let prepared = build(request(&set, "p/a.one", 1), &set).unwrap();
    assert_eq!(prepared.slice.status, FlowStatus::Truncated);
    assert_eq!(prepared.slice.nodes.len(), 2);
    assert_eq!(prepared.slice.certainty, FlowCertainty::Unsure);
    assert!(codes(&prepared).contains(&"FLOW_DEPTH_TRUNCATED".to_owned()));
    assert!(prepared
        .slice
        .verification_obligations
        .contains(&"INCREASE_MAX_DEPTH_OR_SELECT_NARROWER_ROOT".to_owned()));
}

#[test]
fn targets_that_are_not_exact_become_boundaries() {
    let mut fixture = Fixture::new();
    fixture.declare("p/a.one");
    fixture.call_here("p/a.one", "p/a.missing");
    let set = fixture.fact_set();
    let prepared = build(request(&set, "p/a.one", MAX_FLOW_DEPTH), &set).unwrap();
    assert_eq!(prepared.slice.nodes.len(), 1);
    assert!(codes(&prepared).contains(&"MISSING_TARGET_DECLARATION".to_owned()));
}

#[test]
fn a_declared_handoff_ends_at_the_other_member() {
    let mut fixture = Fixture::new();
    fixture.declare("p/a.one");
    fixture.call(
        "p/a.one",
        "q/b.serve",
        RelationshipAuthority::DeclaredTopology,
        Json::object(),
    );
    let set = fixture.fact_set();
    let prepared = build(request(&set, "p/a.one", MAX_FLOW_DEPTH), &set).unwrap();
    assert_eq!(prepared.slice.nodes.len(), 2);
    let handoff = prepared
        .slice
        .nodes
        .iter()
        .find(|node| node.member_alias == "provider")
        .unwrap();
    assert_eq!(handoff.node_kind, FlowNodeKind::Boundary);
    assert_eq!(
        prepared.slice.edges[0].order_authority,
        FlowOrderAuthority::Unknown
    );
    assert!(codes(&prepared).contains(&"DECLARED_TOPOLOGY_HANDOFF".to_owned()));
}

#[test]
fn altered_slices_are_refused() {
    let set = chain().fact_set();
    let mut prepared = build(request(&set, "p/a.one", MAX_FLOW_DEPTH), &set).unwrap();
    prepared.slice.edges.pop();
    assert!(verify_prepared(&prepared, &set).is_err());
}

fn refusal(result: Result<PreparedFlowSlice, ClewError>) -> ErrorCode {
    match result {
        Ok(_) => panic!("the request is refused"),
        Err(error) => error.code,
    }
}

#[test]
fn requests_are_bound_to_their_fact_set() {
    let set = chain().fact_set();
    let mut foreign = request(&set, "p/a.one", 2);
    foreign.thread_id = "thread:other".to_owned();
    assert_eq!(refusal(build(foreign, &set)), ErrorCode::InvalidInput);
    let absent = request(&set, "p/a.absent", 2);
    assert_eq!(refusal(build(absent, &set)), ErrorCode::InvalidInput);
    let mut outside = request(&set, "p/a.one", 2);
    outside.pair_id = "other".to_owned();
    assert_eq!(refusal(build(outside, &set)), ErrorCode::InvalidInput);
    assert!(FlowBudgets::frozen(MAX_FLOW_DEPTH).is_ok());
    assert!(FlowBudgets::frozen(MAX_FLOW_DEPTH + 1).is_err());
    assert!(FlowBudgets::frozen(0).is_err());
}

fn node(node_id: u64, role: LocalCfgNodeRole) -> LocalCfgNode {
    LocalCfgNode {
        node_id,
        role,
        source: Some(LocalCfgSourceRange { start: 0, end: 3 }),
    }
}

fn next(source: u64, target: u64) -> LocalCfgEdge {
    LocalCfgEdge {
        source_node_id: source,
        target_node_id: target,
        kind: LocalCfgEdgeKind::Next,
        label: None,
    }
}

fn graph(owner: &str) -> LocalCfgPayload {
    LocalCfgPayload {
        schema: LOCAL_CFG_SCHEMA.to_owned(),
        graph_id: String::new(),
        owner_symbol_identity: symbol(owner),
        file: "src/Flow.kt".to_owned(),
        compiler_graph_name: "flow".to_owned(),
        provider: "K2_FIR_CFG".to_owned(),
        source_provenance: "COMPILER_UTF16_RANGE_TO_UTF8_BYTES".to_owned(),
        nodes: vec![
            node(0, LocalCfgNodeRole::Entry),
            node(1, LocalCfgNodeRole::Operation),
            node(2, LocalCfgNodeRole::Exit),
        ],
        edges: vec![next(0, 1), next(1, 2)],
    }
}

fn prepared_graph(fixture: &mut Fixture, owner: &str) -> PreparedLocalCfg {
    let payload = seal(graph(owner)).unwrap();
    let payload_ref = fixture
        .store
        .put(LOCAL_CFG_PAYLOAD_SCHEMA, &payload.to_json().bytes());
    PreparedLocalCfg {
        payload,
        support: LocalCfgSupport {
            member_alias: "consumer".to_owned(),
            compilation_id: ":/main".to_owned(),
            generation_ref: fixture.members[0].compilations[0].generation_ref.copied(),
            payload_ref,
        },
    }
}

#[test]
fn sealed_graphs_are_valid_and_altered_ones_are_not() {
    let sealed = seal(graph("p/a.one")).unwrap();
    assert!(validate(&sealed).is_ok());
    assert_eq!(sealed.graph_id.len(), 71);
    let mut altered = sealed.copied();
    altered.compiler_graph_name = "other".to_owned();
    assert!(validate(&altered).is_err());
    let mut dangling = graph("p/a.one");
    dangling.edges.push(next(2, 9));
    assert_eq!(seal(dangling).unwrap_err().code, ErrorCode::InvalidInput);
    let mut unreachable_node = graph("p/a.one");
    unreachable_node.edges.pop();
    assert!(seal(unreachable_node).is_err());
    let mut two_entries = graph("p/a.one");
    two_entries.nodes[1].role = LocalCfgNodeRole::Entry;
    assert!(seal(two_entries).is_err());
    let mut empty = graph("p/a.one");
    empty.nodes.clear();
    assert_eq!(seal(empty).unwrap_err().code, ErrorCode::SliceBudgetExceeded);
}

#[test]
fn catalogs_hold_one_graph_of_an_owner() {
    let mut fixture = Fixture::new();
    let mut catalog = LocalCfgCatalog::default();
    assert!(catalog.is_empty());
    catalog
        .insert(prepared_graph(&mut fixture, "p/a.one"))
        .unwrap();
    assert!(!catalog.is_empty());
    assert!(catalog.get("consumer", &symbol("p/a.one")).is_some());
    assert!(catalog.get("provider", &symbol("p/a.one")).is_none());
    let error = catalog
        .insert(prepared_graph(&mut fixture, "p/a.one"))
        .unwrap_err();
    assert_eq!(error.code, ErrorCode::StateCorrupt);
}

#[test]
fn catalogs_give_back_what_was_inserted() {
    let mut fixture = Fixture::new();
    let mut catalog = LocalCfgCatalog::default();
    let two = prepared_graph(&mut fixture, "p/a.two");
    catalog.insert(two.copied()).unwrap();
    let before = catalog.clone();
    assert!(before == catalog);
    let one = prepared_graph(&mut fixture, "p/a.one");
    catalog.insert(one.copied()).unwrap();
    assert!(before != catalog);
    let found = catalog.get("consumer", &symbol("p/a.one")).unwrap();
    assert!(found.same_as(&one));
    assert!(validate(&found.payload).is_ok());
    assert!(catalog
        .get("consumer", &symbol("p/a.two"))
        .unwrap()
        .same_as(&two));
    assert!(before.get("consumer", &symbol("p/a.one")).is_none());
    let mut altered = prepared_graph(&mut fixture, "p/a.three");
    altered.payload.compiler_graph_name = "other".to_owned();
    assert!(catalog.insert(altered).is_err());
    assert!(catalog.get("consumer", &symbol("p/a.three")).is_none());
}

#[test]
fn graphs_leave_nodes_and_edges_as_they_are() {
    let mut fixture = chain();
    let graph = prepared_graph(&mut fixture, "p/a.one");
    let mut catalog = LocalCfgCatalog::default();
    catalog.insert(graph).unwrap();
    let set = fixture.fact_set();
    let plain = build(request(&set, "p/a.one", MAX_FLOW_DEPTH), &set).unwrap();
    let ordered =
        build_with_cfg(request(&set, "p/a.one", MAX_FLOW_DEPTH), &set, &catalog).unwrap();
    let (p, q) = (&plain.slice, &ordered.slice);
    assert_eq!(p.root_node_id, q.root_node_id);
    assert_eq!(p.status, q.status);
    assert_eq!(p.nodes.to_json().bytes(), q.nodes.to_json().bytes());
    assert_eq!(p.edges.len(), q.edges.len());
    for (a, b) in p.edges.iter().zip(q.edges.iter()) {
        assert_eq!(a.order_authority, FlowOrderAuthority::UnorderedStaticRelation);
        assert_eq!(b.order_authority, FlowOrderAuthority::Unknown);
        let mut c = b.copied();
        c.order_authority = a.order_authority;
        c.cfg_graph_id = None;
        c.cfg_node_ids = Vec::new();
        assert!(c.same_as(a));
    }
    for boundary in &p.boundaries {
        assert!(q.boundaries.iter().any(|b| b.same_as(boundary)));
    }
    for boundary in &q.boundaries {
        assert!(
            boundary.code == "VERIFY_CONTROL_FLOW_ORDER"
                || p.boundaries.iter().any(|b| b.same_as(boundary))
        );
    }
    assert!(q.boundaries.len() > p.boundaries.len());
}

#[test]
fn slices_with_graphs_show_it() {
    let mut fixture = chain();
    let one = prepared_graph(&mut fixture, "p/a.one");
    let set = fixture.fact_set();
    let asked = || request(&set, "p/a.one", MAX_FLOW_DEPTH);
    let code = "VERIFY_CONTROL_FLOW_ORDER".to_owned();
    let plain = build(asked(), &set).unwrap();
    assert!(plain.slice.control_flow_regions.is_empty());
    assert!(!codes(&plain).contains(&code));
    let without = build_with_cfg(asked(), &set, &LocalCfgCatalog::default()).unwrap();
    assert!(without.slice.control_flow_regions.is_empty());
    assert!(without
        .slice
        .boundaries
        .iter()
        .any(|b| b.code == code && b.subject == symbol("p/a.one") && b.support_refs.is_empty()));
    let mut catalog = LocalCfgCatalog::default();
    catalog.insert(one).unwrap();
    let with = build_with_cfg(asked(), &set, &catalog).unwrap();
    assert_eq!(with.slice.control_flow_regions.len(), 1);
}

#[test]
fn depths_are_lengths_of_shortest_ways() {
    let mut fixture = Fixture::new();
    for name in ["p/a.one", "p/a.two", "p/a.three", "p/a.four"] {
        fixture.declare(name);
    }
    fixture.call_here("p/a.one", "p/a.two");
    fixture.call_here("p/a.two", "p/a.three");
    fixture.call_here("p/a.three", "p/a.four");
    fixture.call_here("p/a.one", "p/a.three");
    let set = fixture.fact_set();
    let slice = build(request(&set, "p/a.one", MAX_FLOW_DEPTH), &set)
        .unwrap()
        .slice;
    assert_eq!(slice.status, FlowStatus::Complete);
    let depth = |id: &String| slice.nodes.iter().find(|n| &n.node_id == id).unwrap().depth;
    for (name, expected) in [("p/a.one", 0), ("p/a.two", 1), ("p/a.three", 1), ("p/a.four", 2)] {
        let node = slice
            .nodes
            .iter()
            .find(|node| node.symbol_identity == symbol(name))
            .unwrap();
        assert_eq!(node.depth, expected);
        if node.node_id != slice.root_node_id {
            assert!(slice.edges.iter().any(|edge| edge.target_node_id == node.node_id
                && depth(&edge.source_node_id) + 1 == node.depth));
        }
    }
    for edge in &slice.edges {
        assert!(depth(&edge.target_node_id) <= depth(&edge.source_node_id) + 1);
    }
}

#[test]
fn typed_boundaries_carry_no_graph() {
    let boundary = Json::object()
        .with("schema", text(LOCAL_CFG_BOUNDARY_SCHEMA))
        .with("stage", text("NORMALIZE"))
        .with("code", text("NO_SOURCE_FUNCTION"))
        .with("resolution", text("UNKNOWN"))
        .with("provider", text("K2_FIR_CFG"))
        .with(
            "sourceProvenance",
            text("COMPILER_UTF16_RANGE_TO_UTF8_BYTES"),
        )
        .with("rawRowHash", text(&digest("row")));
    assert!(validate_boundary(&boundary).is_ok());
    assert!(validate_boundary(&boundary.copied().with("nodes", Json::Arr(Vec::new()))).is_err());
    assert!(validate_boundary(&boundary.copied().with("code", text("OTHER"))).is_err());
    assert!(validate_boundary(&boundary.with("file", text("/etc/x"))).is_err());
}

#[test]
fn compiler_order_comes_from_the_graph_of_the_owner() {
    let mut fixture = Fixture::new();
    fixture.declare("p/a.one");
    fixture.declare("p/a.two");
    fixture.call(
        "p/a.one",
        "p/a.two",
        RelationshipAuthority::VerifiedSameSnapshotCompilationDependency,
        Json::object()
            .with("orderProvenance", text("K2_FIR_CFG"))
            .with("cfgNodeIds", Json::Arr(vec![Json::Uint(1)])),
    );
    let graph = prepared_graph(&mut fixture, "p/a.one");
    let graph_id = graph.payload.graph_id.clone();
    let mut catalog = LocalCfgCatalog::default();
    catalog.insert(graph).unwrap();
    let set = fixture.fact_set();
    let prepared =
        build_with_cfg(request(&set, "p/a.one", MAX_FLOW_DEPTH), &set, &catalog).unwrap();
    let edge = &prepared.slice.edges[0];
    assert_eq!(edge.order_authority, FlowOrderAuthority::CompilerCfg);
    assert_eq!(edge.cfg_graph_id.as_ref(), Some(&graph_id));
    assert_eq!(edge.cfg_node_ids, vec![1]);
    assert_eq!(prepared.slice.control_flow_regions.len(), 1);
    verify_prepared_with_cfg(&prepared, &set, &catalog).unwrap();
    assert!(verify_prepared_with_cfg(&prepared, &set, &LocalCfgCatalog::default()).is_err());
}

#[test]
fn created_flows_are_published_once_and_load_again() {
    let mut fixture = chain();
    let set = fixture.fact_set();
    let catalog = LocalCfgCatalog::default();
    let (prepared, root) = thread_flow_service::create(
        &fixture.thread,
        &None,
        &set,
        &catalog,
        &fixture.store.all(),
        ThreadFlowServiceRequest {
            pair_id: "pair".to_owned(),
            member_alias: "consumer".to_owned(),
            root_kind: FlowRootKind::FullSymbol,
            root: symbol("p/a.one"),
            direction: FlowDirection::Downstream,
            max_depth: MAX_FLOW_DEPTH,
        },
    )
    .unwrap();
    assert_eq!(
        validate_flow_id(&root.flow_id).unwrap(),
        root.flow_id.rsplit_once("sha256:").unwrap().1
    );
    assert!(matches!(
        thread_flow_service::publish(None, &root),
        Ok(Publication::Write)
    ));
    let root_bytes = root.to_json().bytes();
    assert!(matches!(
        thread_flow_service::publish(Some(&root_bytes), &root),
        Ok(Publication::AlreadyPublished)
    ));
    thread_flow_service::confirm_published(&prepared.slice_ref, &prepared).unwrap();
    fixture
        .store
        .put(&prepared.slice_ref.object_schema, &prepared.slice_bytes);
    let retained = RetainedFlow {
        root_bytes: Some(root_bytes),
        root: Some(root.copied()),
        slice: Some(prepared.slice.copied()),
        reads: fixture.store.all(),
    };
    let loaded =
        thread_flow_service::load(&fixture.thread, &None, &root.flow_id, &retained, &set, &catalog)
            .unwrap();
    assert!(loaded.same_as(&root));
    let shown = thread_flow_service::bounded_stdout(&root).unwrap();
    assert!(shown.bytes().len() < 64 * 1024);
    assert!(root.to_json().bytes().len() < shown.bytes().len() + 3 * 1024);
    let mut without = retained;
    without.reads.pop();
    assert!(
        thread_flow_service::load(&fixture.thread, &None, &root.flow_id, &without, &set, &catalog)
            .is_err()
    );
    assert!(validate_flow_id("thread-flow:none").is_err());
}
