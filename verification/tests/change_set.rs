//! Comparisons of declarations, coverage documents, and the bounds of change sets.

use clew::canonical;
use clew::cas::CasObject;
use clew::error::{ClewError, ErrorCode};
use clew::json::Json;
use clew::record::Record;
use clew::thread::RuntimeMode;
use clew::thread_callables::DeclarationKind;
use clew::thread_change_set::{
    canonical_closure, compare_declaration_pair, compare_exact_lanes, enforce_at_most,
    enforce_exact, normalize_coverage_document, rule, rules_digest_for, safe_alias,
    safe_tracking_id, target, validate_coverage, validate_validator_runtime, write_document,
    ChangeDeclarationEvidence, ChangeObligationDetail, ChangeRuleInput, ChangeRuleSemantics,
    ChangeSetBudgets, ComparisonObligationCode, CoverageDocumentEntry, CoverageHandling,
    CoverageHandlingKind, CoverageTarget, CoverageTargetKind, CoverageTargetSubject,
    KotlinChangeCode, KotlinChangeCoverageDocument, KotlinChangeRules, LaneDeclarations,
    ValidatorRuntimeAuthority, VerificationCategory, KOTLIN_CHANGE_COVERAGE_DOCUMENT_SCHEMA,
    KOTLIN_CHANGE_RULES_SCHEMA, MAX_CHANGE_COVERAGE_DOCUMENT_BYTES, MAX_CHANGE_COVERAGE_ENTRIES,
    MAX_CHANGE_DERIVED_CAS_OBJECTS, MAX_CHANGE_MEMBER_CORRESPONDENCES,
};
use clew::thread_impact::{ImpactFindingAuthority, ImpactSide};
use serde_json::Value;

fn digest(label: &str) -> String {
    canonical::hash(&Json::Str(label.to_owned()))
}

fn text(value: &str) -> Json {
    Json::Str(value.to_owned())
}

fn array(items: Vec<Json>) -> Json {
    Json::Arr(items)
}

fn base_shape() -> Json {
    Json::object()
        .with("declarationKind", text("FUNCTION"))
        .with(
            "symbolIdentity",
            text("callable:p.Service.read#jvm:(Ljava/lang/String;)Ljava/lang/String;"),
        )
        .with("ownerIdentity", text("class:p.Service"))
        .with("containment", array(vec![text("class:p.Service")]))
        .with("visibility", text("public"))
        .with("effectiveVisibility", text("public"))
        .with("exportBoundary", text("PUBLIC_API"))
        .with("modality", text("FINAL"))
        .with("compilerCallableId", text("p.Service.read"))
        .with("isOverride", Json::Bool(false))
        .with("jvmDescriptor", text("(Ljava/lang/String;)Ljava/lang/String;"))
        .with("returnType", text("kotlin/String"))
        .with("returnNullable", Json::Bool(false))
        .with(
            "parameterTypes",
            array(vec![Json::object()
                .with("index", Json::Uint(0))
                .with("type", text("kotlin/String"))
                .with("nullable", Json::Bool(false))]),
        )
        .with(
            "receiverType",
            Json::object()
                .with("type", text("p.Service"))
                .with("nullable", Json::Bool(false)),
        )
        .with(
            "typeParameters",
            array(vec![Json::object()
                .with("index", Json::Uint(0))
                .with("compilerName", text("T"))
                .with("bounds", array(vec![text("kotlin/Any")]))]),
        )
}

fn place<'a>(value: &'a mut Json, path: &str) -> &'a mut Json {
    let mut here = value;
    for part in path.split('/').skip(1) {
        here = match here {
            Json::Obj(members) => {
                let at = members.iter().position(|(key, _)| key == part).unwrap();
                &mut members[at].1
            }
            Json::Arr(items) => &mut items[part.parse::<usize>().unwrap()],
            _ => panic!("no place {path}"),
        };
    }
    here
}

fn declaration(label: &str, shape: Json) -> ChangeDeclarationEvidence {
    ChangeDeclarationEvidence {
        finding_id: digest(&format!("finding-{label}")),
        fact_id: digest(&format!("fact-{label}")),
        member_alias: "provider".to_owned(),
        authority: ImpactFindingAuthority::ExactProjectedDeclaration,
        declaration_kind: DeclarationKind::Function,
        symbol_identity: shape.str_at("symbolIdentity").unwrap().clone(),
        compiler_callable_id: Some("p.Service.read".to_owned()),
        compiler_class_id: None,
        shape_digest: Some(canonical::hash(&shape)),
        projected_shape: shape,
    }
}

fn compared_codes(
    before: ChangeDeclarationEvidence,
    after: ChangeDeclarationEvidence,
) -> (Vec<KotlinChangeCode>, Vec<ChangeObligationDetail>) {
    let mut observations = Vec::new();
    let mut obligations = Vec::new();
    compare_declaration_pair(
        ImpactSide::Provider,
        &before,
        &after,
        &mut observations,
        &mut obligations,
    );
    (
        observations
            .into_iter()
            .map(|observation| observation.code)
            .collect(),
        obligations,
    )
}

fn mutate_shape(path: &str, value: Json) -> ChangeDeclarationEvidence {
    let mut shape = base_shape();
    *place(&mut shape, path) = value;
    declaration(path, shape)
}

#[test]
fn every_exact_field_mapping_emits_only_its_frozen_kcd_code() {
    let cases = vec![
        (
            "/jvmDescriptor",
            text("(I)Ljava/lang/String;"),
            KotlinChangeCode::KcdJvmDescriptorChanged,
        ),
        (
            "/parameterTypes/0/type",
            text("kotlin/Int"),
            KotlinChangeCode::KcdParameterTypesChanged,
        ),
        (
            "/returnType",
            text("kotlin/Int"),
            KotlinChangeCode::KcdReturnTypeChanged,
        ),
        (
            "/receiverType/type",
            text("p.Other"),
            KotlinChangeCode::KcdReceiverTypeChanged,
        ),
        (
            "/returnNullable",
            Json::Bool(true),
            KotlinChangeCode::KcdNullabilityChanged,
        ),
        (
            "/typeParameters/0/bounds/0",
            text("kotlin/Number"),
            KotlinChangeCode::KcdTypeParameterBoundsChanged,
        ),
        (
            "/effectiveVisibility",
            text("internal"),
            KotlinChangeCode::KcdVisibilityChanged,
        ),
        ("/modality", text("OPEN"), KotlinChangeCode::KcdModalityChanged),
        (
            "/isOverride",
            Json::Bool(true),
            KotlinChangeCode::KcdOverrideStatusChanged,
        ),
    ];
    for (path, value, expected) in cases {
        let (codes, obligations) = compared_codes(
            declaration("before", base_shape()),
            mutate_shape(path, value),
        );
        assert_eq!(codes, vec![expected], "case {path}");
        assert!(obligations.is_empty(), "case {path}");
    }
}

#[test]
fn equal_declarations_emit_nothing() {
    let (codes, obligations) = compared_codes(
        declaration("before", base_shape()),
        declaration("after", base_shape()),
    );
    assert!(codes.is_empty());
    assert!(obligations.is_empty());
}

#[test]
fn explicit_nullability_is_not_double_counted_as_a_type_change() {
    let mut after = base_shape();
    *place(&mut after, "/returnType") = text("kotlin/String?");
    *place(&mut after, "/returnNullable") = Json::Bool(true);
    *place(&mut after, "/parameterTypes/0/type") = text("kotlin/String?");
    *place(&mut after, "/parameterTypes/0/nullable") = Json::Bool(true);
    let (codes, _) = compared_codes(
        declaration("before", base_shape()),
        declaration("after", after),
    );
    assert_eq!(codes, vec![KotlinChangeCode::KcdNullabilityChanged]);
}

#[test]
fn unknown_residual_shape_is_unsupported_and_has_an_obligation() {
    let (codes, obligations) = compared_codes(
        declaration("before", base_shape()),
        mutate_shape("/ownerIdentity", text("class:p.Other")),
    );
    assert_eq!(codes, vec![KotlinChangeCode::KcdUnsupportedComparison]);
    assert!(matches!(
        obligations.as_slice(),
        [ChangeObligationDetail::Comparison {
            code: ComparisonObligationCode::VerifyUnsupportedComparison,
            ..
        }]
    ));
}

fn lane(rows: Vec<ChangeDeclarationEvidence>, absence_complete: bool) -> LaneDeclarations {
    LaneDeclarations {
        exact: rows,
        unsupported_declarations: Vec::new(),
        unsupported_finding_ids: Vec::new(),
        absence_complete,
    }
}

fn with_symbol(label: &str, symbol: &str, callable: &str) -> ChangeDeclarationEvidence {
    let shape = base_shape()
        .with("symbolIdentity", text(symbol))
        .with("compilerCallableId", text(callable));
    let mut row = declaration(label, shape);
    row.symbol_identity = symbol.to_owned();
    row.compiler_callable_id = Some(callable.to_owned());
    row
}

fn lane_codes(
    before: LaneDeclarations,
    after: LaneDeclarations,
) -> (Vec<KotlinChangeCode>, Vec<ChangeObligationDetail>) {
    let mut observations = Vec::new();
    let mut obligations = Vec::new();
    compare_exact_lanes(
        ImpactSide::Provider,
        &before,
        &after,
        &mut observations,
        &mut obligations,
    )
    .unwrap();
    (
        observations
            .into_iter()
            .map(|observation| observation.code)
            .collect(),
        obligations,
    )
}

#[test]
fn complete_presence_and_absence_emit_added_and_removed() {
    let row = with_symbol("one", "callable:p.Service.read#jvm:()V", "p.Service.read");
    let (added, _) = lane_codes(lane(Vec::new(), true), lane(vec![row.copied()], true));
    let (removed, _) = lane_codes(lane(vec![row], true), lane(Vec::new(), true));
    assert_eq!(added, vec![KotlinChangeCode::KcdCallableAdded]);
    assert_eq!(removed, vec![KotlinChangeCode::KcdCallableRemoved]);
}

#[test]
fn adding_or_removing_an_overload_does_not_claim_family_appearance() {
    let common = with_symbol("common", "callable:p.Service.read#jvm:(I)V", "p.Service.read");
    let added = with_symbol("added", "callable:p.Service.read#jvm:(J)V", "p.Service.read");
    let (addition, addition_obligations) = lane_codes(
        lane(vec![common.copied()], true),
        lane(vec![common.copied(), added.copied()], true),
    );
    let (removal, removal_obligations) = lane_codes(
        lane(vec![common, added], true),
        lane(
            vec![with_symbol(
                "common-after",
                "callable:p.Service.read#jvm:(I)V",
                "p.Service.read",
            )],
            true,
        ),
    );
    assert_eq!(addition, vec![KotlinChangeCode::KcdOverloadSetChanged]);
    assert_eq!(removal, vec![KotlinChangeCode::KcdOverloadSetChanged]);
    assert!(addition_obligations.is_empty());
    assert!(removal_obligations.is_empty());
}

#[test]
fn partial_absence_never_emits_added_removed_or_overload_claims() {
    let row = with_symbol("one", "callable:p.Service.read#jvm:()V", "p.Service.read");
    let (codes, obligations) = lane_codes(lane(Vec::new(), false), lane(vec![row], true));
    assert_eq!(codes, vec![KotlinChangeCode::KcdUnsupportedComparison]);
    assert!(matches!(
        obligations.as_slice(),
        [ChangeObligationDetail::Comparison {
            code: ComparisonObligationCode::VerifyUnsupportedComparison,
            ..
        }]
    ));
}

#[test]
fn ambiguous_multiple_unmatched_overloads_use_no_pairing_heuristic() {
    let before = vec![
        with_symbol("b1", "callable:p.Service.read#jvm:(I)V", "p.Service.read"),
        with_symbol("b2", "callable:p.Service.read#jvm:(J)V", "p.Service.read"),
    ];
    let after = vec![
        with_symbol("a1", "callable:p.Service.read#jvm:(S)V", "p.Service.read"),
        with_symbol("a2", "callable:p.Service.read#jvm:(B)V", "p.Service.read"),
    ];
    let (codes, obligations) = lane_codes(lane(before, true), lane(after, true));
    assert_eq!(codes, vec![KotlinChangeCode::KcdOverloadSetChanged]);
    assert!(matches!(
        obligations.as_slice(),
        [ChangeObligationDetail::Comparison {
            code: ComparisonObligationCode::DisambiguateOverloadSet,
            ..
        }]
    ));
}

#[test]
fn one_unmatched_callable_id_pair_is_compared_deterministically() {
    let before = with_symbol("before", "callable:p.Service.read#jvm:(I)V", "p.Service.read");
    let mut after = with_symbol("after", "callable:p.Service.read#jvm:(J)V", "p.Service.read");
    *place(&mut after.projected_shape, "/jvmDescriptor") = text("(J)V");
    let (codes, obligations) = lane_codes(lane(vec![before], true), lane(vec![after], true));
    assert!(codes.contains(&KotlinChangeCode::KcdJvmDescriptorChanged));
    assert!(!codes.contains(&KotlinChangeCode::KcdOverloadSetChanged));
    assert!(obligations.is_empty());
}

#[test]
fn one_changed_overload_beside_a_common_overload_is_not_heuristically_paired() {
    let common = with_symbol("common", "callable:p.Service.read#jvm:(I)V", "p.Service.read");
    let before_changed = with_symbol(
        "before-changed",
        "callable:p.Service.read#jvm:(Ljava/lang/String;)V",
        "p.Service.read",
    );
    let after_changed = with_symbol(
        "after-changed",
        "callable:p.Service.read#jvm:(J)V",
        "p.Service.read",
    );
    let (codes, obligations) = lane_codes(
        lane(vec![common.copied(), before_changed], true),
        lane(vec![common, after_changed], true),
    );
    assert_eq!(codes, vec![KotlinChangeCode::KcdOverloadSetChanged]);
    assert!(matches!(
        obligations.as_slice(),
        [ChangeObligationDetail::Comparison {
            code: ComparisonObligationCode::DisambiguateOverloadSet,
            ..
        }]
    ));
}

fn coverage_target(comparison: &str, suffix: &str) -> CoverageTarget {
    target(
        comparison,
        CoverageTargetKind::Observation,
        &vec![VerificationCategory::StructuralComparison],
        CoverageTargetSubject::Observation {
            observation_id: digest(suffix),
            code: KotlinChangeCode::KcdReturnTypeChanged,
            side: ImpactSide::Provider,
        },
    )
}

#[test]
fn categories_of_a_target_are_a_set() {
    let subject = || CoverageTargetSubject::Observation {
        observation_id: digest("same"),
        code: KotlinChangeCode::KcdReturnTypeChanged,
        side: ImpactSide::Provider,
    };
    let of = |categories: &Vec<VerificationCategory>| {
        target(
            &digest("comparison"),
            CoverageTargetKind::Observation,
            categories,
            subject(),
        )
    };
    let (a, b) = (
        VerificationCategory::StructuralComparison,
        VerificationCategory::ComparisonBoundary,
    );
    let one = of(&vec![a, b]);
    let two = of(&vec![b, a, b, a]);
    assert_eq!(one.target_id, two.target_id);
    assert_eq!(one.required_categories, two.required_categories);
    assert_eq!(one.required_categories.len(), 2);
    assert!(one.target_id != of(&vec![a]).target_id);
}

fn coverage_bytes(entries: Vec<CoverageDocumentEntry>) -> Vec<u8> {
    write_document(&document(entries))
}

fn document(entries: Vec<CoverageDocumentEntry>) -> KotlinChangeCoverageDocument {
    KotlinChangeCoverageDocument {
        schema: KOTLIN_CHANGE_COVERAGE_DOCUMENT_SCHEMA.to_owned(),
        entries,
    }
}

fn entry(target: &CoverageTarget, id: &str) -> CoverageDocumentEntry {
    CoverageDocumentEntry {
        target_id: target.target_id.clone(),
        required_categories: target.required_categories.copied(),
        handling: CoverageHandling {
            kind: CoverageHandlingKind::ExternalWork,
            id: id.to_owned(),
        },
    }
}

fn category(name: &str) -> Option<VerificationCategory> {
    match name {
        "MEMBER_AUTHORITY" => Some(VerificationCategory::MemberAuthority),
        "STRUCTURAL_COMPARISON" => Some(VerificationCategory::StructuralComparison),
        "COMPILER_BOUNDARY" => Some(VerificationCategory::CompilerBoundary),
        "RELATIONSHIP_AUTHORITY" => Some(VerificationCategory::RelationshipAuthority),
        "UPSTREAM_OBLIGATION" => Some(VerificationCategory::UpstreamObligation),
        "COMPARISON_BOUNDARY" => Some(VerificationCategory::ComparisonBoundary),
        _ => None,
    }
}

fn parsed_entry(value: &Value) -> Option<CoverageDocumentEntry> {
    let fields = value.as_object()?;
    if fields.len() != 3 {
        return None;
    }
    let handling = fields.get("handling")?.as_object()?;
    if handling.len() != 2 {
        return None;
    }
    let kind = match handling.get("kind")?.as_str()? {
        "ACTION" => CoverageHandlingKind::Action,
        "EXTERNAL_WORK" => CoverageHandlingKind::ExternalWork,
        _ => return None,
    };
    let mut required_categories = Vec::new();
    for name in fields.get("requiredCategories")?.as_array()? {
        required_categories.push(category(name.as_str()?)?);
    }
    Some(CoverageDocumentEntry {
        target_id: fields.get("targetId")?.as_str()?.to_owned(),
        required_categories,
        handling: CoverageHandling {
            kind,
            id: handling.get("id")?.as_str()?.to_owned(),
        },
    })
}

fn parsed(raw: &[u8]) -> Option<KotlinChangeCoverageDocument> {
    let value: Value = serde_json::from_slice(raw).ok()?;
    let fields = value.as_object()?;
    if fields.len() != 2 {
        return None;
    }
    let mut entries = Vec::new();
    for entry in fields.get("entries")?.as_array()? {
        entries.push(parsed_entry(entry)?);
    }
    Some(KotlinChangeCoverageDocument {
        schema: fields.get("schema")?.as_str()?.to_owned(),
        entries,
    })
}

fn normalized(
    raw: &Vec<u8>,
    budgets: &ChangeSetBudgets,
) -> Result<(KotlinChangeCoverageDocument, Vec<u8>), ClewError> {
    normalize_coverage_document(raw, &parsed(raw), budgets)
}

#[test]
fn coverage_document_is_closed_normalized_and_permutation_stable() {
    let a = coverage_target(&digest("comparison"), "a");
    let b = coverage_target(&digest("comparison"), "b");
    let budgets = ChangeSetBudgets::frozen();
    let (left, left_bytes) = normalized(
        &coverage_bytes(vec![entry(&a, "work-a"), entry(&b, "work-b")]),
        &budgets,
    )
    .unwrap();
    let (right, right_bytes) = normalized(
        &coverage_bytes(vec![entry(&b, "work-b"), entry(&a, "work-a")]),
        &budgets,
    )
    .unwrap();
    assert_eq!(left, right);
    assert_eq!(left_bytes, right_bytes);

    let unknown_field = Json::object()
        .with("schema", text(KOTLIN_CHANGE_COVERAGE_DOCUMENT_SCHEMA))
        .with("entries", array(Vec::new()))
        .with("command", text("rm -rf anything"))
        .bytes();
    assert!(normalized(&unknown_field, &budgets).is_err());
}

#[test]
fn normal_documents_stay_normal() {
    let a = coverage_target(&digest("comparison"), "a");
    let b = coverage_target(&digest("comparison"), "b");
    let budgets = ChangeSetBudgets::frozen();
    let (once, once_bytes) = normalized(
        &coverage_bytes(vec![entry(&b, "work-b"), entry(&a, "work-a")]),
        &budgets,
    )
    .unwrap();
    let (twice, twice_bytes) = normalized(&once_bytes, &budgets).unwrap();
    assert_eq!(once, twice);
    assert_eq!(once_bytes, twice_bytes);
}

#[test]
fn tracking_identity_rejects_paths_shell_text_urls_and_colons() {
    for rejected in [
        "../work",
        "/tmp/work",
        "work item",
        "work:1",
        "work/1",
        "$(work)",
        "https://example.invalid",
        "a;echo",
        "a\\b",
    ] {
        assert!(!safe_tracking_id(rejected), "{rejected}");
    }
    for accepted in ["A", "work-123", "TASK_1.2"] {
        assert!(safe_tracking_id(accepted), "{accepted}");
    }
}

#[test]
fn identities_have_bounded_lengths() {
    assert!(!safe_tracking_id(""));
    assert!(!safe_alias(""));
    assert!(safe_alias("provider"));
    assert!(!safe_alias("pro/vider"));
    assert!(safe_tracking_id(&"a".repeat(128)));
    assert!(!safe_tracking_id(&"a".repeat(129)));
}

#[test]
fn missing_coverage_is_incomplete_but_unknown_or_category_mismatch_is_rejected() {
    let targets = vec![coverage_target(&digest("comparison"), "target")];
    let rows = validate_coverage(&targets, &document(Vec::new())).unwrap();
    assert_eq!(rows.len(), 1);
    assert!(!rows[0].covered);

    let mut wrong = entry(&targets[0], "work");
    wrong.required_categories = vec![VerificationCategory::CompilerBoundary];
    assert!(validate_coverage(&targets, &document(vec![wrong])).is_err());
    let mut unknown = entry(&targets[0], "work");
    unknown.target_id = digest("stale");
    assert!(validate_coverage(&targets, &document(vec![unknown])).is_err());
}

#[test]
fn present_coverage_is_complete() {
    let targets = vec![coverage_target(&digest("comparison"), "target")];
    let rows = validate_coverage(&targets, &document(vec![entry(&targets[0], "work")])).unwrap();
    assert_eq!(rows.len(), 1);
    assert!(rows[0].covered);
    assert_eq!(rows[0].target_id, targets[0].target_id);
    assert_eq!(rows[0].handling.as_ref().unwrap().id, "work");
}

#[test]
fn duplicate_targets_and_categories_are_rejected_before_validation() {
    let target = coverage_target(&digest("comparison"), "target");
    let duplicate_targets = coverage_bytes(vec![entry(&target, "a"), entry(&target, "b")]);
    assert!(normalized(&duplicate_targets, &ChangeSetBudgets::frozen()).is_err());
    let mut duplicate_category = entry(&target, "a");
    duplicate_category
        .required_categories
        .push(VerificationCategory::StructuralComparison);
    assert!(normalized(
        &coverage_bytes(vec![duplicate_category]),
        &ChangeSetBudgets::frozen()
    )
    .is_err());
}

#[test]
fn coverage_raw_and_canonical_bounds_are_exact_and_fail_at_plus_one() {
    let budgets = ChangeSetBudgets::frozen();
    let mut exact = coverage_bytes(Vec::new());
    exact.resize(MAX_CHANGE_COVERAGE_DOCUMENT_BYTES, b' ');
    assert!(normalized(&exact, &budgets).is_ok());
    exact.push(b' ');
    let error = normalized(&exact, &budgets).unwrap_err();
    assert_eq!(error.code, ErrorCode::SliceBudgetExceeded);
}

#[test]
fn coverage_entry_bound_is_exact_and_fails_at_plus_one() {
    let budgets = ChangeSetBudgets::frozen();
    let mut entries = Vec::new();
    for index in 0..MAX_CHANGE_COVERAGE_ENTRIES {
        entries.push(CoverageDocumentEntry {
            target_id: digest(&format!("target-{index}")),
            required_categories: vec![VerificationCategory::StructuralComparison],
            handling: CoverageHandling {
                kind: CoverageHandlingKind::Action,
                id: format!("a{index}"),
            },
        });
    }
    let bytes = coverage_bytes(entries.copied());
    assert!(bytes.len() < MAX_CHANGE_COVERAGE_DOCUMENT_BYTES);
    assert!(normalized(&bytes, &budgets).is_ok());
    let mut too_many = entries;
    too_many.push(CoverageDocumentEntry {
        target_id: digest("one-too-many"),
        required_categories: vec![VerificationCategory::StructuralComparison],
        handling: CoverageHandling {
            kind: CoverageHandlingKind::Action,
            id: "overflow".to_owned(),
        },
    });
    let error = normalized(&coverage_bytes(too_many), &budgets).unwrap_err();
    assert_eq!(error.code, ErrorCode::SliceBudgetExceeded);
}

#[test]
fn canonical_coverage_bytes_can_reach_the_exact_frozen_limit() {
    let budgets = ChangeSetBudgets::frozen();
    let mut entries = Vec::new();
    for index in 0..MAX_CHANGE_COVERAGE_ENTRIES {
        entries.push(CoverageDocumentEntry {
            target_id: digest(&format!("canonical-target-{index}")),
            required_categories: vec![VerificationCategory::StructuralComparison],
            handling: CoverageHandling {
                kind: CoverageHandlingKind::Action,
                id: "a".to_owned(),
            },
        });
    }
    let mut document = document(entries);
    let baseline = write_document(&document).len();
    let mut remaining = MAX_CHANGE_COVERAGE_DOCUMENT_BYTES - baseline;
    for entry in &mut document.entries {
        let added = remaining.min(127);
        entry.handling.id.push_str(&"x".repeat(added));
        remaining -= added;
        if remaining == 0 {
            break;
        }
    }
    assert_eq!(remaining, 0, "closed grammar must span the frozen byte limit");
    let exact = write_document(&document);
    assert_eq!(exact.len(), MAX_CHANGE_COVERAGE_DOCUMENT_BYTES);
    assert!(normalized(&exact, &budgets).is_ok());
    assert!(enforce_at_most(
        exact.len() + 1,
        budgets.max_coverage_document_bytes,
        "coverage canonical overflow"
    )
    .is_err());
}

#[test]
fn every_frozen_count_bound_passes_at_limit_and_fails_at_plus_one() {
    let budgets = ChangeSetBudgets::frozen();
    for maximum in [
        budgets.max_observations,
        budgets.max_obligations,
        budgets.max_result_rows,
    ] {
        assert!(enforce_at_most(maximum, maximum, "bounded").is_ok());
        assert_eq!(
            enforce_at_most(maximum + 1, maximum, "bounded").unwrap_err().code,
            ErrorCode::SliceBudgetExceeded
        );
    }
    assert!(enforce_exact(
        MAX_CHANGE_MEMBER_CORRESPONDENCES,
        budgets.max_member_correspondences,
        "pair"
    )
    .is_ok());
    assert!(enforce_exact(
        MAX_CHANGE_MEMBER_CORRESPONDENCES + 1,
        budgets.max_member_correspondences,
        "pair"
    )
    .is_err());
    assert!(enforce_exact(
        MAX_CHANGE_DERIVED_CAS_OBJECTS,
        budgets.max_derived_cas_objects,
        "derived"
    )
    .is_ok());
    assert!(enforce_exact(
        MAX_CHANGE_DERIVED_CAS_OBJECTS + 1,
        budgets.max_derived_cas_objects,
        "derived"
    )
    .is_err());
}

#[test]
fn comparison_digest_domain_makes_target_ids_authority_specific() {
    let left = coverage_target(&digest("comparison-left"), "same");
    let right = coverage_target(&digest("comparison-right"), "same");
    assert_ne!(left.target_id, right.target_id);
}

#[test]
fn exact_rules_mapping_is_part_of_rules_digest() {
    let original = KotlinChangeRules {
        schema: KOTLIN_CHANGE_RULES_SCHEMA.to_owned(),
        rows: vec![rule(
            ChangeRuleInput::JvmDescriptor,
            KotlinChangeCode::KcdJvmDescriptorChanged,
        )],
        verdict_semantics: ChangeRuleSemantics::ObservationOnly,
    };
    let changed = KotlinChangeRules {
        schema: KOTLIN_CHANGE_RULES_SCHEMA.to_owned(),
        rows: vec![rule(
            ChangeRuleInput::JvmDescriptor,
            KotlinChangeCode::KcdReturnTypeChanged,
        )],
        verdict_semantics: ChangeRuleSemantics::ObservationOnly,
    };
    assert_ne!(rules_digest_for(&original), rules_digest_for(&changed));
}

#[test]
fn closure_unions_deduplicates_sorts_and_enforces_exact_byte_bound() {
    let first = CasObject::for_bytes("proof/1.0", b"first");
    let second = CasObject::for_bytes("proof/1.0", b"second");
    let (closure, bytes) = canonical_closure(
        &vec![second.copied(), first.copied(), first.copied()],
        first.size as usize + second.size as usize,
    )
    .unwrap();
    assert_eq!(closure.len(), 2);
    assert_eq!(bytes, first.size as usize + second.size as usize);
    assert!(canonical_closure(&vec![first, second], bytes - 1).is_err());
}

#[test]
fn frozen_budgets_reject_every_caller_override() {
    let mut budgets = ChangeSetBudgets::frozen();
    assert!(budgets.validate().is_ok());
    budgets.max_observations -= 1;
    assert!(budgets.validate().is_err());
}

#[test]
fn validator_runtime_requires_sha256_but_is_independent_of_parent_runtime() {
    let key = digest("runtime");
    let manifest = digest("manifest");
    assert!(validate_validator_runtime(&ValidatorRuntimeAuthority {
        runtime_key: key.clone(),
        runtime_mode: RuntimeMode::Development,
        manifest_digest: manifest.clone(),
    })
    .is_ok());
    assert!(validate_validator_runtime(&ValidatorRuntimeAuthority {
        runtime_key: "runtime:ambient".to_owned(),
        runtime_mode: RuntimeMode::Development,
        manifest_digest: manifest,
    })
    .is_err());
    assert!(validate_validator_runtime(&ValidatorRuntimeAuthority {
        runtime_key: key,
        runtime_mode: RuntimeMode::Release,
        manifest_digest: "manifest:ambient".to_owned(),
    })
    .is_err());
}
