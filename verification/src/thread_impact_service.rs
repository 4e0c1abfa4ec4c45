//! Checks around the publication and the retained loading of impacts.

use vstd::prelude::*;
use vstd::string::*;

use crate::cas::{is_bound, CasObject, CasObjectModel};
use crate::error::{
    accept, accepted, budget, corrupt, corrupted, exceeded, failure, invalid, outcome, refused,
    ClewError, ErrorCode, ErrorModel,
};
use crate::json::{canonical_bytes, Json, JsonModel};
use crate::record::Record;
use crate::retained::{
    check_sources, creation_settled, decide_publication, digest_makes_id, digits_of_id,
    group_anchor, grouped, grouping_stays_among, host_size, id_digits, is_source_path, object_bytes,
    object_reads_back, publication_of, read_object, reads_back, settle_creation, source_path,
    sources_among, sources_checked, sources_pass_again, to_host_size, ObjectRead, ObjectReadModel,
    Publication, SourceGroup, SourceGroupModel, SourceReports, SourceReportsModel,
};
use crate::table::{find_record, last_table, latest_table_of, Keyed};
use crate::text::{copy_bytes, is_digest, joined, same_bytes, same_text};
use crate::thread::{ThreadAuthority, ThreadAuthorityModel};
use crate::thread_callables::{
    CallableQueryTrace, CallableQueryTraceModel, PreparedCallableFactSet,
    PreparedCallableFactSetModel, PreparedCasObject, PreparedCasObjectModel,
};
use crate::thread_impact::{
    authority_bytes_of, build_from_verified, closure_holds_the_sources, evidence_bytes_of,
    evidence_of, facts_among, frozen_budgets, impact_built, impact_verified, project,
    projection_bytes_of, projection_of, published_impact_keeps_mandatory_parts,
    verify_prepared_from_verified, write_authority, write_evidence, write_projection, ImpactBudgets,
    ImpactFactPointer, ImpactFactPointerModel, ImpactFinding, ImpactFindingModel,
    KotlinImpactSubject, KotlinImpactSubjectModel, PreparedThreadImpact, PreparedThreadImpactModel,
    ThreadImpactAuthority, ThreadImpactAuthorityModel, ThreadImpactEvidence,
    ThreadImpactEvidenceModel, ThreadImpactProjection, ThreadImpactProjectionModel,
    ThreadImpactRequest, ThreadImpactRequestModel, MAX_IMPACT_RETAINED_CLOSURE_BYTES,
    MAX_IMPACT_STDOUT_BYTES, THREAD_IMPACT_EVIDENCE_SCHEMA,
};

verus! {

pub const THREAD_IMPACT_ROOT_SCHEMA: &'static str = "codeclew-thread-impact-root/1.0";

pub const THREAD_IMPACT_RESULT_SCHEMA: &'static str = "codeclew-thread-impact-result/1.0";

pub const MAX_THREAD_IMPACT_ROOT_BYTES: usize = 65 * 1024 * 1024;

/// What an impact of a thread is asked for.
#[derive(Debug, PartialEq, Eq)]
pub struct ThreadImpactServiceRequest {
    pub pair_id: String,
    pub subject: KotlinImpactSubject,
}

/// The model of a [`ThreadImpactServiceRequest`].
pub struct ThreadImpactServiceRequestModel {
    pub pair_id: Seq<char>,
    pub subject: KotlinImpactSubjectModel,
}

impl DeepView for ThreadImpactServiceRequest {
    type V = ThreadImpactServiceRequestModel;

    open spec fn deep_view(&self) -> ThreadImpactServiceRequestModel {
        ThreadImpactServiceRequestModel {
            pair_id: self.pair_id.deep_view(),
            subject: self.subject.deep_view(),
        }
    }
}

impl Record for ThreadImpactServiceRequest {
    open spec fn json(v: ThreadImpactServiceRequestModel) -> JsonModel {
        JsonModel::object()
            .with("pairId"@, <String as Record>::json(v.pair_id))
            .with("subject"@, <KotlinImpactSubject as Record>::json(v.subject))
    }

    fn copied(&self) -> (r: ThreadImpactServiceRequest) {
        ThreadImpactServiceRequest {
            pair_id: self.pair_id.copied(),
            subject: self.subject.copied(),
        }
    }

    fn same_as(&self, other: &ThreadImpactServiceRequest) -> (r: bool) {
        self.pair_id.same_as(&other.pair_id)
            && self.subject.same_as(&other.subject)
    }

    fn to_json(&self) -> (r: Json) {
        Json::object()
            .with("pairId", self.pair_id.to_json())
            .with("subject", self.subject.to_json())
    }
}

/// The retained root of an impact.
#[derive(Debug, PartialEq, Eq)]
pub struct ThreadImpactRoot {
    pub schema: String,
    pub impact_id: String,
    pub thread_id: String,
    pub thread_authority_digest: String,
    pub fact_set_id: String,
    pub fact_set_authority_digest: String,
    pub authority: ThreadImpactAuthority,
    pub projection: ThreadImpactProjection,
}

/// The model of a [`ThreadImpactRoot`].
pub struct ThreadImpactRootModel {
    pub schema: Seq<char>,
    pub impact_id: Seq<char>,
    pub thread_id: Seq<char>,
    pub thread_authority_digest: Seq<char>,
    pub fact_set_id: Seq<char>,
    pub fact_set_authority_digest: Seq<char>,
    pub authority: ThreadImpactAuthorityModel,
    pub projection: ThreadImpactProjectionModel,
}

impl DeepView for ThreadImpactRoot {
    type V = ThreadImpactRootModel;

    open spec fn deep_view(&self) -> ThreadImpactRootModel {
        ThreadImpactRootModel {
            schema: self.schema.deep_view(),
            impact_id: self.impact_id.deep_view(),
            thread_id: self.thread_id.deep_view(),
            thread_authority_digest: self.thread_authority_digest.deep_view(),
            fact_set_id: self.fact_set_id.deep_view(),
            fact_set_authority_digest: self.fact_set_authority_digest.deep_view(),
            authority: self.authority.deep_view(),
            projection: self.projection.deep_view(),
        }
    }
}

impl Record for ThreadImpactRoot {
    open spec fn json(v: ThreadImpactRootModel) -> JsonModel {
        JsonModel::object()
            .with("schema"@, <String as Record>::json(v.schema))
            .with("impactId"@, <String as Record>::json(v.impact_id))
            .with("threadId"@, <String as Record>::json(v.thread_id))
            .with("threadAuthorityDigest"@, <String as Record>::json(v.thread_authority_digest))
            .with("factSetId"@, <String as Record>::json(v.fact_set_id))
            .with("factSetAuthorityDigest"@, <String as Record>::json(v.fact_set_authority_digest))
            .with("authority"@, <ThreadImpactAuthority as Record>::json(v.authority))
            .with("projection"@, <ThreadImpactProjection as Record>::json(v.projection))
    }

    fn copied(&self) -> (r: ThreadImpactRoot) {
        ThreadImpactRoot {
            schema: self.schema.copied(),
            impact_id: self.impact_id.copied(),
            thread_id: self.thread_id.copied(),
            thread_authority_digest: self.thread_authority_digest.copied(),
            fact_set_id: self.fact_set_id.copied(),
            fact_set_authority_digest: self.fact_set_authority_digest.copied(),
            authority: self.authority.copied(),
            projection: self.projection.copied(),
        }
    }

    fn same_as(&self, other: &ThreadImpactRoot) -> (r: bool) {
        self.schema.same_as(&other.schema)
            && self.impact_id.same_as(&other.impact_id)
            && self.thread_id.same_as(&other.thread_id)
            && self.thread_authority_digest.same_as(&other.thread_authority_digest)
            && self.fact_set_id.same_as(&other.fact_set_id)
            && self.fact_set_authority_digest.same_as(&other.fact_set_authority_digest)
            && self.authority.same_as(&other.authority)
            && self.projection.same_as(&other.projection)
    }

    fn to_json(&self) -> (r: Json) {
        Json::object()
            .with("schema", self.schema.to_json())
            .with("impactId", self.impact_id.to_json())
            .with("threadId", self.thread_id.to_json())
            .with("threadAuthorityDigest", self.thread_authority_digest.to_json())
            .with("factSetId", self.fact_set_id.to_json())
            .with("factSetAuthorityDigest", self.fact_set_authority_digest.to_json())
            .with("authority", self.authority.to_json())
            .with("projection", self.projection.to_json())
    }
}

/// The outcome for the identifier of an impact.
pub open spec fn impact_id_checked(impact_id: Seq<char>) -> Result<(), ErrorModel> {
    if id_digits(impact_id, "thread-impact:sha256:"@) is Some {
        Ok(())
    } else {
        refused("thread impact id is invalid"@)
    }
}

/// The name of the file that holds the root of an impact.
pub fn root_file_name(impact_id: &str) -> (r: Result<String, ClewError>)
    ensures
        outcome(r) == (match id_digits(impact_id@, "thread-impact:sha256:"@) {
            Some(digits) => Ok(digits + ".json"@),
            None => refused("thread impact id is invalid"@),
        }),
{
    match digits_of_id(impact_id, "thread-impact:sha256:") {
        Some(digits) => Ok(joined(digits.as_str(), ".json")),
        None => Err(invalid("thread impact id is invalid")),
    }
}

/// Whether the parts of a root agree with each other.
pub open spec fn is_consistent(root: ThreadImpactRootModel) -> bool {
    root.schema == THREAD_IMPACT_ROOT_SCHEMA@ && root.impact_id == "thread-impact:"@
        + root.authority.authority_digest && root.fact_set_authority_digest
        == root.authority.fact_set_authority_digest && root.projection == projection_of(
        root.authority,
    )
}

/// The outcome for a root.
pub open spec fn root_checked(root: ThreadImpactRootModel) -> Result<(), ErrorModel> {
    if is_consistent(root) {
        Ok(())
    } else {
        corrupted("thread impact retained root authority is invalid"@)
    }
}

fn validate_root(root: &ThreadImpactRoot) -> (r: Result<(), ClewError>)
    ensures
        outcome(r) == root_checked(root.deep_view()),
{
    if !same_text(root.schema.as_str(), THREAD_IMPACT_ROOT_SCHEMA) || !same_text(
        root.impact_id.as_str(),
        joined("thread-impact:", root.authority.authority_digest.as_str()).as_str(),
    ) || !root.fact_set_authority_digest.same_as(&root.authority.fact_set_authority_digest)
        || !root.projection.same_as(&project(&root.authority)) {
        return Err(corrupt("thread impact retained root authority is invalid"));
    }
    Ok(())
}

/// The root of an impact on a fact set.
pub open spec fn root_of(
    thread: ThreadAuthorityModel,
    set: PreparedCallableFactSetModel,
    p: PreparedThreadImpactModel,
) -> ThreadImpactRootModel {
    ThreadImpactRootModel {
        schema: THREAD_IMPACT_ROOT_SCHEMA@,
        impact_id: p.projection.impact_id,
        thread_id: thread.thread_id,
        thread_authority_digest: thread.authority_digest,
        fact_set_id: set.fact_set_id,
        fact_set_authority_digest: set.authority.authority_digest,
        authority: p.authority,
        projection: p.projection,
    }
}

fn root_from_prepared(
    thread: &ThreadAuthority,
    fact_set: &PreparedCallableFactSet,
    prepared: &PreparedThreadImpact,
) -> (r: Result<ThreadImpactRoot, ClewError>)
    ensures
        outcome(r) == (match root_checked(
            root_of(thread.deep_view(), fact_set.deep_view(), prepared.deep_view()),
        ) {
            Ok(_) => Ok(root_of(thread.deep_view(), fact_set.deep_view(), prepared.deep_view())),
            Err(e) => Err(e),
        }),
{
    let root = ThreadImpactRoot {
        schema: THREAD_IMPACT_ROOT_SCHEMA.to_owned(),
        impact_id: prepared.projection.impact_id.clone(),
        thread_id: thread.thread_id.clone(),
        thread_authority_digest: thread.authority_digest.clone(),
        fact_set_id: fact_set.fact_set_id.clone(),
        fact_set_authority_digest: fact_set.authority.authority_digest.clone(),
        authority: prepared.authority.copied(),
        projection: prepared.projection.copied(),
    };
    validate_root(&root)?;
    Ok(root)
}

/// The bytes of a root.
#[verifier::opaque]
pub open spec fn root_bytes_of(root: ThreadImpactRootModel) -> Seq<u8> {
    canonical_bytes(<ThreadImpactRoot as Record>::json(root))
}

/// Writes a root.
pub fn write_root(root: &ThreadImpactRoot) -> (r: Vec<u8>)
    ensures
        r@ == root_bytes_of(root.deep_view()),
{
    proof {
        reveal(root_bytes_of);
    }
    root.to_json().bytes()
}

/// What is shown of a root.
#[verifier::opaque]
pub open spec fn shown(root: ThreadImpactRootModel) -> JsonModel {
    JsonModel::object().with("schema"@, JsonModel::Str(THREAD_IMPACT_RESULT_SCHEMA@)).with(
        "threadId"@,
        JsonModel::Str(root.thread_id),
    ).with("threadAuthorityDigest"@, JsonModel::Str(root.thread_authority_digest)).with(
        "factSetId"@,
        JsonModel::Str(root.fact_set_id),
    ).with("factSetAuthorityDigest"@, JsonModel::Str(root.fact_set_authority_digest)).with(
        "impactId"@,
        JsonModel::Str(root.impact_id),
    ).with("authorityDigest"@, JsonModel::Str(root.authority.authority_digest)).with(
        "evidenceRef"@,
        <CasObject as Record>::json(root.authority.evidence_ref),
    ).with("impact"@, <ThreadImpactProjection as Record>::json(root.projection))
}

/// What is shown of a consistent root, where it fits with a line end.
pub open spec fn stdout_bounded(root: ThreadImpactRootModel) -> Result<JsonModel, ErrorModel> {
    match root_checked(root) {
        Err(e) => Err(e),
        Ok(_) => if canonical_bytes(shown(root)).len() + 1 > MAX_IMPACT_STDOUT_BYTES {
            exceeded("thread impact stdout exceeds 64 KiB"@)
        } else {
            Ok(shown(root))
        },
    }
}

/// What is shown of a root.
pub fn bounded_stdout(root: &ThreadImpactRoot) -> (r: Result<Json, ClewError>)
    ensures
        outcome(r) == stdout_bounded(root.deep_view()),
{
    proof {
        reveal(shown);
    }
    validate_root(root)?;
    let value = Json::object().with(
        "schema",
        Json::Str(THREAD_IMPACT_RESULT_SCHEMA.to_owned()),
    ).with("threadId", Json::Str(root.thread_id.clone())).with(
        "threadAuthorityDigest",
        Json::Str(root.thread_authority_digest.clone()),
    ).with("factSetId", Json::Str(root.fact_set_id.clone())).with(
        "factSetAuthorityDigest",
        Json::Str(root.fact_set_authority_digest.clone()),
    ).with("impactId", Json::Str(root.impact_id.clone())).with(
        "authorityDigest",
        Json::Str(root.authority.authority_digest.clone()),
    ).with("evidenceRef", root.authority.evidence_ref.to_json()).with(
        "impact",
        root.projection.to_json(),
    );
    if value.bytes().len() >= MAX_IMPACT_STDOUT_BYTES {
        return Err(budget("thread impact stdout exceeds 64 KiB"));
    }
    Ok(value)
}

/// How often the evidence stands among the references of a closure from one on,
/// added to a number, where every other one is bound by the fact set.
pub open spec fn derived_from(
    closure: Seq<CasObjectModel>,
    parent: Seq<CasObjectModel>,
    evidence: CasObjectModel,
    count: int,
    i: int,
) -> Result<int, ErrorModel>
    decreases closure.len() - i,
{
    if i < 0 || i >= closure.len() {
        Ok(count)
    } else if closure[i] == evidence {
        derived_from(closure, parent, evidence, count + 1, i + 1)
    } else if !is_bound(parent, closure[i]) {
        corrupted("thread impact closure contains evidence outside its parent fact set"@)
    } else {
        derived_from(closure, parent, evidence, count, i + 1)
    }
}

/// The outcome for the closure of an impact: it holds the evidence once, and
/// otherwise only what the fact set has.
pub open spec fn inheritance_checked(
    set: PreparedCallableFactSetModel,
    p: PreparedThreadImpactModel,
) -> Result<(), ErrorModel> {
    match derived_from(
        p.authority.direct_cas_closure,
        set.authority.direct_cas_closure,
        p.evidence_object.reference,
        0,
        0,
    ) {
        Err(e) => Err(e),
        Ok(count) => if count != p.authority.new_derived_cas_object_count || count != 1
            || !p.authority.direct_cas_closure.contains(p.authority.evidence_ref) {
            corrupted("thread impact derived evidence closure is inconsistent"@)
        } else {
            Ok(())
        },
    }
}

/// Whether a closure holds a reference.
pub fn contains_reference(closure: &Vec<CasObject>, reference: &CasObject) -> (r: bool)
    ensures
        r == closure.deep_view().contains(reference.deep_view()),
{
    let ghost m = closure.deep_view();
    let mut i: usize = 0;
    while i < closure.len()
        invariant
            i <= closure.len(),
            m == closure.deep_view(),
            forall|k: int| 0 <= k < i ==> #[trigger] m[k] != reference.deep_view(),
        decreases closure.len() - i,
    {
        assert(m[i as int] == closure@[i as int].deep_view());
        if closure[i].same_as(reference) {
            return true;
        }
        i = i + 1;
    }
    false
}

fn verify_inherited_closure(fact_set: &PreparedCallableFactSet, prepared: &PreparedThreadImpact) -> (r:
    Result<(), ClewError>)
    ensures
        outcome(r) == inheritance_checked(fact_set.deep_view(), prepared.deep_view()),
{
    let parent = latest_table_of(&fact_set.authority.direct_cas_closure);
    let closure = &prepared.authority.direct_cas_closure;
    let evidence = &prepared.evidence_object.reference;
    let ghost m = closure.deep_view();
    let ghost all = fact_set.authority.direct_cas_closure.deep_view();
    let ghost e = evidence.deep_view();
    let mut count: usize = 0;
    let mut i: usize = 0;
    while i < closure.len()
        invariant
            count <= i <= closure.len(),
            m == closure.deep_view(),
            e == evidence.deep_view(),
            parent.deep_view() == last_table::<CasObject>(all),
            m == prepared.deep_view().authority.direct_cas_closure,
            all == fact_set.deep_view().authority.direct_cas_closure,
            e == prepared.deep_view().evidence_object.reference,
            derived_from(m, all, e, 0, 0) == derived_from(m, all, e, count as int, i as int),
        decreases closure.len() - i,
    {
        assert(m[i as int] == closure@[i as int].deep_view());
        let reference = &closure[i];
        if reference.same_as(evidence) {
            count = count + 1;
        } else {
            let bound = match find_record(&parent, reference.digest.as_str()) {
                Some(other) => other.same_as(reference),
                None => false,
            };
            if !bound {
                return Err(
                    corrupt("thread impact closure contains evidence outside its parent fact set"),
                );
            }
        }
        i = i + 1;
    }
    if count != prepared.authority.new_derived_cas_object_count || count != 1
        || !contains_reference(closure, &prepared.authority.evidence_ref) {
        return Err(corrupt("thread impact derived evidence closure is inconsistent"));
    }
    Ok(())
}

/// The number of bytes of the objects of a closure from one on, added to a number,
/// where each can be read; the evidence need not be there before it is published.
pub open spec fn objects_from(
    closure: Seq<CasObjectModel>,
    evidence: CasObjectModel,
    evidence_published: bool,
    reads: Seq<ObjectReadModel>,
    total: usize,
    i: int,
) -> Result<usize, ErrorModel>
    decreases closure.len() - i,
{
    if i < 0 || i >= closure.len() {
        Ok(total)
    } else {
        match host_size(closure[i].size) {
            None => exceeded("impact retained object exceeds host size"@),
            Some(size) => if total + size > usize::MAX {
                exceeded("impact retained byte count overflowed"@)
            } else if closure[i] == evidence && !evidence_published {
                objects_from(
                    closure,
                    evidence,
                    evidence_published,
                    reads,
                    (total + size) as usize,
                    i + 1,
                )
            } else {
                match object_bytes(reads, closure[i]) {
                    Err(e) => Err(e),
                    Ok(_) => objects_from(
                        closure,
                        evidence,
                        evidence_published,
                        reads,
                        (total + size) as usize,
                        i + 1,
                    ),
                }
            },
        }
    }
}

/// The outcome for the objects of an impact: they can be read, and are as large as
/// the impact says.
pub open spec fn objects_checked(
    p: PreparedThreadImpactModel,
    evidence_published: bool,
    reads: Seq<ObjectReadModel>,
) -> Result<(), ErrorModel> {
    match objects_from(
        p.authority.direct_cas_closure,
        p.evidence_object.reference,
        evidence_published,
        reads,
        0,
        0,
    ) {
        Err(e) => Err(e),
        Ok(total) => if total != p.authority.retained_cas_bytes || total
            > MAX_IMPACT_RETAINED_CLOSURE_BYTES {
            corrupted("thread impact retained byte authority is inconsistent"@)
        } else {
            Ok(())
        },
    }
}

/// Checks the objects that an impact rests on, among those that were read.
pub fn verify_closure_objects(
    prepared: &PreparedThreadImpact,
    evidence_published: bool,
    reads: &Vec<ObjectRead>,
) -> (r: Result<(), ClewError>)
    ensures
        outcome(r) == objects_checked(
            prepared.deep_view(),
            evidence_published,
            reads.deep_view(),
        ),
{
    let closure = &prepared.authority.direct_cas_closure;
    let evidence = &prepared.evidence_object.reference;
    let ghost m = closure.deep_view();
    let ghost e = evidence.deep_view();
    let ghost all = reads.deep_view();
    let mut total: usize = 0;
    let mut i: usize = 0;
    while i < closure.len()
        invariant
            i <= closure.len(),
            m == closure.deep_view(),
            e == evidence.deep_view(),
            all == reads.deep_view(),
            m == prepared.deep_view().authority.direct_cas_closure,
            e == prepared.deep_view().evidence_object.reference,
            objects_from(m, e, evidence_published, all, 0, 0) == objects_from(
                m,
                e,
                evidence_published,
                all,
                total,
                i as int,
            ),
        decreases closure.len() - i,
    {
        assert(m[i as int] == closure@[i as int].deep_view());
        let reference = &closure[i];
        let size: usize = match to_host_size(reference.size) {
            Some(size) => size,
            None => {
                return Err(budget("impact retained object exceeds host size"));
            },
        };
        if size > usize::MAX - total {
            return Err(budget("impact retained byte count overflowed"));
        }
        total = total + size;
        if evidence_published || !reference.same_as(evidence) {
            read_object(reads, reference)?;
        }
        i = i + 1;
    }
    if total != prepared.authority.retained_cas_bytes || total > MAX_IMPACT_RETAINED_CLOSURE_BYTES {
        return Err(corrupt("thread impact retained byte authority is inconsistent"));
    }
    Ok(())
}

/// What is reported of the sources of an impact.
pub open spec fn impact_reports() -> SourceReportsModel {
    SourceReportsModel {
        path: "impact source path is not repository-relative"@,
        conflict: "impact source digest repeats with conflicting authority"@,
        host_size: "impact source exceeds host size"@,
        encoding: "impact source evidence is not UTF-8"@,
        outside: "impact source anchor is outside its exact CAS object"@,
        endpoint: "impact source anchor has one range endpoint"@,
    }
}

fn reports() -> (r: SourceReports<'static>)
    ensures
        r@ == impact_reports(),
{
    SourceReports {
        path: "impact source path is not repository-relative",
        conflict: "impact source digest repeats with conflicting authority",
        host_size: "impact source exceeds host size",
        encoding: "impact source evidence is not UTF-8",
        outside: "impact source anchor is outside its exact CAS object",
        endpoint: "impact source anchor has one range endpoint",
    }
}

/// The groups with the place of a fact added, where it has one.
pub open spec fn source_grouped(
    groups: Seq<SourceGroupModel>,
    pointer: ImpactFactPointerModel,
) -> Result<Seq<SourceGroupModel>, ErrorModel> {
    match pointer.provenance.source {
        None => Ok(groups),
        Some(anchor) => if !is_source_path(anchor.path) {
            corrupted(impact_reports().path)
        } else {
            grouped(groups, anchor, impact_reports().conflict)
        },
    }
}

/// The groups with the places of the findings from one on.
pub open spec fn findings_grouped(
    groups: Seq<SourceGroupModel>,
    findings: Seq<ImpactFindingModel>,
    i: int,
) -> Result<Seq<SourceGroupModel>, ErrorModel>
    decreases findings.len() - i,
{
    if i < 0 || i >= findings.len() {
        Ok(groups)
    } else {
        match source_grouped(groups, findings[i].evidence) {
            Err(e) => Err(e),
            Ok(more) => findings_grouped(more, findings, i + 1),
        }
    }
}

/// The groups with the places of the facts from one on.
pub open spec fn pointers_grouped(
    groups: Seq<SourceGroupModel>,
    pointers: Seq<ImpactFactPointerModel>,
    i: int,
) -> Result<Seq<SourceGroupModel>, ErrorModel>
    decreases pointers.len() - i,
{
    if i < 0 || i >= pointers.len() {
        Ok(groups)
    } else {
        match source_grouped(groups, pointers[i]) {
            Err(e) => Err(e),
            Ok(more) => pointers_grouped(more, pointers, i + 1),
        }
    }
}

/// The outcome for the sources that some evidence points into.
pub open spec fn evidence_sources_checked(
    evidence: ThreadImpactEvidenceModel,
    reads: Seq<ObjectReadModel>,
) -> Result<(), ErrorModel> {
    match findings_grouped(Seq::empty(), evidence.selection.findings, 0) {
        Err(e) => Err(e),
        Ok(groups) => match pointers_grouped(groups, evidence.selection.obligation_evidence, 0) {
            Err(e) => Err(e),
            Ok(groups) => sources_checked(groups, reads, impact_reports(), 0),
        },
    }
}

fn group_source(groups: &mut Vec<SourceGroup>, pointer: &ImpactFactPointer) -> (r: Result<
    (),
    ClewError,
>)
    ensures
        match source_grouped(old(groups).deep_view(), pointer.deep_view()) {
            Ok(after) => r is Ok && final(groups).deep_view() == after,
            Err(e) => r is Err && r->Err_0.deep_view() == e,
        },
{
    match &pointer.provenance.source {
        None => Ok(()),
        Some(anchor) => {
            if !source_path(anchor.path.as_str()) {
                return Err(corrupt(reports().path));
            }
            group_anchor(groups, anchor, reports().conflict)
        },
    }
}

fn group_findings(groups: &mut Vec<SourceGroup>, findings: &Vec<ImpactFinding>) -> (r: Result<
    (),
    ClewError,
>)
    ensures
        match findings_grouped(old(groups).deep_view(), findings.deep_view(), 0) {
            Ok(after) => r is Ok && final(groups).deep_view() == after,
            Err(e) => r is Err && r->Err_0.deep_view() == e,
        },
{
    let ghost m = findings.deep_view();
    let mut i: usize = 0;
    while i < findings.len()
        invariant
            i <= findings.len(),
            m == findings.deep_view(),
            findings_grouped(old(groups).deep_view(), m, 0) == findings_grouped(
                groups.deep_view(),
                m,
                i as int,
            ),
        decreases findings.len() - i,
    {
        assert(m[i as int] == findings@[i as int].deep_view());
        group_source(groups, &findings[i].evidence)?;
        i = i + 1;
    }
    Ok(())
}

fn group_pointers(groups: &mut Vec<SourceGroup>, pointers: &Vec<ImpactFactPointer>) -> (r: Result<
    (),
    ClewError,
>)
    ensures
        match pointers_grouped(old(groups).deep_view(), pointers.deep_view(), 0) {
            Ok(after) => r is Ok && final(groups).deep_view() == after,
            Err(e) => r is Err && r->Err_0.deep_view() == e,
        },
{
    let ghost m = pointers.deep_view();
    let mut i: usize = 0;
    while i < pointers.len()
        invariant
            i <= pointers.len(),
            m == pointers.deep_view(),
            pointers_grouped(old(groups).deep_view(), m, 0) == pointers_grouped(
                groups.deep_view(),
                m,
                i as int,
            ),
        decreases pointers.len() - i,
    {
        assert(m[i as int] == pointers@[i as int].deep_view());
        group_source(groups, &pointers[i])?;
        i = i + 1;
    }
    Ok(())
}

/// Checks the sources that some evidence points into, among the objects that were
/// read.
pub fn validate_selected_sources(evidence: &ThreadImpactEvidence, reads: &Vec<ObjectRead>) -> (r:
    Result<(), ClewError>)
    ensures
        outcome(r) == evidence_sources_checked(evidence.deep_view(), reads.deep_view()),
{
    let mut groups: Vec<SourceGroup> = Vec::new();
    assert(groups.deep_view() =~= Seq::empty());
    group_findings(&mut groups, &evidence.selection.findings)?;
    group_pointers(&mut groups, &evidence.selection.obligation_evidence)?;
    check_sources(&groups, reads, &reports())
}

/// The request of a thread on its fact set.
pub open spec fn impact_request(
    set: PreparedCallableFactSetModel,
    request: ThreadImpactServiceRequestModel,
) -> ThreadImpactRequestModel {
    ThreadImpactRequestModel {
        fact_set_authority_digest: set.authority.authority_digest,
        pair_id: request.pair_id,
        subject: request.subject,
        budgets: frozen_budgets(),
    }
}

/// The request that an impact is built for.
pub fn request_for(fact_set: &PreparedCallableFactSet, request: &ThreadImpactServiceRequest) -> (r:
    ThreadImpactRequest)
    ensures
        r.deep_view() == impact_request(fact_set.deep_view(), request.deep_view()),
{
    ThreadImpactRequest {
        fact_set_authority_digest: fact_set.authority.authority_digest.clone(),
        pair_id: request.pair_id.clone(),
        subject: request.subject.copied(),
        budgets: ImpactBudgets::frozen(),
    }
}

/// The impact and the root that are to be published for a request.
pub open spec fn impact_created(
    thread: ThreadAuthorityModel,
    verified: Option<ErrorModel>,
    set: PreparedCallableFactSetModel,
    trace: CallableQueryTraceModel,
    reads: Seq<ObjectReadModel>,
    request: ThreadImpactServiceRequestModel,
) -> Result<(PreparedThreadImpactModel, ThreadImpactRootModel), ErrorModel> {
    match accepted(verified) {
        Err(e) => Err(e),
        Ok(_) => {
            match impact_built(set, impact_request(set, request), trace) {
                Err(e) => Err(e),
                Ok(p) => match impact_verified(set, p, Some(trace)) {
                    Err(e) => Err(e),
                    Ok(_) => match stdout_bounded(root_of(thread, set, p)) {
                        Err(e) => Err(e),
                        Ok(_) => match inheritance_checked(set, p) {
                            Err(e) => Err(e),
                            Ok(_) => match evidence_sources_checked(p.evidence, reads) {
                                Err(e) => Err(e),
                                Ok(_) => match objects_checked(p, false, reads) {
                                    Err(e) => Err(e),
                                    Ok(_) => Ok((p, root_of(thread, set, p))),
                                },
                            },
                        },
                    },
                },
            }
        },
    }
}

/// Builds and checks the impact and the root that are to be published for a
/// request of a thread, given what verifying the thread refused, if anything, on its fact
/// set, what the query found, and the objects that were read.
pub fn create(
    thread: &ThreadAuthority,
    verified: &Option<ClewError>,
    fact_set: &PreparedCallableFactSet,
    trace: &CallableQueryTrace,
    reads: &Vec<ObjectRead>,
    request: &ThreadImpactServiceRequest,
) -> (r: Result<(PreparedThreadImpact, ThreadImpactRoot), ClewError>)
    ensures
        outcome(r) == impact_created(
            thread.deep_view(),
            verified.deep_view(),
            fact_set.deep_view(),
            trace.deep_view(),
            reads.deep_view(),
            request.deep_view(),
        ),
        r is Ok ==> is_digest(r->Ok_0.0.authority.authority_digest@),
{
    accept(verified)?;
    let prepared = build_from_verified(fact_set, &request_for(fact_set, request), trace)?;
    verify_prepared_from_verified(fact_set, &prepared, Some(trace))?;
    let root = root_from_prepared(thread, fact_set, &prepared)?;
    bounded_stdout(&root)?;
    verify_inherited_closure(fact_set, &prepared)?;
    validate_selected_sources(&prepared.evidence, reads)?;
    verify_closure_objects(&prepared, false, reads)?;
    Ok((prepared, root))
}

/// Decides what is to be done to publish a root where some bytes, or none, stand.
pub fn publish(existing: Option<&Vec<u8>>, root: &ThreadImpactRoot) -> (r: Result<
    Publication,
    ClewError,
>)
    ensures
        outcome(r) == publication_of(
            match existing {
                Some(bytes) => Some(bytes@),
                None => None,
            },
            root_bytes_of(root.deep_view()),
            "impact identifier is already bound to different evidence"@,
        ),
{
    decide_publication(
        existing,
        &write_root(root),
        "impact identifier is already bound to different evidence",
    )
}

/// The outcome for the reference that publishing the evidence gave.
pub fn confirm_published(published: &CasObject, prepared: &PreparedThreadImpact) -> (r: Result<
    (),
    ClewError,
>)
    ensures
        outcome(r) == (if published.deep_view() == prepared.deep_view().evidence_object.reference {
            Ok(())
        } else {
            corrupted("CAS publication returned another thread impact evidence identity"@)
        }),
{
    if published.same_as(&prepared.evidence_object.reference) {
        Ok(())
    } else {
        Err(corrupt("CAS publication returned another thread impact evidence identity"))
    }
}

/// The outcome of creating the file of a root: where another one was first, it holds
/// the same root.
pub fn confirm_created(created: bool, found: &Vec<u8>, root: &ThreadImpactRoot) -> (r: Result<
    (),
    ClewError,
>)
    ensures
        outcome(r) == creation_settled(
            created,
            found@,
            root_bytes_of(root.deep_view()),
            "thread impact root was concurrently bound to different evidence"@,
        ),
{
    settle_creation(
        created,
        found,
        &write_root(root),
        "thread impact root was concurrently bound to different evidence",
    )
}

/// The outcome for the bytes of a root that were read again before something is
/// derived from it.
pub fn revalidate_root_record(bytes: Option<&Vec<u8>>, expected: &ThreadImpactRoot) -> (r: Result<
    (),
    ClewError,
>)
    ensures
        outcome(r) == (match bytes {
            None => Err(
                failure(
                    ErrorCode::BindingChanged,
                    "thread impact root disappeared before derived publication"@,
                ),
            ),
            Some(bytes) => if bytes@ == root_bytes_of(expected.deep_view()) {
                Ok(())
            } else {
                Err(
                    failure(
                        ErrorCode::BindingChanged,
                        "thread impact root changed before derived publication"@,
                    ),
                )
            },
        }),
{
    match bytes {
        None => Err(
            ClewError::new(
                ErrorCode::BindingChanged,
                "thread impact root disappeared before derived publication",
            ),
        ),
        Some(bytes) => if same_bytes(bytes.as_slice(), write_root(expected).as_slice()) {
            Ok(())
        } else {
            Err(
                ClewError::new(
                    ErrorCode::BindingChanged,
                    "thread impact root changed before derived publication",
                ),
            )
        },
    }
}

/// What was read of a retained impact: the bytes of its root and the root that they
/// hold, the evidence that its object holds, and the objects.
pub struct RetainedImpact {
    pub root_bytes: Option<Vec<u8>>,
    pub root: Option<ThreadImpactRoot>,
    pub evidence: Option<ThreadImpactEvidence>,
    pub reads: Vec<ObjectRead>,
}

/// The model of a [`RetainedImpact`].
pub struct RetainedImpactModel {
    pub root_bytes: Option<Seq<u8>>,
    pub root: Option<ThreadImpactRootModel>,
    pub evidence: Option<ThreadImpactEvidenceModel>,
    pub reads: Seq<ObjectReadModel>,
}

impl DeepView for RetainedImpact {
    type V = RetainedImpactModel;

    open spec fn deep_view(&self) -> RetainedImpactModel {
        RetainedImpactModel {
            root_bytes: match self.root_bytes {
                Some(bytes) => Some(bytes@),
                None => None,
            },
            root: self.root.deep_view(),
            evidence: self.evidence.deep_view(),
            reads: self.reads.deep_view(),
        }
    }
}

/// The root of a retained impact, where it is that of the thread and the
/// identifier.
pub open spec fn root_loaded(
    thread: ThreadAuthorityModel,
    impact_id: Seq<char>,
    retained: RetainedImpactModel,
) -> Result<ThreadImpactRootModel, ErrorModel> {
    match impact_id_checked(impact_id) {
        Err(e) => Err(e),
        Ok(_) => match retained.root_bytes {
            None => refused("thread impact root is missing or exceeds 65 MiB"@),
            Some(bytes) => if bytes.len() > MAX_THREAD_IMPACT_ROOT_BYTES {
                refused("thread impact root is missing or exceeds 65 MiB"@)
            } else {
                match retained.root {
                    None => corrupted("thread impact root is invalid"@),
                    Some(root) => if root_bytes_of(root)
                        != bytes || root.impact_id != impact_id || root.thread_id
                        != thread.thread_id || root.thread_authority_digest
                        != thread.authority_digest {
                        corrupted("thread impact root authority is invalid"@)
                    } else {
                        match root_checked(root) {
                            Err(e) => Err(e),
                            Ok(_) => Ok(root),
                        }
                    },
                }
            },
        },
    }
}

/// The retained impact of a root, where its evidence is canonical.
pub open spec fn evidence_loaded(
    root: ThreadImpactRootModel,
    set: PreparedCallableFactSetModel,
    retained: RetainedImpactModel,
) -> Result<PreparedThreadImpactModel, ErrorModel> {
    let reference = root.authority.evidence_ref;
    if set.authority.authority_digest != root.fact_set_authority_digest {
        corrupted("thread impact parent fact-set authority changed"@)
    } else if reference.object_schema != THREAD_IMPACT_EVIDENCE_SCHEMA@ {
        corrupted("thread impact evidence reference has another schema"@)
    } else if host_size(reference.size) is None {
        exceeded("thread impact evidence exceeds host size"@)
    } else if reference.size > MAX_IMPACT_RETAINED_CLOSURE_BYTES {
        exceeded("thread impact evidence exceeds 64 MiB"@)
    } else {
        match object_bytes(retained.reads, reference) {
            Err(e) => Err(e),
            Ok(bytes) => match retained.evidence {
                None => corrupted("thread impact evidence is invalid"@),
                Some(evidence) => if evidence_bytes_of(evidence) != bytes {
                    corrupted("thread impact evidence is not canonical"@)
                } else {
                    Ok(
                        PreparedThreadImpactModel {
                            authority: root.authority,
                            evidence,
                            evidence_object: PreparedCasObjectModel { reference, bytes },
                            authority_bytes: authority_bytes_of(root.authority),
                            projection: root.projection,
                            projection_bytes: projection_bytes_of(root.projection),
                        },
                    )
                },
            },
        }
    }
}

/// The root of a retained impact with the impact, where all that it rests on
/// verifies.
pub open spec fn impact_loaded(
    thread: ThreadAuthorityModel,
    verified: Option<ErrorModel>,
    impact_id: Seq<char>,
    retained: RetainedImpactModel,
    set: PreparedCallableFactSetModel,
    trace: Option<CallableQueryTraceModel>,
) -> Result<(ThreadImpactRootModel, PreparedThreadImpactModel), ErrorModel> {
    match accepted(verified) {
        Err(e) => Err(e),
        Ok(_) => {
            match root_loaded(thread, impact_id, retained) {
                Err(e) => Err(e),
                Ok(root) => match evidence_loaded(root, set, retained) {
                    Err(e) => Err(e),
                    Ok(p) => match impact_verified(set, p, trace) {
                        Err(e) => Err(e),
                        Ok(_) => match inheritance_checked(set, p) {
                            Err(e) => Err(e),
                            Ok(_) => match evidence_sources_checked(p.evidence, retained.reads) {
                                Err(e) => Err(e),
                                Ok(_) => match objects_checked(p, true, retained.reads) {
                                    Err(e) => Err(e),
                                    Ok(_) => Ok((root, p)),
                                },
                            },
                        },
                    },
                },
            }
        },
    }
}

/// The root of a retained impact, where it is that of the thread and the identifier: it names
/// the fact set.
pub fn load_root(thread: &ThreadAuthority, impact_id: &str, retained: &RetainedImpact) -> (r: Result<
    ThreadImpactRoot,
    ClewError,
>)
    ensures
        outcome(r) == root_loaded(thread.deep_view(), impact_id@, retained.deep_view()),
{
    root_file_name(impact_id)?;
    let bytes = match &retained.root_bytes {
        Some(bytes) => bytes,
        None => {
            return Err(invalid("thread impact root is missing or exceeds 65 MiB"));
        },
    };
    if bytes.len() > MAX_THREAD_IMPACT_ROOT_BYTES {
        return Err(invalid("thread impact root is missing or exceeds 65 MiB"));
    }
    let root = match &retained.root {
        Some(root) => root,
        None => {
            return Err(corrupt("thread impact root is invalid"));
        },
    };
    if !same_bytes(write_root(root).as_slice(), bytes.as_slice()) || !same_text(
        root.impact_id.as_str(),
        impact_id,
    ) || !root.thread_id.same_as(&thread.thread_id) || !root.thread_authority_digest.same_as(
        &thread.authority_digest,
    ) {
        return Err(corrupt("thread impact root authority is invalid"));
    }
    validate_root(root)?;
    Ok(root.copied())
}

fn load_evidence(
    root: &ThreadImpactRoot,
    fact_set: &PreparedCallableFactSet,
    retained: &RetainedImpact,
) -> (r: Result<PreparedThreadImpact, ClewError>)
    ensures
        outcome(r) == evidence_loaded(
            root.deep_view(),
            fact_set.deep_view(),
            retained.deep_view(),
        ),
{
    let reference = &root.authority.evidence_ref;
    if !fact_set.authority.authority_digest.same_as(&root.fact_set_authority_digest) {
        return Err(corrupt("thread impact parent fact-set authority changed"));
    }
    if !same_text(reference.object_schema.as_str(), THREAD_IMPACT_EVIDENCE_SCHEMA) {
        return Err(corrupt("thread impact evidence reference has another schema"));
    }
    let size: usize = match to_host_size(reference.size) {
        Some(size) => size,
        None => {
            return Err(budget("thread impact evidence exceeds host size"));
        },
    };
    if size > MAX_IMPACT_RETAINED_CLOSURE_BYTES {
        return Err(budget("thread impact evidence exceeds 64 MiB"));
    }
    let bytes = read_object(&retained.reads, reference)?;
    let evidence = match &retained.evidence {
        Some(evidence) => evidence,
        None => {
            return Err(corrupt("thread impact evidence is invalid"));
        },
    };
    if !same_bytes(write_evidence(evidence).as_slice(), bytes.as_slice()) {
        return Err(corrupt("thread impact evidence is not canonical"));
    }
    Ok(
        PreparedThreadImpact {
            authority: root.authority.copied(),
            evidence: evidence.copied(),
            evidence_object: PreparedCasObject {
                reference: reference.copied(),
                bytes: copy_bytes(bytes),
            },
            authority_bytes: write_authority(&root.authority),
            projection: root.projection.copied(),
            projection_bytes: write_projection(&root.projection),
        },
    )
}

/// Verifies a retained impact: its root is that of the thread and the identifier,
/// its evidence is what its request has on the facts, and all that it rests on is
/// there.
pub fn load_verified(
    thread: &ThreadAuthority,
    verified: &Option<ClewError>,
    impact_id: &str,
    retained: &RetainedImpact,
    fact_set: &PreparedCallableFactSet,
    trace: Option<&CallableQueryTrace>,
) -> (r: Result<(ThreadImpactRoot, PreparedThreadImpact), ClewError>)
    ensures
        outcome(r) == impact_loaded(
            thread.deep_view(),
            verified.deep_view(),
            impact_id@,
            retained.deep_view(),
            fact_set.deep_view(),
            trace.deep_view(),
        ),
{
    accept(verified)?;
    let root = load_root(thread, impact_id, retained)?;
    let prepared = load_evidence(&root, fact_set, retained)?;
    verify_prepared_from_verified(fact_set, &prepared, trace)?;
    verify_inherited_closure(fact_set, &prepared)?;
    validate_selected_sources(&prepared.evidence, &retained.reads)?;
    verify_closure_objects(&prepared, true, &retained.reads)?;
    Ok((root, prepared))
}

/// Verifies a retained impact and gives its root.
pub fn load(
    thread: &ThreadAuthority,
    verified: &Option<ClewError>,
    impact_id: &str,
    retained: &RetainedImpact,
    fact_set: &PreparedCallableFactSet,
    trace: Option<&CallableQueryTrace>,
) -> (r: Result<ThreadImpactRoot, ClewError>)
    ensures
        outcome(r) == (match impact_loaded(
            thread.deep_view(),
            verified.deep_view(),
            impact_id@,
            retained.deep_view(),
            fact_set.deep_view(),
            trace.deep_view(),
        ) {
            Ok((root, _)) => Ok(root),
            Err(e) => Err(e),
        }),
{
    let (root, _) = load_verified(thread, verified, impact_id, retained, fact_set, trace)?;
    Ok(root)
}

proof fn objects_pass_again(
    closure: Seq<CasObjectModel>,
    evidence: CasObjectModel,
    before: Seq<ObjectReadModel>,
    after: Seq<ObjectReadModel>,
    total: usize,
    i: int,
)
    requires
        0 <= i,
        reads_back(closure, before, after),
        object_bytes(after, evidence) is Ok,
        objects_from(closure, evidence, false, before, total, i) is Ok,
    ensures
        objects_from(closure, evidence, true, after, total, i) == objects_from(
            closure,
            evidence,
            false,
            before,
            total,
            i,
        ),
    decreases closure.len() - i,
{
    if i < closure.len() {
        let size = host_size(closure[i].size)->Some_0;
        objects_pass_again(closure, evidence, before, after, (total + size) as usize, i + 1);
        if closure[i] != evidence {
            object_reads_back(closure, before, after, closure[i]);
        }
    }
}

proof fn findings_stay_among(
    groups: Seq<SourceGroupModel>,
    findings: Seq<ImpactFindingModel>,
    objects: Seq<CasObjectModel>,
    i: int,
)
    requires
        0 <= i,
        sources_among(groups, objects),
        facts_among(evidence_of(findings), objects),
    ensures
        match findings_grouped(groups, findings, i) {
            Ok(after) => sources_among(after, objects),
            Err(_) => true,
        },
    decreases findings.len() - i,
{
    if i < findings.len() {
        let pointer = evidence_of(findings)[i];
        if let Some(anchor) = pointer.provenance.source {
            grouping_stays_among(groups, anchor, impact_reports().conflict, objects);
        }
        if let Ok(more) = source_grouped(groups, findings[i].evidence) {
            findings_stay_among(more, findings, objects, i + 1);
        }
    }
}

proof fn pointers_stay_among(
    groups: Seq<SourceGroupModel>,
    pointers: Seq<ImpactFactPointerModel>,
    objects: Seq<CasObjectModel>,
    i: int,
)
    requires
        0 <= i,
        sources_among(groups, objects),
        facts_among(pointers, objects),
    ensures
        match pointers_grouped(groups, pointers, i) {
            Ok(after) => sources_among(after, objects),
            Err(_) => true,
        },
    decreases pointers.len() - i,
{
    if i < pointers.len() {
        if let Some(anchor) = pointers[i].provenance.source {
            grouping_stays_among(groups, anchor, impact_reports().conflict, objects);
        }
        if let Ok(more) = source_grouped(groups, pointers[i]) {
            pointers_stay_among(more, pointers, objects, i + 1);
        }
    }
}

proof fn evidence_sources_pass_again(
    evidence: ThreadImpactEvidenceModel,
    objects: Seq<CasObjectModel>,
    before: Seq<ObjectReadModel>,
    after: Seq<ObjectReadModel>,
)
    requires
        facts_among(evidence_of(evidence.selection.findings), objects),
        facts_among(evidence.selection.obligation_evidence, objects),
        reads_back(objects, before, after),
        evidence_sources_checked(evidence, before) is Ok,
    ensures
        evidence_sources_checked(evidence, after) is Ok,
{
    let findings = evidence.selection.findings;
    findings_stay_among(Seq::empty(), findings, objects, 0);
    let groups = findings_grouped(Seq::empty(), findings, 0)->Ok_0;
    let pointers = evidence.selection.obligation_evidence;
    pointers_stay_among(groups, pointers, objects, 0);
    let all = pointers_grouped(groups, pointers, 0)->Ok_0;
    sources_pass_again(all, objects, before, after, impact_reports(), 0);
}

/// An impact that was created loads again from what was retained of it: from the
/// canonical bytes of its root, where they fit, and from its evidence, where the objects of
/// its closure read back as they did.
pub proof fn created_impact_loads(
    thread: ThreadAuthorityModel,
    verified: Option<ErrorModel>,
    set: PreparedCallableFactSetModel,
    trace: CallableQueryTraceModel,
    reads: Seq<ObjectReadModel>,
    request: ThreadImpactServiceRequestModel,
    p: PreparedThreadImpactModel,
    root: ThreadImpactRootModel,
    retained: RetainedImpactModel,
)
    requires
        impact_created(thread, verified, set, trace, reads, request) == Ok::<
            (PreparedThreadImpactModel, ThreadImpactRootModel),
            ErrorModel,
        >((p, root)),
        is_digest(p.authority.authority_digest),
        retained.root == Some(root),
        retained.root_bytes == Some(root_bytes_of(root)),
        root_bytes_of(root).len()
            <= MAX_THREAD_IMPACT_ROOT_BYTES,
        retained.evidence == Some(p.evidence),
        object_bytes(retained.reads, p.evidence_object.reference) == Ok::<Seq<u8>, ErrorModel>(
            p.evidence_object.bytes,
        ),
        reads_back(p.authority.direct_cas_closure, reads, retained.reads),
    ensures
        impact_loaded(thread, verified, root.impact_id, retained, set, Some(trace)) == Ok::<
            (ThreadImpactRootModel, PreparedThreadImpactModel),
            ErrorModel,
        >((root, p)),
{
    published_impact_keeps_mandatory_parts(set, impact_request(set, request), trace, p);
    closure_holds_the_sources(set, impact_request(set, request), trace, p);
    let closure = p.authority.direct_cas_closure;
    evidence_sources_pass_again(p.evidence, closure, reads, retained.reads);
    objects_pass_again(closure, p.evidence_object.reference, reads, retained.reads, 0, 0);
    digest_makes_id("thread-impact:"@, p.authority.authority_digest);
    assert(root == root_of(thread, set, p));
    assert(impact_id_checked(root.impact_id) is Ok) by {
        reveal_strlit("thread-impact:sha256:");
        reveal_strlit("thread-impact:");
        reveal_strlit("sha256:");
        assert("thread-impact:sha256:"@ =~= "thread-impact:"@ + "sha256:"@);
    }
    assert(root_loaded(thread, root.impact_id, retained) == Ok::<ThreadImpactRootModel, ErrorModel>(
        root,
    ));
    assert(evidence_loaded(root, set, retained) == Ok::<PreparedThreadImpactModel, ErrorModel>(p));
}

/// What is shown of a root fits in its bound, with the line feed behind it.
pub proof fn shown_lines_are_bounded(root: ThreadImpactRootModel, value: JsonModel)
    requires
        stdout_bounded(root) == Ok::<JsonModel, ErrorModel>(value),
    ensures
        canonical_bytes(value).len() + 1 <= MAX_IMPACT_STDOUT_BYTES,
{
}

} // verus!
