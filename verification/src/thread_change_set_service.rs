//! Checks around the publication and the retained loading of change sets.

use vstd::prelude::*;
use vstd::string::*;

use crate::cas::{CasObject, CasObjectModel};
use crate::error::{
    accept, accepted, budget, corrupt, corrupted, exceeded, failure, invalid, outcome, refused,
    ClewError, ErrorCode, ErrorModel,
};
use crate::json::{canonical_bytes, Json, JsonModel};
use crate::record::Record;
use crate::retained::{
    creation_settled, decide_publication, digest_makes_id, digits_of_id, host_size, id_digits,
    object_bytes, object_reads_back, publication_of, read_object, reads_back, settle_creation,
    to_host_size, ObjectRead, ObjectReadModel, Publication,
};
use crate::text::{copy_bytes, is_digest, joined, same_bytes, same_text};
use crate::thread::{ThreadAuthority, ThreadAuthorityModel};
use crate::thread_callables::{
    CallableQueryTrace, CallableQueryTraceModel, PreparedCallableFactSet,
    PreparedCallableFactSetModel, PreparedCasObject, PreparedCasObjectModel,
};
use crate::thread_change_set::{
    authority_bytes_of, build_from_verified, change_set_built, change_set_verified, document_bytes,
    evidence_bytes_of, frozen_budgets, project, projection_bytes_of, projection_of,
    published_change_set_is_honest, verify_prepared_from_verified, write_authority, write_document,
    write_evidence, write_projection, ChangeSetBudgets, KotlinChangeCoverageDocument,
    KotlinChangeCoverageDocumentModel, KotlinChangeCoverageEvidence,
    KotlinChangeCoverageEvidenceModel, MemberCorrespondence, MemberCorrespondenceModel,
    PreparedThreadChangeSet, PreparedThreadChangeSetModel, ThreadChangeSetAuthority,
    ThreadChangeSetAuthorityModel, ThreadChangeSetProjection, ThreadChangeSetProjectionModel,
    ThreadChangeSetRequest, ThreadChangeSetRequestModel, ValidatorRuntimeAuthority,
    ValidatorRuntimeAuthorityModel, VerifiedChangeSide, VerifiedChangeSideModel,
    KOTLIN_CHANGE_COVERAGE_DOCUMENT_SCHEMA, KOTLIN_CHANGE_COVERAGE_EVIDENCE_SCHEMA,
    MAX_CHANGE_RETAINED_CLOSURE_BYTES, MAX_CHANGE_STDOUT_BYTES,
};
use crate::thread_impact::{PreparedThreadImpact, PreparedThreadImpactModel};
use crate::thread_impact_service::{
    contains_reference, impact_loaded, load_verified as load_verified_impact, RetainedImpact,
    RetainedImpactModel,
};

verus! {

pub const THREAD_CHANGE_SET_ROOT_SCHEMA: &'static str = "codeclew-thread-change-coverage-root/1.0";

pub const THREAD_CHANGE_SET_RESULT_SCHEMA: &'static str =
    "codeclew-thread-change-coverage-result/1.0";

pub const MAX_THREAD_CHANGE_SET_ROOT_BYTES: usize = 65 * 1024 * 1024;

/// What a change set of two threads is asked for.
pub struct ThreadChangeSetServiceRequest {
    pub before_impact_id: String,
    pub after_impact_id: String,
    pub member_correspondence: Vec<MemberCorrespondence>,
    pub coverage_document: Vec<u8>,
}

/// The model of a [`ThreadChangeSetServiceRequest`].
pub struct ThreadChangeSetServiceRequestModel {
    pub before_impact_id: Seq<char>,
    pub after_impact_id: Seq<char>,
    pub member_correspondence: Seq<MemberCorrespondenceModel>,
    pub coverage_document: Seq<u8>,
}

impl DeepView for ThreadChangeSetServiceRequest {
    type V = ThreadChangeSetServiceRequestModel;

    open spec fn deep_view(&self) -> ThreadChangeSetServiceRequestModel {
        ThreadChangeSetServiceRequestModel {
            before_impact_id: self.before_impact_id.deep_view(),
            after_impact_id: self.after_impact_id.deep_view(),
            member_correspondence: self.member_correspondence.deep_view(),
            coverage_document: self.coverage_document@,
        }
    }
}

impl ThreadChangeSetServiceRequest {
    /// Another value with the same contents.
    pub fn copied(&self) -> (r: ThreadChangeSetServiceRequest)
        ensures
            r.deep_view() == self.deep_view(),
    {
        ThreadChangeSetServiceRequest {
            before_impact_id: self.before_impact_id.copied(),
            after_impact_id: self.after_impact_id.copied(),
            member_correspondence: self.member_correspondence.copied(),
            coverage_document: copy_bytes(&self.coverage_document),
        }
    }

    /// Whether two values have the same contents.
    pub fn same_as(&self, other: &ThreadChangeSetServiceRequest) -> (r: bool)
        ensures
            r == (self.deep_view() == other.deep_view()),
    {
        self.before_impact_id.same_as(&other.before_impact_id)
            && self.after_impact_id.same_as(&other.after_impact_id)
            && self.member_correspondence.same_as(&other.member_correspondence)
            && same_bytes(self.coverage_document.as_slice(), other.coverage_document.as_slice())
    }
}

/// The retained root of a change set.
#[derive(Debug, PartialEq, Eq)]
pub struct ThreadChangeSetRoot {
    pub schema: String,
    pub change_set_id: String,
    pub before_thread_id: String,
    pub before_thread_authority_digest: String,
    pub after_thread_id: String,
    pub after_thread_authority_digest: String,
    pub authority: ThreadChangeSetAuthority,
    pub projection: ThreadChangeSetProjection,
}

/// The model of a [`ThreadChangeSetRoot`].
pub struct ThreadChangeSetRootModel {
    pub schema: Seq<char>,
    pub change_set_id: Seq<char>,
    pub before_thread_id: Seq<char>,
    pub before_thread_authority_digest: Seq<char>,
    pub after_thread_id: Seq<char>,
    pub after_thread_authority_digest: Seq<char>,
    pub authority: ThreadChangeSetAuthorityModel,
    pub projection: ThreadChangeSetProjectionModel,
}

impl DeepView for ThreadChangeSetRoot {
    type V = ThreadChangeSetRootModel;

    open spec fn deep_view(&self) -> ThreadChangeSetRootModel {
        ThreadChangeSetRootModel {
            schema: self.schema.deep_view(),
            change_set_id: self.change_set_id.deep_view(),
            before_thread_id: self.before_thread_id.deep_view(),
            before_thread_authority_digest: self.before_thread_authority_digest.deep_view(),
            after_thread_id: self.after_thread_id.deep_view(),
            after_thread_authority_digest: self.after_thread_authority_digest.deep_view(),
            authority: self.authority.deep_view(),
            projection: self.projection.deep_view(),
        }
    }
}

impl Record for ThreadChangeSetRoot {
    open spec fn json(v: ThreadChangeSetRootModel) -> JsonModel {
        JsonModel::object()
            .with("schema"@, <String as Record>::json(v.schema))
            .with("changeSetId"@, <String as Record>::json(v.change_set_id))
            .with("beforeThreadId"@, <String as Record>::json(v.before_thread_id))
            .with("beforeThreadAuthorityDigest"@, <String as Record>::json(v.before_thread_authority_digest))
            .with("afterThreadId"@, <String as Record>::json(v.after_thread_id))
            .with("afterThreadAuthorityDigest"@, <String as Record>::json(v.after_thread_authority_digest))
            .with("authority"@, <ThreadChangeSetAuthority as Record>::json(v.authority))
            .with("projection"@, <ThreadChangeSetProjection as Record>::json(v.projection))
    }

    fn copied(&self) -> (r: ThreadChangeSetRoot) {
        ThreadChangeSetRoot {
            schema: self.schema.copied(),
            change_set_id: self.change_set_id.copied(),
            before_thread_id: self.before_thread_id.copied(),
            before_thread_authority_digest: self.before_thread_authority_digest.copied(),
            after_thread_id: self.after_thread_id.copied(),
            after_thread_authority_digest: self.after_thread_authority_digest.copied(),
            authority: self.authority.copied(),
            projection: self.projection.copied(),
        }
    }

    fn same_as(&self, other: &ThreadChangeSetRoot) -> (r: bool) {
        self.schema.same_as(&other.schema)
            && self.change_set_id.same_as(&other.change_set_id)
            && self.before_thread_id.same_as(&other.before_thread_id)
            && self.before_thread_authority_digest.same_as(&other.before_thread_authority_digest)
            && self.after_thread_id.same_as(&other.after_thread_id)
            && self.after_thread_authority_digest.same_as(&other.after_thread_authority_digest)
            && self.authority.same_as(&other.authority)
            && self.projection.same_as(&other.projection)
    }

    fn to_json(&self) -> (r: Json) {
        Json::object()
            .with("schema", self.schema.to_json())
            .with("changeSetId", self.change_set_id.to_json())
            .with("beforeThreadId", self.before_thread_id.to_json())
            .with("beforeThreadAuthorityDigest", self.before_thread_authority_digest.to_json())
            .with("afterThreadId", self.after_thread_id.to_json())
            .with("afterThreadAuthorityDigest", self.after_thread_authority_digest.to_json())
            .with("authority", self.authority.to_json())
            .with("projection", self.projection.to_json())
    }
}

/// The outcome for the identifier of a change set.
pub open spec fn change_set_id_checked(change_set_id: Seq<char>) -> Result<(), ErrorModel> {
    if id_digits(change_set_id, "thread-coverage:sha256:"@) is Some {
        Ok(())
    } else {
        refused("thread coverage id is invalid"@)
    }
}

/// The name of the file that holds the root of a change set.
pub fn root_file_name(change_set_id: &str) -> (r: Result<String, ClewError>)
    ensures
        outcome(r) == (match id_digits(change_set_id@, "thread-coverage:sha256:"@) {
            Some(digits) => Ok(digits + ".json"@),
            None => refused("thread coverage id is invalid"@),
        }),
{
    match digits_of_id(change_set_id, "thread-coverage:sha256:") {
        Some(digits) => Ok(joined(digits.as_str(), ".json")),
        None => Err(invalid("thread coverage id is invalid")),
    }
}

/// The outcome for a number that has a bound.
pub open spec fn within(actual: nat, maximum: nat, message: Seq<char>) -> Result<(), ErrorModel> {
    if actual > maximum {
        exceeded(message)
    } else {
        Ok(())
    }
}

/// Checks a number against its bound.
pub fn enforce_serialized_bound(actual: usize, maximum: usize, message: &str) -> (r: Result<
    (),
    ClewError,
>)
    ensures
        outcome(r) == within(actual as nat, maximum as nat, message@),
{
    if actual > maximum {
        return Err(budget(message));
    }
    Ok(())
}

/// The bytes of a root.
#[verifier::opaque]
pub open spec fn root_bytes_of(root: ThreadChangeSetRootModel) -> Seq<u8> {
    canonical_bytes(<ThreadChangeSetRoot as Record>::json(root))
}

/// Writes a root.
pub fn write_root(root: &ThreadChangeSetRoot) -> (r: Vec<u8>)
    ensures
        r@ == root_bytes_of(root.deep_view()),
{
    proof {
        reveal(root_bytes_of);
    }
    root.to_json().bytes()
}

/// Whether the parts of a root agree with each other.
pub open spec fn is_consistent(root: ThreadChangeSetRootModel) -> bool {
    root.schema == THREAD_CHANGE_SET_ROOT_SCHEMA@ && root.change_set_id == "thread-coverage:"@
        + root.authority.authority_digest && root.before_thread_id
        == root.authority.before.thread_id && root.before_thread_authority_digest
        == root.authority.before.thread_authority_digest && root.after_thread_id
        == root.authority.after.thread_id && root.after_thread_authority_digest
        == root.authority.after.thread_authority_digest && root.projection == projection_of(
        root.authority,
    ) && root.projection.change_set_id == root.change_set_id
}

/// The outcome for a root: it fits, and its parts agree.
pub open spec fn root_checked(root: ThreadChangeSetRootModel) -> Result<(), ErrorModel> {
    if root_bytes_of(root).len() > MAX_THREAD_CHANGE_SET_ROOT_BYTES {
        exceeded("thread coverage retained root exceeds 65 MiB"@)
    } else if !is_consistent(root) {
        corrupted("thread coverage retained root authority is invalid"@)
    } else {
        Ok(())
    }
}

/// Checks a root.
pub fn validate_root(root: &ThreadChangeSetRoot) -> (r: Result<(), ClewError>)
    ensures
        outcome(r) == root_checked(root.deep_view()),
{
    enforce_serialized_bound(
        write_root(root).len(),
        MAX_THREAD_CHANGE_SET_ROOT_BYTES,
        "thread coverage retained root exceeds 65 MiB",
    )?;
    if !same_text(root.schema.as_str(), THREAD_CHANGE_SET_ROOT_SCHEMA) || !same_text(
        root.change_set_id.as_str(),
        joined("thread-coverage:", root.authority.authority_digest.as_str()).as_str(),
    ) || !root.before_thread_id.same_as(&root.authority.before.thread_id)
        || !root.before_thread_authority_digest.same_as(
        &root.authority.before.thread_authority_digest,
    ) || !root.after_thread_id.same_as(&root.authority.after.thread_id)
        || !root.after_thread_authority_digest.same_as(
        &root.authority.after.thread_authority_digest,
    ) || !root.projection.same_as(&project(&root.authority))
        || !root.projection.change_set_id.same_as(&root.change_set_id) {
        return Err(corrupt("thread coverage retained root authority is invalid"));
    }
    Ok(())
}

/// The root of a change set between two threads.
pub open spec fn root_of(
    before: ThreadAuthorityModel,
    after: ThreadAuthorityModel,
    p: PreparedThreadChangeSetModel,
) -> ThreadChangeSetRootModel {
    ThreadChangeSetRootModel {
        schema: THREAD_CHANGE_SET_ROOT_SCHEMA@,
        change_set_id: p.projection.change_set_id,
        before_thread_id: before.thread_id,
        before_thread_authority_digest: before.authority_digest,
        after_thread_id: after.thread_id,
        after_thread_authority_digest: after.authority_digest,
        authority: p.authority,
        projection: p.projection,
    }
}

fn root_from_prepared(
    before: &ThreadAuthority,
    after: &ThreadAuthority,
    prepared: &PreparedThreadChangeSet,
) -> (r: Result<ThreadChangeSetRoot, ClewError>)
    ensures
        outcome(r) == (match root_checked(
            root_of(before.deep_view(), after.deep_view(), prepared.deep_view()),
        ) {
            Ok(_) => Ok(root_of(before.deep_view(), after.deep_view(), prepared.deep_view())),
            Err(e) => Err(e),
        }),
{
    let root = ThreadChangeSetRoot {
        schema: THREAD_CHANGE_SET_ROOT_SCHEMA.to_owned(),
        change_set_id: prepared.projection.change_set_id.clone(),
        before_thread_id: before.thread_id.clone(),
        before_thread_authority_digest: before.authority_digest.clone(),
        after_thread_id: after.thread_id.clone(),
        after_thread_authority_digest: after.authority_digest.clone(),
        authority: prepared.authority.copied(),
        projection: prepared.projection.copied(),
    };
    validate_root(&root)?;
    Ok(root)
}

/// What is shown of a root.
#[verifier::opaque]
pub open spec fn shown(root: ThreadChangeSetRootModel) -> JsonModel {
    JsonModel::object().with("schema"@, JsonModel::Str(THREAD_CHANGE_SET_RESULT_SCHEMA@)).with(
        "changeSetId"@,
        JsonModel::Str(root.change_set_id),
    ).with("authorityDigest"@, JsonModel::Str(root.authority.authority_digest)).with(
        "beforeThreadId"@,
        JsonModel::Str(root.before_thread_id),
    ).with(
        "beforeThreadAuthorityDigest"@,
        JsonModel::Str(root.before_thread_authority_digest),
    ).with("beforeImpactId"@, JsonModel::Str(root.authority.before.impact_id)).with(
        "afterThreadId"@,
        JsonModel::Str(root.after_thread_id),
    ).with("afterThreadAuthorityDigest"@, JsonModel::Str(root.after_thread_authority_digest)).with(
        "afterImpactId"@,
        JsonModel::Str(root.authority.after.impact_id),
    ).with("coverage"@, <ThreadChangeSetProjection as Record>::json(root.projection))
}

/// What is shown of a consistent root, where it fits with a line end.
pub open spec fn stdout_bounded(root: ThreadChangeSetRootModel) -> Result<JsonModel, ErrorModel> {
    match root_checked(root) {
        Err(e) => Err(e),
        Ok(_) => match within(
            canonical_bytes(shown(root)).len() + 1,
            MAX_CHANGE_STDOUT_BYTES as nat,
            "thread coverage stdout exceeds 64 KiB"@,
        ) {
            Err(e) => Err(e),
            Ok(_) => Ok(shown(root)),
        },
    }
}

/// What is shown of a root.
pub fn bounded_stdout(root: &ThreadChangeSetRoot) -> (r: Result<Json, ClewError>)
    ensures
        outcome(r) == stdout_bounded(root.deep_view()),
{
    proof {
        reveal(shown);
    }
    validate_root(root)?;
    let value = Json::object().with(
        "schema",
        Json::Str(THREAD_CHANGE_SET_RESULT_SCHEMA.to_owned()),
    ).with("changeSetId", Json::Str(root.change_set_id.clone())).with(
        "authorityDigest",
        Json::Str(root.authority.authority_digest.clone()),
    ).with("beforeThreadId", Json::Str(root.before_thread_id.clone())).with(
        "beforeThreadAuthorityDigest",
        Json::Str(root.before_thread_authority_digest.clone()),
    ).with("beforeImpactId", Json::Str(root.authority.before.impact_id.clone())).with(
        "afterThreadId",
        Json::Str(root.after_thread_id.clone()),
    ).with(
        "afterThreadAuthorityDigest",
        Json::Str(root.after_thread_authority_digest.clone()),
    ).with("afterImpactId", Json::Str(root.authority.after.impact_id.clone())).with(
        "coverage",
        root.projection.to_json(),
    );
    let length: usize = value.bytes().len();
    enforce_serialized_bound(
        if length == usize::MAX {
            length
        } else {
            length + 1
        },
        MAX_CHANGE_STDOUT_BYTES,
        "thread coverage stdout exceeds 64 KiB",
    )?;
    Ok(value)
}

/// What a runtime that is needed is, where there is one.
pub open spec fn runtime_required(runtime: Option<ValidatorRuntimeAuthorityModel>) -> Result<
    ValidatorRuntimeAuthorityModel,
    ErrorModel,
> {
    match runtime {
        Some(runtime) => Ok(runtime),
        None => Err(
            failure(
                ErrorCode::PreconditionFailed,
                "thread coverage requires the managed ./clew runtime capsule"@,
            ),
        ),
    }
}

/// The runtime that the environment names, where it names one.
pub fn required_runtime(runtime: &Option<ValidatorRuntimeAuthority>) -> (r: Result<
    ValidatorRuntimeAuthority,
    ClewError,
>)
    ensures
        outcome(r) == runtime_required(runtime.deep_view()),
{
    match runtime {
        Some(runtime) => Ok(runtime.copied()),
        None => Err(
            ClewError::new(
                ErrorCode::PreconditionFailed,
                "thread coverage requires the managed ./clew runtime capsule",
            ),
        ),
    }
}

/// The outcome for the runtime that the environment names just before something is
/// published.
pub fn revalidate_runtime(
    expected: &ValidatorRuntimeAuthority,
    actual: &Option<ValidatorRuntimeAuthority>,
) -> (r: Result<(), ClewError>)
    ensures
        outcome(r) == (match runtime_required(actual.deep_view()) {
            Err(e) => Err(e),
            Ok(runtime) => if runtime == expected.deep_view() {
                Ok(())
            } else {
                Err(
                    failure(
                        ErrorCode::BindingChanged,
                        "validator runtime changed before thread coverage publication"@,
                    ),
                )
            },
        }),
{
    let runtime = required_runtime(actual)?;
    if !runtime.same_as(expected) {
        return Err(
            ClewError::new(
                ErrorCode::BindingChanged,
                "validator runtime changed before thread coverage publication",
            ),
        );
    }
    Ok(())
}

/// The number of bytes of the objects of a closure from one on, added to a number,
/// where each can be read; what the change set adds need not be there before it is
/// published.
pub open spec fn objects_from(
    p: PreparedThreadChangeSetModel,
    derived_published: bool,
    reads: Seq<ObjectReadModel>,
    total: usize,
    i: int,
) -> Result<usize, ErrorModel>
    decreases p.authority.direct_cas_closure.len() - i,
{
    let closure = p.authority.direct_cas_closure;
    if i < 0 || i >= closure.len() {
        Ok(total)
    } else {
        match host_size(closure[i].size) {
            None => exceeded("thread coverage retained object exceeds host size"@),
            Some(size) => if total + size > usize::MAX {
                exceeded("thread coverage retained byte count overflowed"@)
            } else if (closure[i] == p.coverage_document_object.reference || closure[i]
                == p.evidence_object.reference) && !derived_published {
                objects_from(p, derived_published, reads, (total + size) as usize, i + 1)
            } else {
                match object_bytes(reads, closure[i]) {
                    Err(e) => Err(e),
                    Ok(_) => objects_from(
                        p,
                        derived_published,
                        reads,
                        (total + size) as usize,
                        i + 1,
                    ),
                }
            },
        }
    }
}

/// The outcome for the objects of a change set: they can be read, are as large as
/// the change set says, and hold the two that it adds.
pub open spec fn objects_checked(
    p: PreparedThreadChangeSetModel,
    derived_published: bool,
    reads: Seq<ObjectReadModel>,
) -> Result<(), ErrorModel> {
    match objects_from(p, derived_published, reads, 0, 0) {
        Err(e) => Err(e),
        Ok(total) => if total != p.authority.retained_cas_bytes || total
            > MAX_CHANGE_RETAINED_CLOSURE_BYTES || p.authority.new_derived_cas_object_count != 2
            || !p.authority.direct_cas_closure.contains(p.coverage_document_object.reference)
            || !p.authority.direct_cas_closure.contains(p.evidence_object.reference) {
            corrupted("thread coverage retained CAS closure is inconsistent"@)
        } else {
            Ok(())
        },
    }
}

/// Checks the objects that a change set rests on, among those that were read.
pub fn verify_closure_objects(
    prepared: &PreparedThreadChangeSet,
    derived_published: bool,
    reads: &Vec<ObjectRead>,
) -> (r: Result<(), ClewError>)
    ensures
        outcome(r) == objects_checked(prepared.deep_view(), derived_published, reads.deep_view()),
{
    let closure = &prepared.authority.direct_cas_closure;
    let document = &prepared.coverage_document_object.reference;
    let evidence = &prepared.evidence_object.reference;
    let ghost p = prepared.deep_view();
    let ghost all = reads.deep_view();
    let mut total: usize = 0;
    let mut i: usize = 0;
    while i < closure.len()
        invariant
            i <= closure.len(),
            p == prepared.deep_view(),
            closure.deep_view() == p.authority.direct_cas_closure,
            document.deep_view() == p.coverage_document_object.reference,
            evidence.deep_view() == p.evidence_object.reference,
            all == reads.deep_view(),
            objects_from(p, derived_published, all, 0, 0) == objects_from(
                p,
                derived_published,
                all,
                total,
                i as int,
            ),
        decreases closure.len() - i,
    {
        assert(closure.deep_view()[i as int] == closure@[i as int].deep_view());
        let reference = &closure[i];
        let size: usize = match to_host_size(reference.size) {
            Some(size) => size,
            None => {
                return Err(budget("thread coverage retained object exceeds host size"));
            },
        };
        if size > usize::MAX - total {
            return Err(budget("thread coverage retained byte count overflowed"));
        }
        total = total + size;
        if derived_published || !(reference.same_as(document) || reference.same_as(evidence)) {
            read_object(reads, reference)?;
        }
        i = i + 1;
    }
    if total != prepared.authority.retained_cas_bytes || total > MAX_CHANGE_RETAINED_CLOSURE_BYTES
        || prepared.authority.new_derived_cas_object_count != 2 || !contains_reference(
        closure,
        document,
    ) || !contains_reference(closure, evidence) {
        return Err(corrupt("thread coverage retained CAS closure is inconsistent"));
    }
    Ok(())
}

/// What one side of a change set is loaded from: a thread and what verifying it refused, if
/// anything, its facts, what the query of the impact found in them, and what was retained of
/// the impact.
pub struct RetainedSide<'a> {
    pub thread: &'a ThreadAuthority,
    pub verified: &'a Option<ClewError>,
    pub fact_set: &'a PreparedCallableFactSet,
    pub trace: Option<&'a CallableQueryTrace>,
    pub impact: &'a RetainedImpact,
}

/// The model of a [`RetainedSide`].
pub struct RetainedSideModel {
    pub thread: ThreadAuthorityModel,
    pub verified: Option<ErrorModel>,
    pub fact_set: PreparedCallableFactSetModel,
    pub trace: Option<CallableQueryTraceModel>,
    pub impact: RetainedImpactModel,
}

impl<'a> DeepView for RetainedSide<'a> {
    type V = RetainedSideModel;

    open spec fn deep_view(&self) -> RetainedSideModel {
        RetainedSideModel {
            thread: self.thread.deep_view(),
            verified: self.verified.deep_view(),
            fact_set: self.fact_set.deep_view(),
            trace: self.trace.deep_view(),
            impact: self.impact.deep_view(),
        }
    }
}

/// A side with an impact of its own.
pub open spec fn side_with(
    side: RetainedSideModel,
    impact: PreparedThreadImpactModel,
) -> VerifiedChangeSideModel {
    VerifiedChangeSideModel {
        thread: side.thread,
        fact_set: side.fact_set,
        impact,
        trace: side.trace,
    }
}

/// The impact of a side, where it verifies.
pub open spec fn impact_of(side: RetainedSideModel, impact_id: Seq<char>) -> Result<
    PreparedThreadImpactModel,
    ErrorModel,
> {
    match impact_loaded(
        side.thread,
        side.verified,
        impact_id,
        side.impact,
        side.fact_set,
        side.trace,
    ) {
        Err(e) => Err(e),
        Ok((_, impact)) => Ok(impact),
    }
}

fn load_side(side: &RetainedSide<'_>, impact_id: &str) -> (r: Result<
    PreparedThreadImpact,
    ClewError,
>)
    ensures
        outcome(r) == impact_of(side.deep_view(), impact_id@),
{
    let (_, impact) = load_verified_impact(
        side.thread,
        side.verified,
        impact_id,
        side.impact,
        side.fact_set,
        side.trace,
    )?;
    Ok(impact)
}

fn verified_side<'a>(side: &RetainedSide<'a>, impact: &'a PreparedThreadImpact) -> (r:
    VerifiedChangeSide<'a>)
    ensures
        r.deep_view() == side_with(side.deep_view(), impact.deep_view()),
{
    VerifiedChangeSide { thread: side.thread, fact_set: side.fact_set, impact, trace: side.trace }
}

/// The request between the impacts that a request names.
pub open spec fn change_set_request(
    request: ThreadChangeSetServiceRequestModel,
    document: Option<KotlinChangeCoverageDocumentModel>,
    validator: ValidatorRuntimeAuthorityModel,
) -> ThreadChangeSetRequestModel {
    ThreadChangeSetRequestModel {
        member_correspondence: request.member_correspondence,
        coverage_document: request.coverage_document,
        document,
        validator_runtime: validator,
        budgets: frozen_budgets(),
    }
}

fn request_for(
    request: &ThreadChangeSetServiceRequest,
    document: &Option<KotlinChangeCoverageDocument>,
    validator: &ValidatorRuntimeAuthority,
) -> (r: ThreadChangeSetRequest)
    ensures
        r.deep_view() == change_set_request(
            request.deep_view(),
            document.deep_view(),
            validator.deep_view(),
        ),
{
    ThreadChangeSetRequest {
        member_correspondence: request.member_correspondence.copied(),
        coverage_document: copy_bytes(&request.coverage_document),
        document: document.copied(),
        validator_runtime: validator.copied(),
        budgets: ChangeSetBudgets::frozen(),
    }
}

/// The change set and the root that are to be published between two sides.
pub open spec fn compared(
    before: VerifiedChangeSideModel,
    after: VerifiedChangeSideModel,
    request: ThreadChangeSetRequestModel,
    reads: Seq<ObjectReadModel>,
) -> Result<(PreparedThreadChangeSetModel, ThreadChangeSetRootModel), ErrorModel> {
    match change_set_built(before, after, request) {
        Err(e) => Err(e),
        Ok(p) => match change_set_verified(before, after, p, Some(p.coverage_document)) {
            Err(e) => Err(e),
            Ok(_) => match stdout_bounded(root_of(before.thread, after.thread, p)) {
                Err(e) => Err(e),
                Ok(_) => match objects_checked(p, false, reads) {
                    Err(e) => Err(e),
                    Ok(_) => Ok((p, root_of(before.thread, after.thread, p))),
                },
            },
        },
    }
}

/// The change set and the root that are to be published for a request.
pub open spec fn change_set_created(
    before: RetainedSideModel,
    after: RetainedSideModel,
    request: ThreadChangeSetServiceRequestModel,
    document: Option<KotlinChangeCoverageDocumentModel>,
    validator: ValidatorRuntimeAuthorityModel,
    reads: Seq<ObjectReadModel>,
) -> Result<(PreparedThreadChangeSetModel, ThreadChangeSetRootModel), ErrorModel> {
    match accepted(before.verified) {
        Err(e) => Err(e),
        Ok(_) => {
            match accepted(after.verified) {
                Err(e) => Err(e),
                Ok(_) => {
                    match impact_of(before, request.before_impact_id) {
                        Err(e) => Err(e),
                        Ok(b) => match impact_of(after, request.after_impact_id) {
                            Err(e) => Err(e),
                            Ok(a) => compared(
                                side_with(before, b),
                                side_with(after, a),
                                change_set_request(request, document, validator),
                                reads,
                            ),
                        },
                    }
                },
            }
        },
    }
}

fn compare(
    before: &VerifiedChangeSide<'_>,
    after: &VerifiedChangeSide<'_>,
    request: &ThreadChangeSetRequest,
    reads: &Vec<ObjectRead>,
) -> (r: Result<(PreparedThreadChangeSet, ThreadChangeSetRoot), ClewError>)
    ensures
        outcome(r) == compared(
            before.deep_view(),
            after.deep_view(),
            request.deep_view(),
            reads.deep_view(),
        ),
        r is Ok ==> is_digest(r->Ok_0.0.authority.authority_digest@),
{
    let prepared = build_from_verified(before, after, request)?;
    let document = Some(prepared.coverage_document.copied());
    verify_prepared_from_verified(before, after, &prepared, &document)?;
    let root = root_from_prepared(before.thread, after.thread, &prepared)?;
    bounded_stdout(&root)?;
    verify_closure_objects(&prepared, false, reads)?;
    Ok((prepared, root))
}

/// Builds and checks the change set and the root that are to be published for a
/// request, from two sides, the document that the bytes of the request hold, the
/// runtime that validates it, and the objects that were read.
pub fn create(
    before: &RetainedSide<'_>,
    after: &RetainedSide<'_>,
    request: &ThreadChangeSetServiceRequest,
    document: &Option<KotlinChangeCoverageDocument>,
    validator: &ValidatorRuntimeAuthority,
    reads: &Vec<ObjectRead>,
) -> (r: Result<(PreparedThreadChangeSet, ThreadChangeSetRoot), ClewError>)
    ensures
        outcome(r) == change_set_created(
            before.deep_view(),
            after.deep_view(),
            request.deep_view(),
            document.deep_view(),
            validator.deep_view(),
            reads.deep_view(),
        ),
        r is Ok ==> is_digest(r->Ok_0.0.authority.authority_digest@),
{
    accept(before.verified)?;
    accept(after.verified)?;
    let before_impact = load_side(before, request.before_impact_id.as_str())?;
    let after_impact = load_side(after, request.after_impact_id.as_str())?;
    compare(
        &verified_side(before, &before_impact),
        &verified_side(after, &after_impact),
        &request_for(request, document, validator),
        reads,
    )
}

/// Decides what is to be done to publish a root where some bytes, or none, stand.
pub fn publish(existing: Option<&Vec<u8>>, root: &ThreadChangeSetRoot) -> (r: Result<
    Publication,
    ClewError,
>)
    ensures
        outcome(r) == publication_of(
            match existing {
                Some(bytes) => Some(bytes@),
                None => None,
            },
            root_bytes_of(root.deep_view()),
            "thread coverage identifier is already bound to different evidence"@,
        ),
{
    decide_publication(
        existing,
        &write_root(root),
        "thread coverage identifier is already bound to different evidence",
    )
}

/// The outcome for the references that publishing the document and the evidence
/// gave.
pub fn confirm_published(published: &Vec<CasObject>, prepared: &PreparedThreadChangeSet) -> (r:
    Result<(), ClewError>)
    ensures
        outcome(r) == (if published.deep_view() == seq![
            prepared.deep_view().coverage_document_object.reference,
            prepared.deep_view().evidence_object.reference,
        ] {
            Ok(())
        } else {
            corrupted("CAS batch publication returned another thread coverage identity"@)
        }),
{
    let expected = vec![
        prepared.coverage_document_object.reference.copied(),
        prepared.evidence_object.reference.copied(),
    ];
    assert(expected.deep_view() =~= seq![
        prepared.deep_view().coverage_document_object.reference,
        prepared.deep_view().evidence_object.reference,
    ]);
    if published.same_as(&expected) {
        Ok(())
    } else {
        Err(corrupt("CAS batch publication returned another thread coverage identity"))
    }
}

/// The outcome of creating the file of a root: where another one was first, it holds
/// the same root.
pub fn confirm_created(created: bool, found: &Vec<u8>, root: &ThreadChangeSetRoot) -> (r: Result<
    (),
    ClewError,
>)
    ensures
        outcome(r) == creation_settled(
            created,
            found@,
            root_bytes_of(root.deep_view()),
            "thread coverage root was concurrently bound to different evidence"@,
        ),
{
    settle_creation(
        created,
        found,
        &write_root(root),
        "thread coverage root was concurrently bound to different evidence",
    )
}

/// What was read of a retained change set: the bytes of its root and the root that
/// they hold, the document and the evidence that their objects hold, and the
/// objects.
pub struct RetainedChangeSet {
    pub root_bytes: Option<Vec<u8>>,
    pub root: Option<ThreadChangeSetRoot>,
    pub document: Option<KotlinChangeCoverageDocument>,
    pub evidence: Option<KotlinChangeCoverageEvidence>,
    pub reads: Vec<ObjectRead>,
}

/// The model of a [`RetainedChangeSet`].
pub struct RetainedChangeSetModel {
    pub root_bytes: Option<Seq<u8>>,
    pub root: Option<ThreadChangeSetRootModel>,
    pub document: Option<KotlinChangeCoverageDocumentModel>,
    pub evidence: Option<KotlinChangeCoverageEvidenceModel>,
    pub reads: Seq<ObjectReadModel>,
}

impl DeepView for RetainedChangeSet {
    type V = RetainedChangeSetModel;

    open spec fn deep_view(&self) -> RetainedChangeSetModel {
        RetainedChangeSetModel {
            root_bytes: match self.root_bytes {
                Some(bytes) => Some(bytes@),
                None => None,
            },
            root: self.root.deep_view(),
            document: self.document.deep_view(),
            evidence: self.evidence.deep_view(),
            reads: self.reads.deep_view(),
        }
    }
}

/// The root of a retained change set, where it is that of the thread after the
/// change and the identifier.
pub open spec fn root_loaded(
    after: ThreadAuthorityModel,
    change_set_id: Seq<char>,
    retained: RetainedChangeSetModel,
) -> Result<ThreadChangeSetRootModel, ErrorModel> {
    match change_set_id_checked(change_set_id) {
        Err(e) => Err(e),
        Ok(_) => match retained.root_bytes {
            None => refused("thread coverage root is missing or exceeds 65 MiB"@),
            Some(bytes) => if bytes.len() > MAX_THREAD_CHANGE_SET_ROOT_BYTES {
                refused("thread coverage root is missing or exceeds 65 MiB"@)
            } else {
                match retained.root {
                    None => corrupted("thread coverage root is invalid"@),
                    Some(root) => if root_bytes_of(root) != bytes || root.change_set_id
                        != change_set_id || root.after_thread_id != after.thread_id
                        || root.after_thread_authority_digest != after.authority_digest {
                        corrupted("thread coverage retained root authority is invalid"@)
                    } else {
                        match root_checked(root) {
                            Err(e) => Err(e),
                            Ok(_) => Ok(root),
                        }
                    },
                }
            },
        },
    }
}

/// A retained object of a schema.
pub open spec fn object_loaded(
    reference: CasObjectModel,
    expected_schema: Seq<char>,
    reads: Seq<ObjectReadModel>,
) -> Result<PreparedCasObjectModel, ErrorModel> {
    if reference.object_schema != expected_schema {
        corrupted("thread coverage CAS object has another schema"@)
    } else if host_size(reference.size) is None {
        exceeded("thread coverage CAS object exceeds host size"@)
    } else if reference.size > MAX_CHANGE_RETAINED_CLOSURE_BYTES {
        exceeded("thread coverage CAS object exceeds 64 MiB"@)
    } else {
        match object_bytes(reads, reference) {
            Err(e) => Err(e),
            Ok(bytes) => Ok(PreparedCasObjectModel { reference, bytes }),
        }
    }
}

/// The retained change set of a root, where its document and its evidence are
/// canonical.
pub open spec fn objects_loaded(
    root: ThreadChangeSetRootModel,
    retained: RetainedChangeSetModel,
) -> Result<PreparedThreadChangeSetModel, ErrorModel> {
    match object_loaded(
        root.authority.coverage_document_ref,
        KOTLIN_CHANGE_COVERAGE_DOCUMENT_SCHEMA@,
        retained.reads,
    ) {
        Err(e) => Err(e),
        Ok(document_object) => match retained.document {
            None => corrupted("thread coverage document is invalid"@),
            Some(document) => if document_bytes(document) != document_object.bytes {
                corrupted("thread coverage document is not canonical"@)
            } else {
                match object_loaded(
                    root.authority.evidence_ref,
                    KOTLIN_CHANGE_COVERAGE_EVIDENCE_SCHEMA@,
                    retained.reads,
                ) {
                    Err(e) => Err(e),
                    Ok(evidence_object) => match retained.evidence {
                        None => corrupted("thread coverage evidence is invalid"@),
                        Some(evidence) => if evidence_bytes_of(evidence) != evidence_object.bytes {
                            corrupted("thread coverage evidence is not canonical"@)
                        } else {
                            Ok(
                                PreparedThreadChangeSetModel {
                                    authority: root.authority,
                                    evidence,
                                    coverage_document: document,
                                    coverage_document_object: document_object,
                                    evidence_object,
                                    authority_bytes: authority_bytes_of(root.authority),
                                    projection: root.projection,
                                    projection_bytes: projection_bytes_of(root.projection),
                                },
                            )
                        },
                    },
                }
            },
        },
    }
}

/// The root of a retained change set with the change set, where all that it rests on
/// verifies.
pub open spec fn change_set_loaded(
    before: RetainedSideModel,
    after: RetainedSideModel,
    change_set_id: Seq<char>,
    retained: RetainedChangeSetModel,
) -> Result<(ThreadChangeSetRootModel, PreparedThreadChangeSetModel), ErrorModel> {
    match accepted(after.verified) {
        Err(e) => Err(e),
        Ok(_) => {
            match root_loaded(after.thread, change_set_id, retained) {
                Err(e) => Err(e),
                Ok(root) => if before.thread.authority_digest != root.before_thread_authority_digest {
                    corrupted("thread coverage before-thread authority changed"@)
                } else {
                    match impact_of(before, root.authority.before.impact_id) {
                        Err(e) => Err(e),
                        Ok(b) => match impact_of(after, root.authority.after.impact_id) {
                            Err(e) => Err(e),
                            Ok(a) => match objects_loaded(root, retained) {
                                Err(e) => Err(e),
                                Ok(p) => match change_set_verified(
                                    side_with(before, b),
                                    side_with(after, a),
                                    p,
                                    Some(p.coverage_document),
                                ) {
                                    Err(e) => Err(e),
                                    Ok(_) => match objects_checked(p, true, retained.reads) {
                                        Err(e) => Err(e),
                                        Ok(_) => Ok((root, p)),
                                    },
                                },
                            },
                        },
                    }
                },
            }
        },
    }
}

/// The root of a retained change set, where it is that of the thread after the
/// change and the identifier: it names the thread before the change.
pub fn load_root(after: &ThreadAuthority, change_set_id: &str, retained: &RetainedChangeSet) -> (r:
    Result<ThreadChangeSetRoot, ClewError>)
    ensures
        outcome(r) == root_loaded(after.deep_view(), change_set_id@, retained.deep_view()),
{
    root_file_name(change_set_id)?;
    let bytes = match &retained.root_bytes {
        Some(bytes) => bytes,
        None => {
            return Err(invalid("thread coverage root is missing or exceeds 65 MiB"));
        },
    };
    if bytes.len() > MAX_THREAD_CHANGE_SET_ROOT_BYTES {
        return Err(invalid("thread coverage root is missing or exceeds 65 MiB"));
    }
    let root = match &retained.root {
        Some(root) => root,
        None => {
            return Err(corrupt("thread coverage root is invalid"));
        },
    };
    if !same_bytes(write_root(root).as_slice(), bytes.as_slice()) || !same_text(
        root.change_set_id.as_str(),
        change_set_id,
    ) || !root.after_thread_id.same_as(&after.thread_id)
        || !root.after_thread_authority_digest.same_as(&after.authority_digest) {
        return Err(corrupt("thread coverage retained root authority is invalid"));
    }
    validate_root(root)?;
    Ok(root.copied())
}

fn read_prepared_object(reference: &CasObject, expected_schema: &str, reads: &Vec<ObjectRead>) -> (r:
    Result<PreparedCasObject, ClewError>)
    ensures
        outcome(r) == object_loaded(
            reference.deep_view(),
            expected_schema@,
            reads.deep_view(),
        ),
{
    if !same_text(reference.object_schema.as_str(), expected_schema) {
        return Err(corrupt("thread coverage CAS object has another schema"));
    }
    let size: usize = match to_host_size(reference.size) {
        Some(size) => size,
        None => {
            return Err(budget("thread coverage CAS object exceeds host size"));
        },
    };
    if size > MAX_CHANGE_RETAINED_CLOSURE_BYTES {
        return Err(budget("thread coverage CAS object exceeds 64 MiB"));
    }
    let bytes = read_object(reads, reference)?;
    Ok(PreparedCasObject { reference: reference.copied(), bytes: copy_bytes(bytes) })
}

fn load_objects(root: &ThreadChangeSetRoot, retained: &RetainedChangeSet) -> (r: Result<
    PreparedThreadChangeSet,
    ClewError,
>)
    ensures
        outcome(r) == objects_loaded(root.deep_view(), retained.deep_view()),
{
    let coverage_document_object = read_prepared_object(
        &root.authority.coverage_document_ref,
        KOTLIN_CHANGE_COVERAGE_DOCUMENT_SCHEMA,
        &retained.reads,
    )?;
    let document = match &retained.document {
        Some(document) => document,
        None => {
            return Err(corrupt("thread coverage document is invalid"));
        },
    };
    if !same_bytes(
        write_document(document).as_slice(),
        coverage_document_object.bytes.as_slice(),
    ) {
        return Err(corrupt("thread coverage document is not canonical"));
    }
    let evidence_object = read_prepared_object(
        &root.authority.evidence_ref,
        KOTLIN_CHANGE_COVERAGE_EVIDENCE_SCHEMA,
        &retained.reads,
    )?;
    let evidence = match &retained.evidence {
        Some(evidence) => evidence,
        None => {
            return Err(corrupt("thread coverage evidence is invalid"));
        },
    };
    if !same_bytes(write_evidence(evidence).as_slice(), evidence_object.bytes.as_slice()) {
        return Err(corrupt("thread coverage evidence is not canonical"));
    }
    Ok(
        PreparedThreadChangeSet {
            authority: root.authority.copied(),
            evidence: evidence.copied(),
            coverage_document: document.copied(),
            coverage_document_object,
            evidence_object,
            authority_bytes: write_authority(&root.authority),
            projection: root.projection.copied(),
            projection_bytes: write_projection(&root.projection),
        },
    )
}

/// Verifies a retained change set: its root is that of the thread after the change
/// and the identifier, its evidence is what its request has between the two impacts,
/// and all that it rests on is there.
pub fn load_verified(
    before: &RetainedSide<'_>,
    after: &RetainedSide<'_>,
    change_set_id: &str,
    retained: &RetainedChangeSet,
) -> (r: Result<(ThreadChangeSetRoot, PreparedThreadChangeSet), ClewError>)
    ensures
        outcome(r) == change_set_loaded(
            before.deep_view(),
            after.deep_view(),
            change_set_id@,
            retained.deep_view(),
        ),
{
    accept(after.verified)?;
    let root = load_root(after.thread, change_set_id, retained)?;
    if !before.thread.authority_digest.same_as(&root.before_thread_authority_digest) {
        return Err(corrupt("thread coverage before-thread authority changed"));
    }
    let before_impact = load_side(before, root.authority.before.impact_id.as_str())?;
    let after_impact = load_side(after, root.authority.after.impact_id.as_str())?;
    let prepared = load_objects(&root, retained)?;
    let document = Some(prepared.coverage_document.copied());
    verify_prepared_from_verified(
        &verified_side(before, &before_impact),
        &verified_side(after, &after_impact),
        &prepared,
        &document,
    )?;
    verify_closure_objects(&prepared, true, &retained.reads)?;
    Ok((root, prepared))
}

/// Verifies a retained change set and gives its root.
pub fn load(
    before: &RetainedSide<'_>,
    after: &RetainedSide<'_>,
    change_set_id: &str,
    retained: &RetainedChangeSet,
) -> (r: Result<ThreadChangeSetRoot, ClewError>)
    ensures
        outcome(r) == (match change_set_loaded(
            before.deep_view(),
            after.deep_view(),
            change_set_id@,
            retained.deep_view(),
        ) {
            Ok((root, _)) => Ok(root),
            Err(e) => Err(e),
        }),
{
    let (root, _) = load_verified(before, after, change_set_id, retained)?;
    Ok(root)
}

/// The identifier that an impact was loaded by is that of its authority.
proof fn loaded_impact_has_its_id(side: RetainedSideModel, impact_id: Seq<char>)
    requires
        impact_of(side, impact_id) is Ok,
    ensures
        impact_id == "thread-impact:"@ + impact_of(
            side,
            impact_id,
        )->Ok_0.authority.authority_digest,
{
}

proof fn objects_are_bounded(
    p: PreparedThreadChangeSetModel,
    reads: Seq<ObjectReadModel>,
    total: usize,
    i: int,
)
    requires
        0 <= i,
        objects_from(p, true, reads, total, i) is Ok,
    ensures
        total <= objects_from(p, true, reads, total, i)->Ok_0,
        forall|k: int|
            i <= k < p.authority.direct_cas_closure.len() ==> host_size(
                (#[trigger] p.authority.direct_cas_closure[k]).size,
            ) is Some && p.authority.direct_cas_closure[k].size <= objects_from(
                p,
                true,
                reads,
                total,
                i,
            )->Ok_0,
    decreases p.authority.direct_cas_closure.len() - i,
{
    let closure = p.authority.direct_cas_closure;
    if i < closure.len() {
        let size = host_size(closure[i].size)->Some_0;
        objects_are_bounded(p, reads, (total + size) as usize, i + 1);
    }
}

proof fn objects_pass_again(
    p: PreparedThreadChangeSetModel,
    before: Seq<ObjectReadModel>,
    after: Seq<ObjectReadModel>,
    total: usize,
    i: int,
)
    requires
        0 <= i,
        reads_back(p.authority.direct_cas_closure, before, after),
        object_bytes(after, p.coverage_document_object.reference) is Ok,
        object_bytes(after, p.evidence_object.reference) is Ok,
        objects_from(p, false, before, total, i) is Ok,
    ensures
        objects_from(p, true, after, total, i) == objects_from(p, false, before, total, i),
    decreases p.authority.direct_cas_closure.len() - i,
{
    let closure = p.authority.direct_cas_closure;
    if i < closure.len() {
        let size = host_size(closure[i].size)->Some_0;
        objects_pass_again(p, before, after, (total + size) as usize, i + 1);
        if closure[i] != p.coverage_document_object.reference && closure[i]
            != p.evidence_object.reference {
            object_reads_back(closure, before, after, closure[i]);
        }
    }
}

/// A change set that was created loads again from what was retained of it: from the
/// canonical bytes of its root, from its document and its evidence, where the objects of its
/// closure read back as they did.
pub proof fn created_change_set_loads(
    before: RetainedSideModel,
    after: RetainedSideModel,
    request: ThreadChangeSetServiceRequestModel,
    document: Option<KotlinChangeCoverageDocumentModel>,
    validator: ValidatorRuntimeAuthorityModel,
    reads: Seq<ObjectReadModel>,
    p: PreparedThreadChangeSetModel,
    root: ThreadChangeSetRootModel,
    retained: RetainedChangeSetModel,
)
    requires
        change_set_created(before, after, request, document, validator, reads) == Ok::<
            (PreparedThreadChangeSetModel, ThreadChangeSetRootModel),
            ErrorModel,
        >((p, root)),
        is_digest(p.authority.authority_digest),
        retained.root == Some(root),
        retained.root_bytes == Some(root_bytes_of(root)),
        retained.document == Some(p.coverage_document),
        retained.evidence == Some(p.evidence),
        object_bytes(retained.reads, p.coverage_document_object.reference) == Ok::<
            Seq<u8>,
            ErrorModel,
        >(p.coverage_document_object.bytes),
        object_bytes(retained.reads, p.evidence_object.reference) == Ok::<Seq<u8>, ErrorModel>(
            p.evidence_object.bytes,
        ),
        reads_back(p.authority.direct_cas_closure, reads, retained.reads),
    ensures
        change_set_loaded(before, after, root.change_set_id, retained) == Ok::<
            (ThreadChangeSetRootModel, PreparedThreadChangeSetModel),
            ErrorModel,
        >((root, p)),
{
    let b = impact_of(before, request.before_impact_id)->Ok_0;
    let a = impact_of(after, request.after_impact_id)->Ok_0;
    let request_between = change_set_request(request, document, validator);
    loaded_impact_has_its_id(before, request.before_impact_id);
    loaded_impact_has_its_id(after, request.after_impact_id);
    published_change_set_is_honest(
        side_with(before, b),
        side_with(after, a),
        request_between,
        p,
    );
    assert(root == root_of(before.thread, after.thread, p));
    assert(change_set_id_checked(root.change_set_id) is Ok) by {
        digest_makes_id("thread-coverage:"@, p.authority.authority_digest);
        reveal_strlit("thread-coverage:sha256:");
        reveal_strlit("thread-coverage:");
        reveal_strlit("sha256:");
        assert("thread-coverage:sha256:"@ =~= "thread-coverage:"@ + "sha256:"@);
    }
    assert(root_loaded(after.thread, root.change_set_id, retained) == Ok::<
        ThreadChangeSetRootModel,
        ErrorModel,
    >(root));
    objects_pass_again(p, reads, retained.reads, 0, 0);
    objects_are_bounded(p, retained.reads, 0, 0);
    let closure = p.authority.direct_cas_closure;
    let k = choose|k: int|
        0 <= k < closure.len() && closure[k] == p.coverage_document_object.reference;
    let l = choose|l: int| 0 <= l < closure.len() && closure[l] == p.evidence_object.reference;
    assert(closure[k].size <= MAX_CHANGE_RETAINED_CLOSURE_BYTES);
    assert(closure[l].size <= MAX_CHANGE_RETAINED_CLOSURE_BYTES);
    assert(objects_loaded(root, retained) == Ok::<PreparedThreadChangeSetModel, ErrorModel>(p));
}

/// What is shown of a root fits in its bound, with the line feed behind it.
pub proof fn shown_lines_are_bounded(root: ThreadChangeSetRootModel, value: JsonModel)
    requires
        stdout_bounded(root) == Ok::<JsonModel, ErrorModel>(value),
    ensures
        canonical_bytes(value).len() + 1 <= MAX_CHANGE_STDOUT_BYTES,
{
}

} // verus!
