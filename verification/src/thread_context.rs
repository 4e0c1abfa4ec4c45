//! Contexts of threads: what the members of a thread found for a task, put
//! together within fixed bounds.

use vstd::prelude::*;
use vstd::string::*;

use crate::canonical::{hash, json_digest};
use crate::cas::{reference_to, CasObject, CasObjectModel, CAS_OBJECT_SCHEMA};
use crate::error::{
    accept, accepted, budget, exceeded, failure, invalid, outcome, refused, ClewError, ErrorCode, ErrorModel,
};
use crate::fair::{fair_order, first_of, longest, take_fairly};
use crate::json::{canonical_bytes, decimal, digits, list, Json, JsonModel};
use crate::order;
use crate::order::{Ordered, Part, PartModel};
use crate::record::Record;
use crate::retained::{
    host_size, object_bytes, read_object, to_host_size, ObjectRead, ObjectReadModel,
};
use crate::table::{
    enter, entered, find_record, first_table, keys_tell_apart, last_table, latest_table_of,
    record_at, sort, sorted, sorting_is_order_free, table_of, Keyed,
};
use crate::text::{
    after_prefix, byte_len, chars_of, contains_text, found, has_prefix, is_digest, joined,
    same_bytes, same_text, sha256_digest, strip_prefix, text_before, text_less, text_of,
};
use crate::thread::{
    SessionAuthority, SessionAuthorityModel, ThreadAuthority, ThreadAuthorityModel,
    ThreadMemberBinding, ThreadMemberBindingModel,
};

verus! {

pub const THREAD_CONTEXT_AUTHORITY_SCHEMA: &'static str = "codeclew-thread-context-authority/1.0";

pub const THREAD_CONTEXT_SCHEMA: &'static str = "codeclew-thread-context/1.0";

pub const THREAD_CONTEXT_EVIDENCE_SCHEMA: &'static str = "codeclew-thread-context-evidence/1.0";

pub const THREAD_CONTEXT_PROJECTION_SCHEMA: &'static str = "codeclew-thread-context-projection/1.0";

pub const THREAD_CONTEXT_RESULT_SCHEMA: &'static str = "codeclew-thread-context-result/1.0";

pub const MAX_THREAD_FACTS: usize = 4096;

pub const MAX_THREAD_EVIDENCE_BYTES: usize = 1024 * 1024;

pub const MAX_THREAD_SNIPPET_BYTES: usize = 16 * 1024;

pub const MAX_THREAD_SOURCE_WINDOWS: usize = 32;

pub const MAX_THREAD_SOURCE_BYTES: usize = 256 * 1024;

pub const MAX_THREAD_STDOUT_BYTES: usize = 64 * 1024;

pub const THREAD_PROJECTION_TARGET_BYTES: usize = 54 * 1024;

pub const MAX_THREAD_CONTEXT_OBJECT_BYTES: usize = 2 * 1024 * 1024;

pub const MEMBER_CONTEXT_EVIDENCE_SCHEMA: &'static str = "codeclew-context-evidence-object/3.0";

/// The schema of the context of one session.
pub const CONTEXT_SCHEMA: &'static str = "codeclew-context/3.0";

/// The room that is left in the evidence for counts and commas.
pub const EVIDENCE_RESERVE: usize = 8 * 1024;

/// The bounds of a thread context.
#[derive(Debug, PartialEq, Eq)]
pub struct ThreadContextBudgets {
    pub query_max_roots: usize,
    pub max_facts: usize,
    pub max_evidence_bytes: usize,
    pub max_snippet_bytes: usize,
    pub max_source_windows: usize,
    pub max_source_bytes: usize,
    pub max_stdout_bytes: usize,
}

/// The model of a [`ThreadContextBudgets`].
pub struct ThreadContextBudgetsModel {
    pub query_max_roots: usize,
    pub max_facts: usize,
    pub max_evidence_bytes: usize,
    pub max_snippet_bytes: usize,
    pub max_source_windows: usize,
    pub max_source_bytes: usize,
    pub max_stdout_bytes: usize,
}

impl DeepView for ThreadContextBudgets {
    type V = ThreadContextBudgetsModel;

    open spec fn deep_view(&self) -> ThreadContextBudgetsModel {
        ThreadContextBudgetsModel {
            query_max_roots: self.query_max_roots.deep_view(),
            max_facts: self.max_facts.deep_view(),
            max_evidence_bytes: self.max_evidence_bytes.deep_view(),
            max_snippet_bytes: self.max_snippet_bytes.deep_view(),
            max_source_windows: self.max_source_windows.deep_view(),
            max_source_bytes: self.max_source_bytes.deep_view(),
            max_stdout_bytes: self.max_stdout_bytes.deep_view(),
        }
    }
}

impl Record for ThreadContextBudgets {
    open spec fn json(v: ThreadContextBudgetsModel) -> JsonModel {
        JsonModel::object()
            .with("queryMaxRoots"@, <usize as Record>::json(v.query_max_roots))
            .with("maxFacts"@, <usize as Record>::json(v.max_facts))
            .with("maxEvidenceBytes"@, <usize as Record>::json(v.max_evidence_bytes))
            .with("maxSnippetBytes"@, <usize as Record>::json(v.max_snippet_bytes))
            .with("maxSourceWindows"@, <usize as Record>::json(v.max_source_windows))
            .with("maxSourceBytes"@, <usize as Record>::json(v.max_source_bytes))
            .with("maxStdoutBytes"@, <usize as Record>::json(v.max_stdout_bytes))
    }

    fn copied(&self) -> (r: ThreadContextBudgets) {
        ThreadContextBudgets {
            query_max_roots: self.query_max_roots.copied(),
            max_facts: self.max_facts.copied(),
            max_evidence_bytes: self.max_evidence_bytes.copied(),
            max_snippet_bytes: self.max_snippet_bytes.copied(),
            max_source_windows: self.max_source_windows.copied(),
            max_source_bytes: self.max_source_bytes.copied(),
            max_stdout_bytes: self.max_stdout_bytes.copied(),
        }
    }

    fn same_as(&self, other: &ThreadContextBudgets) -> (r: bool) {
        self.query_max_roots.same_as(&other.query_max_roots)
            && self.max_facts.same_as(&other.max_facts)
            && self.max_evidence_bytes.same_as(&other.max_evidence_bytes)
            && self.max_snippet_bytes.same_as(&other.max_snippet_bytes)
            && self.max_source_windows.same_as(&other.max_source_windows)
            && self.max_source_bytes.same_as(&other.max_source_bytes)
            && self.max_stdout_bytes.same_as(&other.max_stdout_bytes)
    }

    fn to_json(&self) -> (r: Json) {
        Json::object()
            .with("queryMaxRoots", self.query_max_roots.to_json())
            .with("maxFacts", self.max_facts.to_json())
            .with("maxEvidenceBytes", self.max_evidence_bytes.to_json())
            .with("maxSnippetBytes", self.max_snippet_bytes.to_json())
            .with("maxSourceWindows", self.max_source_windows.to_json())
            .with("maxSourceBytes", self.max_source_bytes.to_json())
            .with("maxStdoutBytes", self.max_stdout_bytes.to_json())
    }
}

/// What one member of a thread context is bound to.
#[derive(Debug, PartialEq, Eq)]
pub struct ThreadMemberContextBinding {
    pub member_alias: String,
    pub service_alias: String,
    pub session_id: String,
    pub session_authority_digest: String,
    pub repository_key: String,
    pub base_revision: String,
    pub language: String,
    pub compilations: Vec<String>,
    pub context_id: String,
    pub context_digest: String,
    pub evidence_digest: String,
    pub evidence_ref: CasObject,
}

/// The model of a [`ThreadMemberContextBinding`].
pub struct ThreadMemberContextBindingModel {
    pub member_alias: Seq<char>,
    pub service_alias: Seq<char>,
    pub session_id: Seq<char>,
    pub session_authority_digest: Seq<char>,
    pub repository_key: Seq<char>,
    pub base_revision: Seq<char>,
    pub language: Seq<char>,
    pub compilations: Seq<Seq<char>>,
    pub context_id: Seq<char>,
    pub context_digest: Seq<char>,
    pub evidence_digest: Seq<char>,
    pub evidence_ref: CasObjectModel,
}

impl DeepView for ThreadMemberContextBinding {
    type V = ThreadMemberContextBindingModel;

    open spec fn deep_view(&self) -> ThreadMemberContextBindingModel {
        ThreadMemberContextBindingModel {
            member_alias: self.member_alias.deep_view(),
            service_alias: self.service_alias.deep_view(),
            session_id: self.session_id.deep_view(),
            session_authority_digest: self.session_authority_digest.deep_view(),
            repository_key: self.repository_key.deep_view(),
            base_revision: self.base_revision.deep_view(),
            language: self.language.deep_view(),
            compilations: self.compilations.deep_view(),
            context_id: self.context_id.deep_view(),
            context_digest: self.context_digest.deep_view(),
            evidence_digest: self.evidence_digest.deep_view(),
            evidence_ref: self.evidence_ref.deep_view(),
        }
    }
}

impl Record for ThreadMemberContextBinding {
    open spec fn json(v: ThreadMemberContextBindingModel) -> JsonModel {
        JsonModel::object()
            .with("memberAlias"@, <String as Record>::json(v.member_alias))
            .with("serviceAlias"@, <String as Record>::json(v.service_alias))
            .with("sessionId"@, <String as Record>::json(v.session_id))
            .with("sessionAuthorityDigest"@, <String as Record>::json(v.session_authority_digest))
            .with("repositoryKey"@, <String as Record>::json(v.repository_key))
            .with("baseRevision"@, <String as Record>::json(v.base_revision))
            .with("language"@, <String as Record>::json(v.language))
            .with("compilations"@, <Vec<String> as Record>::json(v.compilations))
            .with("contextId"@, <String as Record>::json(v.context_id))
            .with("contextDigest"@, <String as Record>::json(v.context_digest))
            .with("evidenceDigest"@, <String as Record>::json(v.evidence_digest))
            .with("evidenceRef"@, <CasObject as Record>::json(v.evidence_ref))
    }

    fn copied(&self) -> (r: ThreadMemberContextBinding) {
        ThreadMemberContextBinding {
            member_alias: self.member_alias.copied(),
            service_alias: self.service_alias.copied(),
            session_id: self.session_id.copied(),
            session_authority_digest: self.session_authority_digest.copied(),
            repository_key: self.repository_key.copied(),
            base_revision: self.base_revision.copied(),
            language: self.language.copied(),
            compilations: self.compilations.copied(),
            context_id: self.context_id.copied(),
            context_digest: self.context_digest.copied(),
            evidence_digest: self.evidence_digest.copied(),
            evidence_ref: self.evidence_ref.copied(),
        }
    }

    fn same_as(&self, other: &ThreadMemberContextBinding) -> (r: bool) {
        self.member_alias.same_as(&other.member_alias)
            && self.service_alias.same_as(&other.service_alias)
            && self.session_id.same_as(&other.session_id)
            && self.session_authority_digest.same_as(&other.session_authority_digest)
            && self.repository_key.same_as(&other.repository_key)
            && self.base_revision.same_as(&other.base_revision)
            && self.language.same_as(&other.language)
            && self.compilations.same_as(&other.compilations)
            && self.context_id.same_as(&other.context_id)
            && self.context_digest.same_as(&other.context_digest)
            && self.evidence_digest.same_as(&other.evidence_digest)
            && self.evidence_ref.same_as(&other.evidence_ref)
    }

    fn to_json(&self) -> (r: Json) {
        Json::object()
            .with("memberAlias", self.member_alias.to_json())
            .with("serviceAlias", self.service_alias.to_json())
            .with("sessionId", self.session_id.to_json())
            .with("sessionAuthorityDigest", self.session_authority_digest.to_json())
            .with("repositoryKey", self.repository_key.to_json())
            .with("baseRevision", self.base_revision.to_json())
            .with("language", self.language.to_json())
            .with("compilations", self.compilations.to_json())
            .with("contextId", self.context_id.to_json())
            .with("contextDigest", self.context_digest.to_json())
            .with("evidenceDigest", self.evidence_digest.to_json())
            .with("evidenceRef", self.evidence_ref.to_json())
    }
}

impl Keyed for ThreadMemberContextBinding {
    open spec fn key(v: ThreadMemberContextBindingModel) -> Seq<char> {
        v.member_alias
    }

    fn key_text(&self) -> (r: &String) {
        &self.member_alias
    }
}

/// What a thread context is bound to.
#[derive(Debug, PartialEq, Eq)]
pub struct ThreadContextAuthority {
    pub schema: String,
    pub authority_digest: String,
    pub binding_digest: String,
    pub thread_id: String,
    pub thread_authority_digest: String,
    pub intent: String,
    pub terms: Vec<String>,
    pub budgets: ThreadContextBudgets,
    pub members: Vec<ThreadMemberContextBinding>,
    pub evidence_digest: String,
    pub evidence_ref: CasObject,
}

/// The model of a [`ThreadContextAuthority`].
pub struct ThreadContextAuthorityModel {
    pub schema: Seq<char>,
    pub authority_digest: Seq<char>,
    pub binding_digest: Seq<char>,
    pub thread_id: Seq<char>,
    pub thread_authority_digest: Seq<char>,
    pub intent: Seq<char>,
    pub terms: Seq<Seq<char>>,
    pub budgets: ThreadContextBudgetsModel,
    pub members: Seq<ThreadMemberContextBindingModel>,
    pub evidence_digest: Seq<char>,
    pub evidence_ref: CasObjectModel,
}

impl DeepView for ThreadContextAuthority {
    type V = ThreadContextAuthorityModel;

    open spec fn deep_view(&self) -> ThreadContextAuthorityModel {
        ThreadContextAuthorityModel {
            schema: self.schema.deep_view(),
            authority_digest: self.authority_digest.deep_view(),
            binding_digest: self.binding_digest.deep_view(),
            thread_id: self.thread_id.deep_view(),
            thread_authority_digest: self.thread_authority_digest.deep_view(),
            intent: self.intent.deep_view(),
            terms: self.terms.deep_view(),
            budgets: self.budgets.deep_view(),
            members: self.members.deep_view(),
            evidence_digest: self.evidence_digest.deep_view(),
            evidence_ref: self.evidence_ref.deep_view(),
        }
    }
}

impl Record for ThreadContextAuthority {
    open spec fn json(v: ThreadContextAuthorityModel) -> JsonModel {
        JsonModel::object()
            .with("schema"@, <String as Record>::json(v.schema))
            .with("authorityDigest"@, <String as Record>::json(v.authority_digest))
            .with("bindingDigest"@, <String as Record>::json(v.binding_digest))
            .with("threadId"@, <String as Record>::json(v.thread_id))
            .with("threadAuthorityDigest"@, <String as Record>::json(v.thread_authority_digest))
            .with("intent"@, <String as Record>::json(v.intent))
            .with("terms"@, <Vec<String> as Record>::json(v.terms))
            .with("budgets"@, <ThreadContextBudgets as Record>::json(v.budgets))
            .with("members"@, <Vec<ThreadMemberContextBinding> as Record>::json(v.members))
            .with("evidenceDigest"@, <String as Record>::json(v.evidence_digest))
            .with("evidenceRef"@, <CasObject as Record>::json(v.evidence_ref))
    }

    fn copied(&self) -> (r: ThreadContextAuthority) {
        ThreadContextAuthority {
            schema: self.schema.copied(),
            authority_digest: self.authority_digest.copied(),
            binding_digest: self.binding_digest.copied(),
            thread_id: self.thread_id.copied(),
            thread_authority_digest: self.thread_authority_digest.copied(),
            intent: self.intent.copied(),
            terms: self.terms.copied(),
            budgets: self.budgets.copied(),
            members: self.members.copied(),
            evidence_digest: self.evidence_digest.copied(),
            evidence_ref: self.evidence_ref.copied(),
        }
    }

    fn same_as(&self, other: &ThreadContextAuthority) -> (r: bool) {
        self.schema.same_as(&other.schema)
            && self.authority_digest.same_as(&other.authority_digest)
            && self.binding_digest.same_as(&other.binding_digest)
            && self.thread_id.same_as(&other.thread_id)
            && self.thread_authority_digest.same_as(&other.thread_authority_digest)
            && self.intent.same_as(&other.intent)
            && self.terms.same_as(&other.terms)
            && self.budgets.same_as(&other.budgets)
            && self.members.same_as(&other.members)
            && self.evidence_digest.same_as(&other.evidence_digest)
            && self.evidence_ref.same_as(&other.evidence_ref)
    }

    fn to_json(&self) -> (r: Json) {
        Json::object()
            .with("schema", self.schema.to_json())
            .with("authorityDigest", self.authority_digest.to_json())
            .with("bindingDigest", self.binding_digest.to_json())
            .with("threadId", self.thread_id.to_json())
            .with("threadAuthorityDigest", self.thread_authority_digest.to_json())
            .with("intent", self.intent.to_json())
            .with("terms", self.terms.to_json())
            .with("budgets", self.budgets.to_json())
            .with("members", self.members.to_json())
            .with("evidenceDigest", self.evidence_digest.to_json())
            .with("evidenceRef", self.evidence_ref.to_json())
    }
}

/// A thread context: what it is bound to, what is shown of it, and its evidence,
/// which is kept in an object of its own.
#[derive(Debug, PartialEq, Eq)]
pub struct ThreadContextObject {
    pub schema: String,
    pub context_id: String,
    pub authority: ThreadContextAuthority,
    pub evidence_digest: String,
    pub evidence_ref: CasObject,
    pub projection: Json,
    pub evidence: Json,
}

/// The model of a [`ThreadContextObject`].
pub struct ThreadContextObjectModel {
    pub schema: Seq<char>,
    pub context_id: Seq<char>,
    pub authority: ThreadContextAuthorityModel,
    pub evidence_digest: Seq<char>,
    pub evidence_ref: CasObjectModel,
    pub projection: JsonModel,
    pub evidence: JsonModel,
}

impl DeepView for ThreadContextObject {
    type V = ThreadContextObjectModel;

    open spec fn deep_view(&self) -> ThreadContextObjectModel {
        ThreadContextObjectModel {
            schema: self.schema.deep_view(),
            context_id: self.context_id.deep_view(),
            authority: self.authority.deep_view(),
            evidence_digest: self.evidence_digest.deep_view(),
            evidence_ref: self.evidence_ref.deep_view(),
            projection: self.projection.deep_view(),
            evidence: self.evidence.deep_view(),
        }
    }
}

impl Record for ThreadContextObject {
    open spec fn json(v: ThreadContextObjectModel) -> JsonModel {
        JsonModel::object()
            .with("schema"@, <String as Record>::json(v.schema))
            .with("contextId"@, <String as Record>::json(v.context_id))
            .with("authority"@, <ThreadContextAuthority as Record>::json(v.authority))
            .with("evidenceDigest"@, <String as Record>::json(v.evidence_digest))
            .with("evidenceRef"@, <CasObject as Record>::json(v.evidence_ref))
            .with("projection"@, <Json as Record>::json(v.projection))
    }

    fn copied(&self) -> (r: ThreadContextObject) {
        ThreadContextObject {
            schema: self.schema.copied(),
            context_id: self.context_id.copied(),
            authority: self.authority.copied(),
            evidence_digest: self.evidence_digest.copied(),
            evidence_ref: self.evidence_ref.copied(),
            projection: self.projection.copied(),
            evidence: self.evidence.copied(),
        }
    }

    fn same_as(&self, other: &ThreadContextObject) -> (r: bool) {
        self.schema.same_as(&other.schema)
            && self.context_id.same_as(&other.context_id)
            && self.authority.same_as(&other.authority)
            && self.evidence_digest.same_as(&other.evidence_digest)
            && self.evidence_ref.same_as(&other.evidence_ref)
            && self.projection.same_as(&other.projection)
            && self.evidence.same_as(&other.evidence)
    }

    fn to_json(&self) -> (r: Json) {
        Json::object()
            .with("schema", self.schema.to_json())
            .with("contextId", self.context_id.to_json())
            .with("authority", self.authority.to_json())
            .with("evidenceDigest", self.evidence_digest.to_json())
            .with("evidenceRef", self.evidence_ref.to_json())
            .with("projection", self.projection.to_json())
    }
}

/// The context of one session: what it found for a task. Its evidence is kept in an
/// object of its own.
#[derive(Debug, PartialEq, Eq)]
pub struct ContextObject {
    pub schema: String,
    pub context_id: String,
    pub session_id: String,
    pub session_authority_digest: String,
    pub parent_context_id: Option<String>,
    pub intent: String,
    pub terms: Vec<String>,
    pub evidence_digest: String,
    pub evidence_ref: CasObject,
    pub projection: Json,
    pub evidence: Json,
}

/// The model of a [`ContextObject`].
pub struct ContextObjectModel {
    pub schema: Seq<char>,
    pub context_id: Seq<char>,
    pub session_id: Seq<char>,
    pub session_authority_digest: Seq<char>,
    pub parent_context_id: Option<Seq<char>>,
    pub intent: Seq<char>,
    pub terms: Seq<Seq<char>>,
    pub evidence_digest: Seq<char>,
    pub evidence_ref: CasObjectModel,
    pub projection: JsonModel,
    pub evidence: JsonModel,
}

impl DeepView for ContextObject {
    type V = ContextObjectModel;

    open spec fn deep_view(&self) -> ContextObjectModel {
        ContextObjectModel {
            schema: self.schema.deep_view(),
            context_id: self.context_id.deep_view(),
            session_id: self.session_id.deep_view(),
            session_authority_digest: self.session_authority_digest.deep_view(),
            parent_context_id: self.parent_context_id.deep_view(),
            intent: self.intent.deep_view(),
            terms: self.terms.deep_view(),
            evidence_digest: self.evidence_digest.deep_view(),
            evidence_ref: self.evidence_ref.deep_view(),
            projection: self.projection.deep_view(),
            evidence: self.evidence.deep_view(),
        }
    }
}

impl Record for ContextObject {
    open spec fn json(v: ContextObjectModel) -> JsonModel {
        JsonModel::object()
            .with("schema"@, <String as Record>::json(v.schema))
            .with("contextId"@, <String as Record>::json(v.context_id))
            .with("sessionId"@, <String as Record>::json(v.session_id))
            .with("sessionAuthorityDigest"@, <String as Record>::json(v.session_authority_digest))
            .with("parentContextId"@, <Option<String> as Record>::json(v.parent_context_id))
            .with("intent"@, <String as Record>::json(v.intent))
            .with("terms"@, <Vec<String> as Record>::json(v.terms))
            .with("evidenceDigest"@, <String as Record>::json(v.evidence_digest))
            .with("evidenceRef"@, <CasObject as Record>::json(v.evidence_ref))
            .with("projection"@, <Json as Record>::json(v.projection))
    }

    fn copied(&self) -> (r: ContextObject) {
        ContextObject {
            schema: self.schema.copied(),
            context_id: self.context_id.copied(),
            session_id: self.session_id.copied(),
            session_authority_digest: self.session_authority_digest.copied(),
            parent_context_id: self.parent_context_id.copied(),
            intent: self.intent.copied(),
            terms: self.terms.copied(),
            evidence_digest: self.evidence_digest.copied(),
            evidence_ref: self.evidence_ref.copied(),
            projection: self.projection.copied(),
            evidence: self.evidence.copied(),
        }
    }

    fn same_as(&self, other: &ContextObject) -> (r: bool) {
        self.schema.same_as(&other.schema)
            && self.context_id.same_as(&other.context_id)
            && self.session_id.same_as(&other.session_id)
            && self.session_authority_digest.same_as(&other.session_authority_digest)
            && self.parent_context_id.same_as(&other.parent_context_id)
            && self.intent.same_as(&other.intent)
            && self.terms.same_as(&other.terms)
            && self.evidence_digest.same_as(&other.evidence_digest)
            && self.evidence_ref.same_as(&other.evidence_ref)
            && self.projection.same_as(&other.projection)
            && self.evidence.same_as(&other.evidence)
    }

    fn to_json(&self) -> (r: Json) {
        Json::object()
            .with("schema", self.schema.to_json())
            .with("contextId", self.context_id.to_json())
            .with("sessionId", self.session_id.to_json())
            .with("sessionAuthorityDigest", self.session_authority_digest.to_json())
            .with("parentContextId", self.parent_context_id.to_json())
            .with("intent", self.intent.to_json())
            .with("terms", self.terms.to_json())
            .with("evidenceDigest", self.evidence_digest.to_json())
            .with("evidenceRef", self.evidence_ref.to_json())
            .with("projection", self.projection.to_json())
    }
}

/// The context that a member of a thread contributes, with the source paths of each of
/// the facts that it selected.
#[derive(Debug, PartialEq, Eq)]
pub struct MemberContext {
    pub member: ThreadMemberBinding,
    pub context: ContextObject,
    pub fact_paths: Vec<Vec<String>>,
}

/// The model of a [`MemberContext`].
pub struct MemberContextModel {
    pub member: ThreadMemberBindingModel,
    pub context: ContextObjectModel,
    pub fact_paths: Seq<Seq<Seq<char>>>,
}

impl DeepView for MemberContext {
    type V = MemberContextModel;

    open spec fn deep_view(&self) -> MemberContextModel {
        MemberContextModel {
            member: self.member.deep_view(),
            context: self.context.deep_view(),
            fact_paths: self.fact_paths.deep_view(),
        }
    }
}

impl Record for MemberContext {
    open spec fn json(v: MemberContextModel) -> JsonModel {
        JsonModel::object()
            .with("member"@, <ThreadMemberBinding as Record>::json(v.member))
            .with("context"@, <ContextObject as Record>::json(v.context))
            .with("factPaths"@, <Vec<Vec<String>> as Record>::json(v.fact_paths))
    }

    fn copied(&self) -> (r: MemberContext) {
        MemberContext {
            member: self.member.copied(),
            context: self.context.copied(),
            fact_paths: self.fact_paths.copied(),
        }
    }

    fn same_as(&self, other: &MemberContext) -> (r: bool) {
        self.member.same_as(&other.member)
            && self.context.same_as(&other.context)
            && self.fact_paths.same_as(&other.fact_paths)
    }

    fn to_json(&self) -> (r: Json) {
        Json::object()
            .with("member", self.member.to_json())
            .with("context", self.context.to_json())
            .with("factPaths", self.fact_paths.to_json())
    }
}

impl Keyed for MemberContext {
    open spec fn key(v: MemberContextModel) -> Seq<char> {
        v.member.member_alias
    }

    fn key_text(&self) -> (r: &String) {
        &self.member.member_alias
    }
}

/// Where what a member found comes from.
#[derive(Debug, PartialEq, Eq)]
pub struct MemberProvenance {
    pub member_alias: String,
    pub value: Json,
}

/// The model of a [`MemberProvenance`].
pub struct MemberProvenanceModel {
    pub member_alias: Seq<char>,
    pub value: JsonModel,
}

impl DeepView for MemberProvenance {
    type V = MemberProvenanceModel;

    open spec fn deep_view(&self) -> MemberProvenanceModel {
        MemberProvenanceModel {
            member_alias: self.member_alias.deep_view(),
            value: self.value.deep_view(),
        }
    }
}

impl Record for MemberProvenance {
    open spec fn json(v: MemberProvenanceModel) -> JsonModel {
        JsonModel::object()
            .with("memberAlias"@, <String as Record>::json(v.member_alias))
            .with("value"@, <Json as Record>::json(v.value))
    }

    fn copied(&self) -> (r: MemberProvenance) {
        MemberProvenance {
            member_alias: self.member_alias.copied(),
            value: self.value.copied(),
        }
    }

    fn same_as(&self, other: &MemberProvenance) -> (r: bool) {
        self.member_alias.same_as(&other.member_alias)
            && self.value.same_as(&other.value)
    }

    fn to_json(&self) -> (r: Json) {
        Json::object()
            .with("memberAlias", self.member_alias.to_json())
            .with("value", self.value.to_json())
    }
}

impl Keyed for MemberProvenance {
    open spec fn key(v: MemberProvenanceModel) -> Seq<char> {
        v.member_alias
    }

    fn key_text(&self) -> (r: &String) {
        &self.member_alias
    }
}

/// A member and one of its compilations.
#[derive(Debug, PartialEq, Eq)]
pub struct LaneKey {
    pub member_alias: String,
    pub compilation: String,
}

/// The model of a [`LaneKey`].
pub struct LaneKeyModel {
    pub member_alias: Seq<char>,
    pub compilation: Seq<char>,
}

impl DeepView for LaneKey {
    type V = LaneKeyModel;

    open spec fn deep_view(&self) -> LaneKeyModel {
        LaneKeyModel {
            member_alias: self.member_alias.deep_view(),
            compilation: self.compilation.deep_view(),
        }
    }
}

impl Record for LaneKey {
    open spec fn json(v: LaneKeyModel) -> JsonModel {
        JsonModel::object()
            .with("memberAlias"@, <String as Record>::json(v.member_alias))
            .with("compilation"@, <String as Record>::json(v.compilation))
    }

    fn copied(&self) -> (r: LaneKey) {
        LaneKey {
            member_alias: self.member_alias.copied(),
            compilation: self.compilation.copied(),
        }
    }

    fn same_as(&self, other: &LaneKey) -> (r: bool) {
        self.member_alias.same_as(&other.member_alias)
            && self.compilation.same_as(&other.compilation)
    }

    fn to_json(&self) -> (r: Json) {
        Json::object()
            .with("memberAlias", self.member_alias.to_json())
            .with("compilation", self.compilation.to_json())
    }
}

/// A fact of a member, with its compilation and where it comes from.
#[derive(Debug, PartialEq, Eq)]
pub struct FactCandidate {
    pub provenance: MemberProvenance,
    pub compilation: String,
    pub fact: Json,
}

/// The model of a [`FactCandidate`].
pub struct FactCandidateModel {
    pub provenance: MemberProvenanceModel,
    pub compilation: Seq<char>,
    pub fact: JsonModel,
}

impl DeepView for FactCandidate {
    type V = FactCandidateModel;

    open spec fn deep_view(&self) -> FactCandidateModel {
        FactCandidateModel {
            provenance: self.provenance.deep_view(),
            compilation: self.compilation.deep_view(),
            fact: self.fact.deep_view(),
        }
    }
}

impl Record for FactCandidate {
    open spec fn json(v: FactCandidateModel) -> JsonModel {
        JsonModel::object()
            .with("provenance"@, <MemberProvenance as Record>::json(v.provenance))
            .with("compilation"@, <String as Record>::json(v.compilation))
            .with("fact"@, <Json as Record>::json(v.fact))
    }

    fn copied(&self) -> (r: FactCandidate) {
        FactCandidate {
            provenance: self.provenance.copied(),
            compilation: self.compilation.copied(),
            fact: self.fact.copied(),
        }
    }

    fn same_as(&self, other: &FactCandidate) -> (r: bool) {
        self.provenance.same_as(&other.provenance)
            && self.compilation.same_as(&other.compilation)
            && self.fact.same_as(&other.fact)
    }

    fn to_json(&self) -> (r: Json) {
        Json::object()
            .with("provenance", self.provenance.to_json())
            .with("compilation", self.compilation.to_json())
            .with("fact", self.fact.to_json())
    }
}

/// A source of a member: its path, the compilations that it was found through, what
/// is shown of it, and how much that is.
#[derive(Debug, PartialEq, Eq)]
pub struct SourceCandidate {
    pub member_alias: String,
    pub file: String,
    pub compilations: Vec<String>,
    pub value: Json,
    pub windows: usize,
    pub bytes: usize,
}

/// The model of a [`SourceCandidate`].
pub struct SourceCandidateModel {
    pub member_alias: Seq<char>,
    pub file: Seq<char>,
    pub compilations: Seq<Seq<char>>,
    pub value: JsonModel,
    pub windows: usize,
    pub bytes: usize,
}

impl DeepView for SourceCandidate {
    type V = SourceCandidateModel;

    open spec fn deep_view(&self) -> SourceCandidateModel {
        SourceCandidateModel {
            member_alias: self.member_alias.deep_view(),
            file: self.file.deep_view(),
            compilations: self.compilations.deep_view(),
            value: self.value.deep_view(),
            windows: self.windows.deep_view(),
            bytes: self.bytes.deep_view(),
        }
    }
}

impl Record for SourceCandidate {
    open spec fn json(v: SourceCandidateModel) -> JsonModel {
        JsonModel::object()
            .with("memberAlias"@, <String as Record>::json(v.member_alias))
            .with("file"@, <String as Record>::json(v.file))
            .with("compilations"@, <Vec<String> as Record>::json(v.compilations))
            .with("value"@, <Json as Record>::json(v.value))
            .with("windows"@, <usize as Record>::json(v.windows))
            .with("bytes"@, <usize as Record>::json(v.bytes))
    }

    fn copied(&self) -> (r: SourceCandidate) {
        SourceCandidate {
            member_alias: self.member_alias.copied(),
            file: self.file.copied(),
            compilations: self.compilations.copied(),
            value: self.value.copied(),
            windows: self.windows.copied(),
            bytes: self.bytes.copied(),
        }
    }

    fn same_as(&self, other: &SourceCandidate) -> (r: bool) {
        self.member_alias.same_as(&other.member_alias)
            && self.file.same_as(&other.file)
            && self.compilations.same_as(&other.compilations)
            && self.value.same_as(&other.value)
            && self.windows.same_as(&other.windows)
            && self.bytes.same_as(&other.bytes)
    }

    fn to_json(&self) -> (r: Json) {
        Json::object()
            .with("memberAlias", self.member_alias.to_json())
            .with("file", self.file.to_json())
            .with("compilations", self.compilations.to_json())
            .with("value", self.value.to_json())
            .with("windows", self.windows.to_json())
            .with("bytes", self.bytes.to_json())
    }
}

impl Ordered for LaneKey {
    open spec fn parts(v: LaneKeyModel) -> Seq<PartModel> {
        seq![PartModel::Text(v.member_alias), PartModel::Text(v.compilation)]
    }

    fn to_parts(&self) -> (r: Vec<Part>) {
        let r = vec![Part::Text(self.member_alias.clone()), Part::Text(self.compilation.clone())];
        assert(r.deep_view() =~= seq![PartModel::Text(self.member_alias@), PartModel::Text(self.compilation@)]);
        r
    }
}

impl Ordered for SourceCandidate {
    open spec fn parts(v: SourceCandidateModel) -> Seq<PartModel> {
        seq![PartModel::Text(v.member_alias), PartModel::Text(v.file)]
    }

    fn to_parts(&self) -> (r: Vec<Part>) {
        let r = vec![Part::Text(self.member_alias.clone()), Part::Text(self.file.clone())];
        assert(r.deep_view() =~= seq![PartModel::Text(self.member_alias@), PartModel::Text(self.file@)]);
        r
    }
}

/// The compilations that a path was found through.
#[derive(Debug, PartialEq, Eq)]
pub struct PathCompilations {
    pub path: String,
    pub compilations: Vec<String>,
}

/// The model of a [`PathCompilations`].
pub struct PathCompilationsModel {
    pub path: Seq<char>,
    pub compilations: Seq<Seq<char>>,
}

impl DeepView for PathCompilations {
    type V = PathCompilationsModel;

    open spec fn deep_view(&self) -> PathCompilationsModel {
        PathCompilationsModel {
            path: self.path.deep_view(),
            compilations: self.compilations.deep_view(),
        }
    }
}

impl Record for PathCompilations {
    open spec fn json(v: PathCompilationsModel) -> JsonModel {
        JsonModel::object()
            .with("path"@, <String as Record>::json(v.path))
            .with("compilations"@, <Vec<String> as Record>::json(v.compilations))
    }

    fn copied(&self) -> (r: PathCompilations) {
        PathCompilations {
            path: self.path.copied(),
            compilations: self.compilations.copied(),
        }
    }

    fn same_as(&self, other: &PathCompilations) -> (r: bool) {
        self.path.same_as(&other.path)
            && self.compilations.same_as(&other.compilations)
    }

    fn to_json(&self) -> (r: Json) {
        Json::object()
            .with("path", self.path.to_json())
            .with("compilations", self.compilations.to_json())
    }
}

impl Keyed for PathCompilations {
    open spec fn key(v: PathCompilationsModel) -> Seq<char> {
        v.path
    }

    fn key_text(&self) -> (r: &String) {
        &self.path
    }
}

/// The bounds for a number of roots.
pub open spec fn budgets_for(query_max_roots: usize) -> ThreadContextBudgetsModel {
    ThreadContextBudgetsModel {
        query_max_roots,
        max_facts: MAX_THREAD_FACTS,
        max_evidence_bytes: MAX_THREAD_EVIDENCE_BYTES,
        max_snippet_bytes: MAX_THREAD_SNIPPET_BYTES,
        max_source_windows: MAX_THREAD_SOURCE_WINDOWS,
        max_source_bytes: MAX_THREAD_SOURCE_BYTES,
        max_stdout_bytes: MAX_THREAD_STDOUT_BYTES,
    }
}

/// The bounds for a number of roots, where it is one to 256.
pub open spec fn budgets_made(query_max_roots: usize) -> Result<
    ThreadContextBudgetsModel,
    ErrorModel,
> {
    if query_max_roots == 0 || query_max_roots > 256 {
        refused("thread context root limit must be between one and 256"@)
    } else {
        Ok(budgets_for(query_max_roots))
    }
}

/// The outcome for some bounds: they are those for their number of roots.
pub open spec fn budgets_checked(b: ThreadContextBudgetsModel) -> Result<(), ErrorModel> {
    match budgets_made(b.query_max_roots) {
        Err(e) => Err(e),
        Ok(expected) => if b != expected {
            refused("thread context budget authority is invalid"@)
        } else {
            Ok(())
        },
    }
}

impl ThreadContextBudgets {
    /// The bounds for a number of roots.
    pub fn new(query_max_roots: usize) -> (r: Result<ThreadContextBudgets, ClewError>)
        ensures
            outcome(r) == budgets_made(query_max_roots),
    {
        if query_max_roots == 0 || query_max_roots > 256 {
            return Err(invalid("thread context root limit must be between one and 256"));
        }
        Ok(
            ThreadContextBudgets {
                query_max_roots,
                max_facts: MAX_THREAD_FACTS,
                max_evidence_bytes: MAX_THREAD_EVIDENCE_BYTES,
                max_snippet_bytes: MAX_THREAD_SNIPPET_BYTES,
                max_source_windows: MAX_THREAD_SOURCE_WINDOWS,
                max_source_bytes: MAX_THREAD_SOURCE_BYTES,
                max_stdout_bytes: MAX_THREAD_STDOUT_BYTES,
            },
        )
    }

    /// Checks the bounds.
    pub fn validate(&self) -> (r: Result<(), ClewError>)
        ensures
            outcome(r) == budgets_checked(self.deep_view()),
    {
        let expected = ThreadContextBudgets::new(self.query_max_roots)?;
        if !self.same_as(&expected) {
            return Err(invalid("thread context budget authority is invalid"));
        }
        Ok(())
    }
}

/// The report of a step that contradicts an earlier one.
pub open spec fn broken<T>(message: Seq<char>) -> Result<T, ErrorModel> {
    Err(failure(ErrorCode::Internal, message))
}

fn internal(message: &str) -> (r: ClewError)
    ensures
        r.deep_view() == failure(ErrorCode::Internal, message@),
{
    ClewError::new(ErrorCode::Internal, message)
}

/// The outcome for evidence of a number of bytes.
pub open spec fn evidence_size_checked(size: nat) -> Result<(), ErrorModel> {
    if size > MAX_THREAD_EVIDENCE_BYTES {
        exceeded("thread context evidence exceeds 1 MiB"@)
    } else {
        Ok(())
    }
}

/// Checks the size of evidence.
pub fn validate_evidence_bytes(bytes: &Vec<u8>) -> (r: Result<(), ClewError>)
    ensures
        outcome(r) == evidence_size_checked(bytes@.len()),
{
    if bytes.len() > MAX_THREAD_EVIDENCE_BYTES {
        return Err(budget("thread context evidence exceeds 1 MiB"));
    }
    Ok(())
}

/// The outcome for something shown of a number of bytes, with a line end.
pub open spec fn stdout_size_checked(size: nat) -> Result<(), ErrorModel> {
    if size + 1 > MAX_THREAD_STDOUT_BYTES {
        exceeded("thread context stdout exceeds 64 KiB"@)
    } else {
        Ok(())
    }
}

/// Checks the size of what is shown.
pub fn validate_stdout_bytes(bytes: &Vec<u8>) -> (r: Result<(), ClewError>)
    ensures
        outcome(r) == stdout_size_checked(bytes@.len()),
{
    if bytes.len() >= MAX_THREAD_STDOUT_BYTES {
        return Err(budget("thread context stdout exceeds 64 KiB"));
    }
    Ok(())
}

/// The outcome for the sources of a context.
pub open spec fn source_budget_checked(
    b: ThreadContextBudgetsModel,
    window_count: usize,
    source_bytes: usize,
) -> Result<(), ErrorModel> {
    if window_count > b.max_source_windows || source_bytes > b.max_source_bytes {
        refused("thread source global budget is invalid"@)
    } else {
        Ok(())
    }
}

/// Checks how many windows and bytes the sources of a context have.
pub fn validate_source_budget(
    budgets: &ThreadContextBudgets,
    window_count: usize,
    source_bytes: usize,
) -> (r: Result<(), ClewError>)
    ensures
        outcome(r) == source_budget_checked(budgets.deep_view(), window_count, source_bytes),
{
    if window_count > budgets.max_source_windows || source_bytes > budgets.max_source_bytes {
        return Err(invalid("thread source global budget is invalid"));
    }
    Ok(())
}

/// A sum that stops at the largest number.
pub open spec fn bounded_sum(a: usize, b: usize) -> usize {
    if a + b > usize::MAX {
        usize::MAX
    } else {
        (a + b) as usize
    }
}

fn add_bounded(a: usize, b: usize) -> (r: usize)
    ensures
        r == bounded_sum(a, b),
{
    if b > usize::MAX - a {
        usize::MAX
    } else {
        a + b
    }
}

/// Whether a value is a prefix with a digest behind it.
pub open spec fn is_content_id(value: Seq<char>, prefix: Seq<char>) -> bool {
    has_prefix(value, prefix) && is_digest(after_prefix(value, prefix))
}

fn content_id(value: &str, prefix: &str) -> (r: bool)
    ensures
        r == is_content_id(value@, prefix@),
{
    match strip_prefix(value, prefix) {
        Some(rest) => sha256_digest(rest.as_str()),
        None => false,
    }
}

/// The name of the file for an identifier, which ends in a digest.
pub open spec fn file_named(value: Seq<char>) -> Result<Seq<char>, ErrorModel> {
    if found(value, "sha256:"@) is None {
        refused("thread context identifier has no digest"@)
    } else if value.len() >= 71 && is_digest(value.skip(value.len() - 71)) {
        Ok(value.skip(value.len() - 64) + ".json"@)
    } else {
        refused("thread context identifier digest is invalid"@)
    }
}

/// The name of the file for an identifier.
pub fn id_filename(value: &str) -> (r: Result<String, ClewError>)
    ensures
        outcome(r) == file_named(value@),
{
    if !contains_text(value, "sha256:") {
        return Err(invalid("thread context identifier has no digest"));
    }
    let chars = chars_of(value);
    let length: usize = chars.len();
    if length < 71 {
        return Err(invalid("thread context identifier digest is invalid"));
    }
    let digest = text_of(vstd::slice::slice_subrange(chars.as_slice(), length - 71, length));
    assert(digest@ =~= value@.skip(value@.len() - 71));
    if !sha256_digest(digest.as_str()) {
        return Err(invalid("thread context identifier digest is invalid"));
    }
    let digits = text_of(vstd::slice::slice_subrange(chars.as_slice(), length - 64, length));
    assert(digits@ =~= value@.skip(value@.len() - 64));
    Ok(joined(digits.as_str(), ".json"))
}

/// Where what a member found comes from.
#[verifier::opaque]
pub open spec fn provenance_of(c: MemberContextModel) -> JsonModel {
    JsonModel::object().with("memberAlias"@, JsonModel::Str(c.member.member_alias)).with(
        "serviceAlias"@,
        JsonModel::Str(c.member.service_alias),
    ).with("sessionId"@, JsonModel::Str(c.member.session.session_id)).with(
        "sessionAuthorityDigest"@,
        JsonModel::Str(c.member.session.authority_digest),
    ).with("language"@, JsonModel::Str(c.member.session.language.uri())).with(
        "contextId"@,
        JsonModel::Str(c.context.context_id),
    ).with("contextDigest"@, JsonModel::Str(context_digest(c.context))).with(
        "evidenceDigest"@,
        JsonModel::Str(c.context.evidence_digest),
    )
}

/// The digest of a context.
#[verifier::opaque]
pub open spec fn context_digest(c: ContextObjectModel) -> Seq<char> {
    json_digest(<ContextObject as Record>::json(c))
}

fn digest_of_context(context: &ContextObject) -> (r: String)
    ensures
        r@ == context_digest(context.deep_view()),
{
    proof {
        reveal(context_digest);
    }
    hash(&context.to_json())
}

fn provenance(c: &MemberContext) -> (r: Json)
    ensures
        r.deep_view() == provenance_of(c.deep_view()),
{
    proof {
        reveal(provenance_of);
    }
    Json::object().with("memberAlias", Json::Str(c.member.member_alias.clone())).with(
        "serviceAlias",
        Json::Str(c.member.service_alias.clone()),
    ).with("sessionId", Json::Str(c.member.session.session_id.clone())).with(
        "sessionAuthorityDigest",
        Json::Str(c.member.session.authority_digest.clone()),
    ).with("language", Json::Str(c.member.session.language.to_uri())).with(
        "contextId",
        Json::Str(c.context.context_id.clone()),
    ).with("contextDigest", Json::Str(digest_of_context(&c.context))).with(
        "evidenceDigest",
        Json::Str(c.context.evidence_digest.clone()),
    )
}

/// Whether a value has one of the first `n` members of another.
pub open spec fn shares_member(value: JsonModel, members: crate::json::Members, n: nat) -> bool
    decreases n,
{
    if n == 0 || n > members.len() {
        false
    } else {
        shares_member(value, members, (n - 1) as nat) || value.get(members[n - 1].0) is Some
    }
}

/// A value with the first `n` members set.
pub open spec fn with_members(value: JsonModel, members: crate::json::Members, n: nat) -> JsonModel
    decreases n,
{
    if n == 0 || n > members.len() {
        value
    } else {
        with_members(value, members, (n - 1) as nat).with(members[n - 1].0, members[n - 1].1)
    }
}

/// The members of an object.
pub open spec fn members_of(value: JsonModel) -> crate::json::Members {
    match value {
        JsonModel::Obj(m) => m,
        _ => Seq::empty(),
    }
}

/// A value with where it comes from, which it may not say itself.
pub open spec fn provenance_inserted(value: JsonModel, provenance: JsonModel) -> Result<
    JsonModel,
    ErrorModel,
> {
    let members = members_of(provenance);
    if shares_member(value, members, members.len()) {
        refused("member evidence collides with reserved thread provenance"@)
    } else {
        Ok(with_members(value, members, members.len()))
    }
}

fn insert_provenance(value: Json, provenance: &Json) -> (r: Result<Json, ClewError>)
    ensures
        outcome(r) == provenance_inserted(value.deep_view(), provenance.deep_view()),
{
    match provenance {
        Json::Obj(members) => {
            proof {
                crate::json::model_of_object(*members);
            }
            let ghost m = crate::json::member_models(members@);
            let ghost whole = value.deep_view();
            let mut i: usize = 0;
            let mut shared = false;
            while i < members.len()
                invariant
                    i <= members.len(),
                    m == crate::json::member_models(members@),
                    whole == value.deep_view(),
                    shared == shares_member(whole, m, i as nat),
                decreases members.len() - i,
            {
                assert(m[i as int].0 == members@[i as int].0@);
                if value.get(members[i].0.as_str()).is_some() {
                    shared = true;
                }
                i = i + 1;
            }
            if shared {
                return Err(invalid("member evidence collides with reserved thread provenance"));
            }
            let mut r = value;
            let mut k: usize = 0;
            while k < members.len()
                invariant
                    k <= members.len(),
                    m == crate::json::member_models(members@),
                    r.deep_view() == with_members(whole, m, k as nat),
                decreases members.len() - k,
            {
                assert(m[k as int] == (members@[k as int].0@, members@[k as int].1.deep_view()));
                r = r.with(members[k].0.as_str(), members[k].1.copied());
                k = k + 1;
            }
            Ok(r)
        },
        _ => Ok(value),
    }
}

/// The facts that a member selected.
pub open spec fn matches_of(evidence: JsonModel) -> Option<Seq<JsonModel>> {
    match evidence.get("context"@) {
        Some(context) => context.array_at("matches"@),
        None => None,
    }
}

fn selected_facts(evidence: &Json) -> (r: Option<&Vec<Json>>)
    ensures
        r.deep_view() == matches_of(evidence.deep_view()),
{
    match evidence.get("context") {
        Some(context) => context.array_at("matches"),
        None => None,
    }
}

/// Whether a fact says a compilation, one of some.
pub open spec fn is_compiled_in(fact: JsonModel, compilations: Seq<Seq<char>>) -> bool {
    match fact.str_at("compilation"@) {
        Some(compilation) => compilations.contains(compilation),
        None => false,
    }
}

/// Whether each of some facts says a compilation, one of some.
pub open spec fn all_compiled_in(facts: Seq<JsonModel>, compilations: Seq<Seq<char>>) -> bool {
    forall|i: int| 0 <= i < facts.len() ==> is_compiled_in(#[trigger] facts[i], compilations)
}

fn contains_string(items: &Vec<String>, item: &str) -> (r: bool)
    ensures
        r == items.deep_view().contains(item@),
{
    let ghost m = items.deep_view();
    let mut i: usize = 0;
    while i < items.len()
        invariant
            i <= items.len(),
            m == items.deep_view(),
            forall|k: int| 0 <= k < i ==> #[trigger] m[k] != item@,
        decreases items.len() - i,
    {
        assert(m[i as int] == items@[i as int]@);
        if same_text(items[i].as_str(), item) {
            return true;
        }
        i = i + 1;
    }
    false
}

/// Whether what a member contributes is that of the member of the thread, for the
/// task.
pub open spec fn member_agrees(
    expected: ThreadMemberBindingModel,
    actual: MemberContextModel,
    intent: Seq<char>,
    terms: Seq<Seq<char>>,
) -> bool {
    let context = actual.context;
    actual.member.member_alias == expected.member_alias && member_bytes(actual.member)
        == member_bytes(expected) && context.session_id == expected.session.session_id
        && context.session_authority_digest == expected.session.authority_digest
        && context.evidence_ref.schema == CAS_OBJECT_SCHEMA@ && context.evidence_ref.object_schema
        == MEMBER_CONTEXT_EVIDENCE_SCHEMA@ && context.evidence_ref.digest
        == context.evidence_digest && context.schema == CONTEXT_SCHEMA@ && context.intent == intent
        && context.terms == terms
}

/// The bytes of a member of a thread.
#[verifier::opaque]
pub open spec fn member_bytes(m: ThreadMemberBindingModel) -> Seq<u8> {
    canonical_bytes(<ThreadMemberBinding as Record>::json(m))
}

fn write_member(m: &ThreadMemberBinding) -> (r: Vec<u8>)
    ensures
        r@ == member_bytes(m.deep_view()),
{
    proof {
        reveal(member_bytes);
    }
    m.to_json().bytes()
}

/// The outcome for what a member contributes.
pub open spec fn member_checked(
    expected: ThreadMemberBindingModel,
    actual: MemberContextModel,
    intent: Seq<char>,
    terms: Seq<Seq<char>>,
) -> Result<(), ErrorModel> {
    if !member_agrees(expected, actual, intent, terms) {
        refused("member context authority is invalid"@)
    } else {
        match matches_of(actual.context.evidence) {
            None => refused("member context has no selected facts"@),
            Some(facts) => if all_compiled_in(facts, expected.session.compilations) {
                Ok(())
            } else {
                refused("member fact compilation provenance is invalid"@)
            },
        }
    }
}

fn validate_member_context(
    expected: &ThreadMemberBinding,
    actual: &MemberContext,
    intent: &str,
    terms: &Vec<String>,
) -> (r: Result<(), ClewError>)
    ensures
        outcome(r) == member_checked(
            expected.deep_view(),
            actual.deep_view(),
            intent@,
            terms.deep_view(),
        ),
{
    let context = &actual.context;
    if !actual.member.member_alias.same_as(&expected.member_alias) || !same_bytes(
        write_member(&actual.member).as_slice(),
        write_member(expected).as_slice(),
    ) || !context.session_id.same_as(&expected.session.session_id)
        || !context.session_authority_digest.same_as(&expected.session.authority_digest)
        || !same_text(context.evidence_ref.schema.as_str(), CAS_OBJECT_SCHEMA) || !same_text(
        context.evidence_ref.object_schema.as_str(),
        MEMBER_CONTEXT_EVIDENCE_SCHEMA,
    ) || !context.evidence_ref.digest.same_as(&context.evidence_digest) || !same_text(
        context.schema.as_str(),
        CONTEXT_SCHEMA,
    ) || !same_text(context.intent.as_str(), intent) || !context.terms.same_as(terms) {
        return Err(invalid("member context authority is invalid"));
    }
    let facts = match selected_facts(&context.evidence) {
        Some(facts) => facts,
        None => {
            return Err(invalid("member context has no selected facts"));
        },
    };
    let ghost m = facts.deep_view();
    let ghost names = expected.deep_view().session.compilations;
    let mut i: usize = 0;
    while i < facts.len()
        invariant
            i <= facts.len(),
            m == facts.deep_view(),
            names == expected.deep_view().session.compilations,
            matches_of(actual.deep_view().context.evidence) == Some(m),
            member_agrees(expected.deep_view(), actual.deep_view(), intent@, terms.deep_view()),
            forall|k: int| 0 <= k < i ==> is_compiled_in(#[trigger] m[k], names),
        decreases facts.len() - i,
    {
        assert(m[i as int] == facts@[i as int].deep_view());
        let known = match facts[i].str_at("compilation") {
            Some(compilation) => contains_string(
                &expected.session.compilations,
                compilation.as_str(),
            ),
            None => false,
        };
        if !known {
            assert(!is_compiled_in(m[i as int], names));
            assert(!all_compiled_in(m, names));
            return Err(invalid("member fact compilation provenance is invalid"));
        }
        i = i + 1;
    }
    Ok(())
}

/// What a member of a thread context is bound to.
pub open spec fn binding_of(c: MemberContextModel) -> ThreadMemberContextBindingModel {
    ThreadMemberContextBindingModel {
        member_alias: c.member.member_alias,
        service_alias: c.member.service_alias,
        session_id: c.member.session.session_id,
        session_authority_digest: c.member.session.authority_digest,
        repository_key: c.member.session.repository_key,
        base_revision: c.member.session.base_revision,
        language: c.member.session.language.uri(),
        compilations: c.member.session.compilations,
        context_id: c.context.context_id,
        context_digest: context_digest(c.context),
        evidence_digest: c.context.evidence_digest,
        evidence_ref: c.context.evidence_ref,
    }
}

fn member_context_binding(c: &MemberContext) -> (r: ThreadMemberContextBinding)
    ensures
        r.deep_view() == binding_of(c.deep_view()),
{
    let session = &c.member.session;
    ThreadMemberContextBinding {
        member_alias: c.member.member_alias.clone(),
        service_alias: c.member.service_alias.clone(),
        session_id: session.session_id.clone(),
        session_authority_digest: session.authority_digest.clone(),
        repository_key: session.repository_key.clone(),
        base_revision: session.base_revision.clone(),
        language: session.language.to_uri(),
        compilations: session.compilations.copied(),
        context_id: c.context.context_id.clone(),
        context_digest: digest_of_context(&c.context),
        evidence_digest: c.context.evidence_digest.clone(),
        evidence_ref: c.context.evidence_ref.copied(),
    }
}

/// What the members of a thread context are bound to, from one on, behind some.
pub open spec fn bindings_from(
    members: Seq<ThreadMemberBindingModel>,
    contexts: Seq<MemberContextModel>,
    intent: Seq<char>,
    terms: Seq<Seq<char>>,
    before: Seq<ThreadMemberContextBindingModel>,
    i: int,
) -> Result<Seq<ThreadMemberContextBindingModel>, ErrorModel>
    decreases members.len() - i,
{
    if i < 0 || i >= members.len() || i >= contexts.len() {
        Ok(before)
    } else {
        match member_checked(members[i], contexts[i], intent, terms) {
            Err(e) => Err(e),
            Ok(_) => bindings_from(
                members,
                contexts,
                intent,
                terms,
                before.push(binding_of(contexts[i])),
                i + 1,
            ),
        }
    }
}

fn bind_members(
    thread: &ThreadAuthority,
    contexts: &Vec<MemberContext>,
    intent: &str,
    terms: &Vec<String>,
) -> (r: Result<Vec<ThreadMemberContextBinding>, ClewError>)
    ensures
        outcome(r) == bindings_from(
            thread.deep_view().members,
            contexts.deep_view(),
            intent@,
            terms.deep_view(),
            Seq::empty(),
            0,
        ),
{
    let members = &thread.members;
    let ghost m = thread.deep_view().members;
    let ghost c = contexts.deep_view();
    let ghost t = terms.deep_view();
    let mut bindings: Vec<ThreadMemberContextBinding> = Vec::new();
    let mut i: usize = 0;
    assert(bindings.deep_view() =~= Seq::empty());
    while i < members.len() && i < contexts.len()
        invariant
            i <= members.len(),
            i <= contexts.len(),
            m == members.deep_view(),
            m == thread.deep_view().members,
            c == contexts.deep_view(),
            t == terms.deep_view(),
            bindings_from(m, c, intent@, t, Seq::empty(), 0) == bindings_from(
                m,
                c,
                intent@,
                t,
                bindings.deep_view(),
                i as int,
            ),
        decreases members.len() - i,
    {
        assert(m[i as int] == members@[i as int].deep_view());
        assert(c[i as int] == contexts@[i as int].deep_view());
        validate_member_context(&members[i], &contexts[i], intent, terms)?;
        let ghost before = bindings.deep_view();
        bindings.push(member_context_binding(&contexts[i]));
        assert(bindings.deep_view() =~= before.push(binding_of(c[i as int])));
        i = i + 1;
    }
    Ok(bindings)
}

/// Where what a member found comes from, under its alias.
pub open spec fn named_provenance(c: MemberContextModel) -> MemberProvenanceModel {
    MemberProvenanceModel { member_alias: c.member.member_alias, value: provenance_of(c) }
}

/// The facts of a member from one on, behind some.
pub open spec fn facts_collected(
    before: Seq<FactCandidateModel>,
    provenance: MemberProvenanceModel,
    facts: Seq<JsonModel>,
    i: int,
) -> Result<Seq<FactCandidateModel>, ErrorModel>
    decreases facts.len() - i,
{
    if i < 0 || i >= facts.len() {
        Ok(before)
    } else {
        match facts[i].str_at("compilation"@) {
            None => refused("member fact has no compilation provenance"@),
            Some(compilation) => facts_collected(
                before.push(FactCandidateModel { provenance, compilation, fact: facts[i] }),
                provenance,
                facts,
                i + 1,
            ),
        }
    }
}

/// The facts of the members from one on, behind some.
pub open spec fn members_collected(
    before: Seq<FactCandidateModel>,
    contexts: Seq<MemberContextModel>,
    i: int,
) -> Result<Seq<FactCandidateModel>, ErrorModel>
    decreases contexts.len() - i,
{
    if i < 0 || i >= contexts.len() {
        Ok(before)
    } else {
        match matches_of(contexts[i].context.evidence) {
            None => refused("member context selected facts are invalid"@),
            Some(facts) => match facts_collected(before, named_provenance(contexts[i]), facts, 0) {
                Err(e) => Err(e),
                Ok(more) => members_collected(more, contexts, i + 1),
            },
        }
    }
}

fn collect_facts(all: &mut Vec<FactCandidate>, provenance: &MemberProvenance, facts: &Vec<Json>) -> (r:
    Result<(), ClewError>)
    ensures
        match facts_collected(
            old(all).deep_view(),
            provenance.deep_view(),
            facts.deep_view(),
            0,
        ) {
            Ok(after) => r is Ok && final(all).deep_view() == after,
            Err(e) => r is Err && r->Err_0.deep_view() == e,
        },
{
    let ghost m = facts.deep_view();
    let ghost p = provenance.deep_view();
    let mut i: usize = 0;
    while i < facts.len()
        invariant
            i <= facts.len(),
            m == facts.deep_view(),
            p == provenance.deep_view(),
            facts_collected(old(all).deep_view(), p, m, 0) == facts_collected(
                all.deep_view(),
                p,
                m,
                i as int,
            ),
        decreases facts.len() - i,
    {
        assert(m[i as int] == facts@[i as int].deep_view());
        let compilation = match facts[i].str_at("compilation") {
            Some(compilation) => compilation,
            None => {
                return Err(invalid("member fact has no compilation provenance"));
            },
        };
        let ghost before = all.deep_view();
        let candidate = FactCandidate {
            provenance: provenance.copied(),
            compilation: compilation.clone(),
            fact: facts[i].copied(),
        };
        all.push(candidate);
        assert(all.deep_view() =~= before.push(candidate.deep_view()));
        i = i + 1;
    }
    Ok(())
}

fn collect_members(contexts: &Vec<MemberContext>) -> (r: Result<Vec<FactCandidate>, ClewError>)
    ensures
        outcome(r) == members_collected(Seq::empty(), contexts.deep_view(), 0),
{
    let ghost m = contexts.deep_view();
    let mut all: Vec<FactCandidate> = Vec::new();
    let mut i: usize = 0;
    assert(all.deep_view() =~= Seq::empty());
    while i < contexts.len()
        invariant
            i <= contexts.len(),
            m == contexts.deep_view(),
            members_collected(Seq::empty(), m, 0) == members_collected(
                all.deep_view(),
                m,
                i as int,
            ),
        decreases contexts.len() - i,
    {
        assert(m[i as int] == contexts@[i as int].deep_view());
        let c = &contexts[i];
        let facts = match selected_facts(&c.context.evidence) {
            Some(facts) => facts,
            None => {
                return Err(invalid("member context selected facts are invalid"));
            },
        };
        let named = MemberProvenance {
            member_alias: c.member.member_alias.clone(),
            value: provenance(c),
        };
        collect_facts(&mut all, &named, facts)?;
        i = i + 1;
    }
    Ok(all)
}

/// The member and the compilation of a fact.
pub open spec fn lane_of(c: FactCandidateModel) -> LaneKeyModel {
    LaneKeyModel { member_alias: c.provenance.member_alias, compilation: c.compilation }
}

/// The members and compilations of some facts, in their order.
pub open spec fn fact_lane_keys(candidates: Seq<FactCandidateModel>) -> Seq<LaneKeyModel> {
    order::first_table::<LaneKey>(
        Seq::new(candidates.len(), |i: int| lane_of(candidates[i])),
    )
}

/// The facts of one member and compilation.
pub open spec fn fact_lane(candidates: Seq<FactCandidateModel>, key: LaneKeyModel) -> Seq<
    FactCandidateModel,
> {
    candidates.filter(|c: FactCandidateModel| lane_of(c) == key)
}

/// The facts of each member and compilation.
pub open spec fn fact_lanes(candidates: Seq<FactCandidateModel>) -> Seq<Seq<FactCandidateModel>> {
    let keys = fact_lane_keys(candidates);
    Seq::new(keys.len(), |i: int| fact_lane(candidates, keys[i]))
}

fn lane_key(c: &FactCandidate) -> (r: LaneKey)
    ensures
        r.deep_view() == lane_of(c.deep_view()),
{
    LaneKey {
        member_alias: c.provenance.member_alias.clone(),
        compilation: c.compilation.clone(),
    }
}

fn one_lane_of_facts(candidates: &Vec<FactCandidate>, key: &LaneKey) -> (r: Vec<FactCandidate>)
    ensures
        r.deep_view() == fact_lane(candidates.deep_view(), key.deep_view()),
{
    let ghost m = candidates.deep_view();
    let ghost k = key.deep_view();
    let ghost wanted = |c: FactCandidateModel| lane_of(c) == k;
    let mut r: Vec<FactCandidate> = Vec::new();
    let mut i: usize = 0;
    proof {
        reveal(Seq::filter);
    }
    assert(r.deep_view() =~= m.take(0).filter(wanted));
    while i < candidates.len()
        invariant
            i <= candidates.len(),
            m == candidates.deep_view(),
            k == key.deep_view(),
            wanted == (|c: FactCandidateModel| lane_of(c) == k),
            r.deep_view() == m.take(i as int).filter(wanted),
        decreases candidates.len() - i,
    {
        assert(m[i as int] == candidates@[i as int].deep_view());
        assert(m.take(i as int + 1).drop_last() =~= m.take(i as int));
        proof {
            reveal(Seq::filter);
        }
        let ghost before = r.deep_view();
        if candidates[i].provenance.member_alias.same_as(&key.member_alias)
            && candidates[i].compilation.same_as(&key.compilation) {
            assert(lane_of(m[i as int]) == k);
            let candidate = candidates[i].copied();
            r.push(candidate);
            assert(r.deep_view() =~= before.push(m[i as int]));
        }
        i = i + 1;
    }
    assert(m.take(m.len() as int) =~= m);
    r
}

fn lanes_of_facts(candidates: &Vec<FactCandidate>) -> (r: Vec<Vec<FactCandidate>>)
    ensures
        r.deep_view() == fact_lanes(candidates.deep_view()),
{
    let ghost m = candidates.deep_view();
    let mut names: Vec<LaneKey> = Vec::new();
    let mut i: usize = 0;
    while i < candidates.len()
        invariant
            i <= candidates.len(),
            m == candidates.deep_view(),
            names.deep_view() =~= Seq::new(i as nat, |k: int| lane_of(m[k])),
        decreases candidates.len() - i,
    {
        assert(m[i as int] == candidates@[i as int].deep_view());
        let ghost before = names.deep_view();
        names.push(lane_key(&candidates[i]));
        assert(names.deep_view() =~= before.push(lane_of(m[i as int])));
        i = i + 1;
    }
    assert(names.deep_view() =~= Seq::new(m.len(), |k: int| lane_of(m[k])));
    let keys = order::table_of(&names);
    let ghost ks = fact_lane_keys(m);
    let mut r: Vec<Vec<FactCandidate>> = Vec::new();
    let mut k: usize = 0;
    while k < keys.len()
        invariant
            k <= keys.len(),
            m == candidates.deep_view(),
            ks == keys.deep_view(),
            ks == fact_lane_keys(m),
            r.deep_view() =~= fact_lanes(m).take(k as int),
        decreases keys.len() - k,
    {
        assert(ks[k as int] == keys@[k as int].deep_view());
        let ghost before = r.deep_view();
        r.push(one_lane_of_facts(candidates, &keys[k]));
        assert(r.deep_view() =~= before.push(fact_lane(m, ks[k as int])));
        k = k + 1;
    }
    assert(r.deep_view() =~= fact_lanes(m));
    r
}

/// Facts from one on with where they come from, behind some. What a member found is
/// said to come from where the first fact of that alias does.
pub open spec fn facts_wrapped(
    candidates: Seq<FactCandidateModel>,
    known: Seq<MemberProvenanceModel>,
    before: Seq<JsonModel>,
    i: int,
) -> Result<Seq<JsonModel>, ErrorModel>
    decreases candidates.len() - i,
{
    if i < 0 || i >= candidates.len() {
        Ok(before)
    } else {
        let candidate = candidates[i];
        let more = entered::<MemberProvenance>(known, candidate.provenance);
        let provenance = match record_at::<MemberProvenance>(
            more,
            candidate.provenance.member_alias,
        ) {
            Some(first) => first.value,
            None => candidate.provenance.value,
        };
        match provenance_inserted(candidate.fact, provenance) {
            Err(e) => Err(e),
            Ok(wrapped) => facts_wrapped(candidates, more, before.push(wrapped), i + 1),
        }
    }
}

fn wrap_facts(candidates: &Vec<FactCandidate>) -> (r: Result<Vec<Json>, ClewError>)
    ensures
        outcome(r) == facts_wrapped(candidates.deep_view(), Seq::empty(), Seq::empty(), 0),
{
    let ghost m = candidates.deep_view();
    let mut known: Vec<MemberProvenance> = Vec::new();
    let mut wrapped: Vec<Json> = Vec::new();
    let mut i: usize = 0;
    assert(known.deep_view() =~= Seq::empty());
    assert(wrapped.deep_view() =~= Seq::empty());
    while i < candidates.len()
        invariant
            i <= candidates.len(),
            m == candidates.deep_view(),
            facts_wrapped(m, Seq::empty(), Seq::empty(), 0) == facts_wrapped(
                m,
                known.deep_view(),
                wrapped.deep_view(),
                i as int,
            ),
        decreases candidates.len() - i,
    {
        assert(m[i as int] == candidates@[i as int].deep_view());
        let candidate = &candidates[i];
        enter(&mut known, candidate.provenance.copied());
        let provenance = match find_record(&known, candidate.provenance.member_alias.as_str()) {
            Some(first) => &first.value,
            None => &candidate.provenance.value,
        };
        let fact = insert_provenance(candidate.fact.copied(), provenance)?;
        let ghost before = wrapped.deep_view();
        wrapped.push(fact);
        assert(wrapped.deep_view() =~= before.push(fact.deep_view()));
        i = i + 1;
    }
    Ok(wrapped)
}

/// The facts of the members, those of each member and compilation in turn, up to a
/// number, with where they come from; and the number of all of them.
pub open spec fn matches_selected(contexts: Seq<MemberContextModel>, limit: usize) -> Result<
    (Seq<JsonModel>, usize),
    ErrorModel,
> {
    match members_collected(Seq::empty(), contexts, 0) {
        Err(e) => Err(e),
        Ok(candidates) => match facts_wrapped(
            first_of(fair_order(fact_lanes(candidates)), limit as nat),
            Seq::empty(),
            Seq::empty(),
            0,
        ) {
            Err(e) => Err(e),
            Ok(selected) => Ok((selected, candidates.len() as usize)),
        },
    }
}

/// Selects facts of the members.
pub fn select_matches(contexts: &Vec<MemberContext>, limit: usize) -> (r: Result<
    (Vec<Json>, usize),
    ClewError,
>)
    ensures
        outcome(r) == matches_selected(contexts.deep_view(), limit),
{
    let all = collect_members(contexts)?;
    let candidates = take_fairly(&lanes_of_facts(&all), limit);
    let selected = wrap_facts(&candidates)?;
    Ok((selected, all.len()))
}

/// The windows of a source that fit, from one on: how many there are in all, and how
/// many bytes of text they have.
pub open spec fn windows_taken(
    windows: Seq<JsonModel>,
    max_snippet_bytes: usize,
    bytes: usize,
    i: int,
) -> Result<(nat, usize), ErrorModel>
    decreases windows.len() - i,
{
    if i < 0 || i >= windows.len() {
        Ok((windows.len(), bytes))
    } else {
        match windows[i].str_at("text"@) {
            None => refused("member source window text is invalid"@),
            Some(text) => {
                let size = vstd::utf8::encode_utf8(text).len();
                if size > max_snippet_bytes {
                    refused("member source window exceeds the thread snippet limit"@)
                } else if i > 0 && bytes + size > max_snippet_bytes {
                    Ok((i as nat, bytes))
                } else {
                    windows_taken(windows, max_snippet_bytes, (bytes + size) as usize, i + 1)
                }
            },
        }
    }
}

fn take_windows(windows: &Vec<Json>, max_snippet_bytes: usize) -> (r: Result<
    (usize, usize),
    ClewError,
>)
    ensures
        match windows_taken(windows.deep_view(), max_snippet_bytes, 0, 0) {
            Ok((count, bytes)) => r is Ok && r->Ok_0.0 == count && r->Ok_0.1 == bytes && count
                <= windows@.len() && bytes <= max_snippet_bytes && (windows@.len() > 0 ==> count
                > 0),
            Err(e) => r is Err && r->Err_0.deep_view() == e,
        },
{
    let ghost m = windows.deep_view();
    let mut bytes: usize = 0;
    let mut i: usize = 0;
    while i < windows.len()
        invariant
            i <= windows.len(),
            m == windows.deep_view(),
            bytes <= max_snippet_bytes,
            i == 0 ==> bytes == 0,
            windows_taken(m, max_snippet_bytes, 0, 0) == windows_taken(
                m,
                max_snippet_bytes,
                bytes,
                i as int,
            ),
        decreases windows.len() - i,
    {
        assert(m[i as int] == windows@[i as int].deep_view());
        let text = match windows[i].str_at("text") {
            Some(text) => text,
            None => {
                return Err(invalid("member source window text is invalid"));
            },
        };
        let size: usize = byte_len(text.as_str());
        if size > max_snippet_bytes {
            return Err(invalid("member source window exceeds the thread snippet limit"));
        }
        if i > 0 && size > max_snippet_bytes - bytes {
            return Ok((i, bytes));
        }
        bytes = bytes + size;
        i = i + 1;
    }
    Ok((i, bytes))
}

/// The text of the first `n` windows, with a line before each but the first that says
/// where it starts.
pub open spec fn windows_text(windows: Seq<JsonModel>, n: nat) -> Seq<char>
    decreases n,
{
    if n == 0 || n > windows.len() {
        Seq::empty()
    } else {
        let text = match windows[n - 1].str_at("text"@) {
            Some(text) => text,
            None => Seq::empty(),
        };
        if n == 1 {
            text
        } else {
            let start = match windows[n - 1].u64_at("startLine"@) {
                Some(start) => start,
                None => 0,
            };
            windows_text(windows, (n - 1) as nat) + "\n"@ + "CODECLEW_OMITTED_LINES_BEFORE_"@
                + digits(start as nat) + "\n"@ + text
        }
    }
}

fn text_of_windows(windows: &Vec<Json>, count: usize) -> (r: String)
    requires
        count <= windows@.len(),
    ensures
        r@ == windows_text(windows.deep_view(), count as nat),
{
    let ghost m = windows.deep_view();
    let mut r = String::new();
    let mut i: usize = 0;
    assert(r@ =~= windows_text(m, 0));
    while i < count
        invariant
            i <= count <= windows@.len(),
            m == windows.deep_view(),
            r@ == windows_text(m, i as nat),
        decreases count - i,
    {
        assert(m[i as int] == windows@[i as int].deep_view());
        if i > 0 {
            let start: u64 = match windows[i].u64_at("startLine") {
                Some(start) => start,
                None => 0,
            };
            r.append("\n");
            r.append("CODECLEW_OMITTED_LINES_BEFORE_");
            r.append(decimal(start).as_str());
            r.append("\n");
        }
        match windows[i].str_at("text") {
            Some(text) => {
                r.append(text.as_str());
            },
            None => {},
        }
        proof {
            let text = match m[i as int].str_at("text"@) {
                Some(text) => text,
                None => Seq::empty(),
            };
            if i == 0 {
                assert(windows_text(m, 1) == text);
                assert(windows_text(m, 0) =~= Seq::empty());
                assert(r@ =~= text);
            } else {
                assert(r@ =~= windows_text(m, (i + 1) as nat));
            }
        }
        i = i + 1;
    }
    r
}

/// A source with the first `n` of its windows.
pub open spec fn source_with(
    source: JsonModel,
    windows: Seq<JsonModel>,
    n: nat,
    start: u64,
    end: u64,
) -> JsonModel {
    let shown = source.with("startLine"@, JsonModel::Uint(start)).with(
        "endLine"@,
        JsonModel::Uint(end),
    ).with("text"@, JsonModel::Str(windows_text(windows, n))).with(
        "windows"@,
        JsonModel::Arr(windows.take(n as int)),
    );
    if n != windows.len() {
        shown.with("completeFile"@, JsonModel::Bool(false))
    } else {
        shown
    }
}

/// What is shown of a source: as many of its windows from the first on as fit, how
/// many windows and bytes of text that is, and whether a window is left out.
pub open spec fn source_bounded(source: JsonModel, max_snippet_bytes: usize) -> Result<
    (JsonModel, usize, usize, bool),
    ErrorModel,
> {
    match source.array_at("windows"@) {
        None => refused("member source windows are invalid"@),
        Some(windows) => if windows.len() == 0 {
            refused("member source windows are empty"@)
        } else {
            match windows_taken(windows, max_snippet_bytes, 0, 0) {
                Err(e) => Err(e),
                Ok((n, bytes)) => match windows[0].u64_at("startLine"@) {
                    None => refused("member source start line is invalid"@),
                    Some(start) => match windows[n - 1].u64_at("endLine"@) {
                        None => refused("member source end line is invalid"@),
                        Some(end) => Ok(
                            (
                                source_with(source, windows, n, start, end),
                                n as usize,
                                bytes,
                                n != windows.len(),
                            ),
                        ),
                    },
                },
            }
        },
    }
}

fn first_items(items: &Vec<Json>, count: usize) -> (r: Vec<Json>)
    requires
        count <= items@.len(),
    ensures
        r.deep_view() == items.deep_view().take(count as int),
{
    let ghost m = items.deep_view();
    let mut r: Vec<Json> = Vec::new();
    let mut i: usize = 0;
    while i < count
        invariant
            i <= count <= items@.len(),
            m == items.deep_view(),
            r.deep_view() =~= m.take(i as int),
        decreases count - i,
    {
        assert(m[i as int] == items@[i as int].deep_view());
        let ghost before = r.deep_view();
        r.push(items[i].copied());
        assert(r.deep_view() =~= before.push(m[i as int]));
        i = i + 1;
    }
    assert(r.deep_view() =~= m.take(count as int));
    r
}

/// Bounds what is shown of a source.
pub fn bounded_source(source: &Json, max_snippet_bytes: usize) -> (r: Result<
    (Json, usize, usize, bool),
    ClewError,
>)
    ensures
        outcome(r) == source_bounded(source.deep_view(), max_snippet_bytes),
{
    let windows = match source.array_at("windows") {
        Some(windows) => windows,
        None => {
            return Err(invalid("member source windows are invalid"));
        },
    };
    if windows.len() == 0 {
        return Err(invalid("member source windows are empty"));
    }
    let ghost m = windows.deep_view();
    let (count, bytes) = take_windows(windows, max_snippet_bytes)?;
    assert(m[0] == windows@[0].deep_view());
    assert(m[count - 1] == windows@[count - 1].deep_view());
    let start: u64 = match windows[0].u64_at("startLine") {
        Some(start) => start,
        None => {
            return Err(invalid("member source start line is invalid"));
        },
    };
    let end: u64 = match windows[count - 1].u64_at("endLine") {
        Some(end) => end,
        None => {
            return Err(invalid("member source end line is invalid"));
        },
    };
    let shown = source.copied().with("startLine", Json::Uint(start)).with(
        "endLine",
        Json::Uint(end),
    ).with("text", Json::Str(text_of_windows(windows, count))).with(
        "windows",
        list(first_items(windows, count)),
    );
    let truncated = count != windows.len();
    let bounded = if truncated {
        shown.with("completeFile", Json::Bool(false))
    } else {
        shown
    };
    Ok((bounded, count, bytes, truncated))
}

/// The paths with a compilation added to those that a path was found through.
pub open spec fn path_found(
    table: Seq<PathCompilationsModel>,
    path: Seq<char>,
    compilation: Seq<char>,
) -> Seq<PathCompilationsModel> {
    let known = match record_at::<PathCompilations>(table, path) {
        Some(row) => row.compilations,
        None => Seq::empty(),
    };
    crate::table::replaced::<PathCompilations>(
        table,
        PathCompilationsModel { path, compilations: entered::<String>(known, compilation) },
    )
}

/// The paths with those of one fact from one on.
pub open spec fn fact_paths_found(
    table: Seq<PathCompilationsModel>,
    paths: Seq<Seq<char>>,
    compilation: Seq<char>,
    i: int,
) -> Seq<PathCompilationsModel>
    decreases paths.len() - i,
{
    if i < 0 || i >= paths.len() {
        table
    } else {
        fact_paths_found(path_found(table, paths[i], compilation), paths, compilation, i + 1)
    }
}

/// The paths of a fact by its place.
pub open spec fn paths_at(paths: Seq<Seq<Seq<char>>>, i: int) -> Seq<Seq<char>> {
    if 0 <= i < paths.len() {
        paths[i]
    } else {
        Seq::empty()
    }
}

/// The paths of the facts of a member from one on, with the compilations that each
/// was found through.
pub open spec fn paths_found(
    table: Seq<PathCompilationsModel>,
    facts: Seq<JsonModel>,
    paths: Seq<Seq<Seq<char>>>,
    i: int,
) -> Result<Seq<PathCompilationsModel>, ErrorModel>
    decreases facts.len() - i,
{
    if i < 0 || i >= facts.len() {
        Ok(table)
    } else {
        match facts[i].str_at("compilation"@) {
            None => refused("member fact has no compilation provenance"@),
            Some(compilation) => paths_found(
                fact_paths_found(table, paths_at(paths, i), compilation, 0),
                facts,
                paths,
                i + 1,
            ),
        }
    }
}

fn find_fact_paths(table: &mut Vec<PathCompilations>, paths: &Vec<String>, compilation: &String)
    ensures
        final(table).deep_view() == fact_paths_found(
            old(table).deep_view(),
            paths.deep_view(),
            compilation@,
            0,
        ),
{
    let ghost m = paths.deep_view();
    let mut i: usize = 0;
    while i < paths.len()
        invariant
            i <= paths.len(),
            m == paths.deep_view(),
            fact_paths_found(old(table).deep_view(), m, compilation@, 0) == fact_paths_found(
                table.deep_view(),
                m,
                compilation@,
                i as int,
            ),
        decreases paths.len() - i,
    {
        assert(m[i as int] == paths@[i as int].deep_view());
        let mut known: Vec<String> = match find_record(table, paths[i].as_str()) {
            Some(row) => row.compilations.copied(),
            None => Vec::new(),
        };
        assert(record_at::<PathCompilations>(table.deep_view(), m[i as int]) is None
            ==> known.deep_view() =~= Seq::empty());
        enter(&mut known, compilation.clone());
        crate::table::replace(
            table,
            PathCompilations { path: paths[i].clone(), compilations: known },
        );
        i = i + 1;
    }
}

fn find_paths(facts: &Vec<Json>, paths: &Vec<Vec<String>>) -> (r: Result<
    Vec<PathCompilations>,
    ClewError,
>)
    ensures
        outcome(r) == paths_found(Seq::empty(), facts.deep_view(), paths.deep_view(), 0),
{
    let ghost m = facts.deep_view();
    let ghost p = paths.deep_view();
    let mut table: Vec<PathCompilations> = Vec::new();
    let mut i: usize = 0;
    assert(table.deep_view() =~= Seq::empty());
    while i < facts.len()
        invariant
            i <= facts.len(),
            m == facts.deep_view(),
            p == paths.deep_view(),
            paths_found(Seq::empty(), m, p, 0) == paths_found(
                table.deep_view(),
                m,
                p,
                i as int,
            ),
        decreases facts.len() - i,
    {
        assert(m[i as int] == facts@[i as int].deep_view());
        let compilation = match facts[i].str_at("compilation") {
            Some(compilation) => compilation,
            None => {
                return Err(invalid("member fact has no compilation provenance"));
            },
        };
        if i < paths.len() {
            assert(p[i as int] == paths@[i as int].deep_view());
            find_fact_paths(&mut table, &paths[i], compilation);
        }
        i = i + 1;
    }
    Ok(table)
}

/// A source of a member, where a fact points into it.
pub open spec fn source_candidate(
    source: JsonModel,
    provenance: MemberProvenanceModel,
    table: Seq<PathCompilationsModel>,
    max_snippet_bytes: usize,
) -> Result<SourceCandidateModel, ErrorModel> {
    match source.str_at("fileId"@) {
        None => refused("member source has no file identity"@),
        Some(file) => match record_at::<PathCompilations>(table, file) {
            None => refused("member source has no exact compilation provenance"@),
            Some(row) => match source_bounded(source, max_snippet_bytes) {
                Err(e) => Err(e),
                Ok((bounded, windows, bytes, truncated)) => match provenance_inserted(
                    bounded,
                    provenance.value,
                ) {
                    Err(e) => Err(e),
                    Ok(value) => Ok(
                        SourceCandidateModel {
                            member_alias: provenance.member_alias,
                            file,
                            compilations: row.compilations,
                            value: value.with(
                                "compilations"@,
                                <Vec<String> as Record>::json(row.compilations),
                            ).with("threadTruncated"@, JsonModel::Bool(truncated)),
                            windows,
                            bytes,
                        },
                    ),
                },
            },
        },
    }
}

fn candidate_of(
    source: &Json,
    provenance: &MemberProvenance,
    table: &Vec<PathCompilations>,
    max_snippet_bytes: usize,
) -> (r: Result<SourceCandidate, ClewError>)
    ensures
        outcome(r) == source_candidate(
            source.deep_view(),
            provenance.deep_view(),
            table.deep_view(),
            max_snippet_bytes,
        ),
{
    let file = match source.str_at("fileId") {
        Some(file) => file,
        None => {
            return Err(invalid("member source has no file identity"));
        },
    };
    let row = match find_record(table, file.as_str()) {
        Some(row) => row,
        None => {
            return Err(invalid("member source has no exact compilation provenance"));
        },
    };
    let (bounded, windows, bytes, truncated) = bounded_source(source, max_snippet_bytes)?;
    let value = insert_provenance(bounded, &provenance.value)?;
    Ok(
        SourceCandidate {
            member_alias: provenance.member_alias.clone(),
            file: file.clone(),
            compilations: row.compilations.copied(),
            value: value.with("compilations", row.compilations.to_json()).with(
                "threadTruncated",
                Json::Bool(truncated),
            ),
            windows,
            bytes,
        },
    )
}

/// The sources with those of a member from one on. A later one with the same member
/// and path takes the place of an earlier one.
pub open spec fn sources_entered(
    unique: Seq<SourceCandidateModel>,
    sources: Seq<JsonModel>,
    provenance: MemberProvenanceModel,
    table: Seq<PathCompilationsModel>,
    max_snippet_bytes: usize,
    i: int,
) -> Result<Seq<SourceCandidateModel>, ErrorModel>
    decreases sources.len() - i,
{
    if i < 0 || i >= sources.len() {
        Ok(unique)
    } else {
        match source_candidate(sources[i], provenance, table, max_snippet_bytes) {
            Err(e) => Err(e),
            Ok(candidate) => sources_entered(
                order::replaced::<SourceCandidate>(unique, candidate),
                sources,
                provenance,
                table,
                max_snippet_bytes,
                i + 1,
            ),
        }
    }
}

fn enter_sources(
    unique: &mut Vec<SourceCandidate>,
    sources: &Vec<Json>,
    provenance: &MemberProvenance,
    table: &Vec<PathCompilations>,
    max_snippet_bytes: usize,
) -> (r: Result<(), ClewError>)
    ensures
        match sources_entered(
            old(unique).deep_view(),
            sources.deep_view(),
            provenance.deep_view(),
            table.deep_view(),
            max_snippet_bytes,
            0,
        ) {
            Ok(after) => r is Ok && final(unique).deep_view() == after,
            Err(e) => r is Err && r->Err_0.deep_view() == e,
        },
{
    let ghost m = sources.deep_view();
    let ghost p = provenance.deep_view();
    let ghost t = table.deep_view();
    let mut i: usize = 0;
    while i < sources.len()
        invariant
            i <= sources.len(),
            m == sources.deep_view(),
            p == provenance.deep_view(),
            t == table.deep_view(),
            sources_entered(old(unique).deep_view(), m, p, t, max_snippet_bytes, 0)
                == sources_entered(unique.deep_view(), m, p, t, max_snippet_bytes, i as int),
        decreases sources.len() - i,
    {
        assert(m[i as int] == sources@[i as int].deep_view());
        let candidate = candidate_of(&sources[i], provenance, table, max_snippet_bytes)?;
        order::replace(unique, candidate);
        i = i + 1;
    }
    Ok(())
}

/// The sources that a member has.
pub open spec fn sources_of(evidence: JsonModel) -> Option<Seq<JsonModel>> {
    match evidence.get("context"@) {
        Some(context) => context.array_at("sources"@),
        None => None,
    }
}

/// The sources with those of one member.
pub open spec fn member_sources(
    unique: Seq<SourceCandidateModel>,
    c: MemberContextModel,
    max_snippet_bytes: usize,
) -> Result<Seq<SourceCandidateModel>, ErrorModel> {
    match matches_of(c.context.evidence) {
        None => refused("member context selected facts are invalid"@),
        Some(facts) => match paths_found(Seq::empty(), facts, c.fact_paths, 0) {
            Err(e) => Err(e),
            Ok(table) => match sources_of(c.context.evidence) {
                None => refused("member context sources are invalid"@),
                Some(sources) => sources_entered(
                    unique,
                    sources,
                    named_provenance(c),
                    table,
                    max_snippet_bytes,
                    0,
                ),
            },
        },
    }
}

fn enter_member_sources(
    unique: &mut Vec<SourceCandidate>,
    c: &MemberContext,
    max_snippet_bytes: usize,
) -> (r: Result<(), ClewError>)
    ensures
        match member_sources(old(unique).deep_view(), c.deep_view(), max_snippet_bytes) {
            Ok(after) => r is Ok && final(unique).deep_view() == after,
            Err(e) => r is Err && r->Err_0.deep_view() == e,
        },
{
    let named = MemberProvenance {
        member_alias: c.member.member_alias.clone(),
        value: provenance(c),
    };
    let facts = match selected_facts(&c.context.evidence) {
        Some(facts) => facts,
        None => {
            return Err(invalid("member context selected facts are invalid"));
        },
    };
    let table = find_paths(facts, &c.fact_paths)?;
    let sources = match c.context.evidence.get("context") {
        Some(context) => context.array_at("sources"),
        None => None,
    };
    match sources {
        Some(sources) => enter_sources(unique, sources, &named, &table, max_snippet_bytes),
        None => Err(invalid("member context sources are invalid")),
    }
}

/// The sources of the members from one on.
pub open spec fn all_sources(
    unique: Seq<SourceCandidateModel>,
    contexts: Seq<MemberContextModel>,
    max_snippet_bytes: usize,
    i: int,
) -> Result<Seq<SourceCandidateModel>, ErrorModel>
    decreases contexts.len() - i,
{
    if i < 0 || i >= contexts.len() {
        Ok(unique)
    } else {
        match member_sources(unique, contexts[i], max_snippet_bytes) {
            Err(e) => Err(e),
            Ok(more) => all_sources(more, contexts, max_snippet_bytes, i + 1),
        }
    }
}

fn collect_sources(contexts: &Vec<MemberContext>, max_snippet_bytes: usize) -> (r: Result<
    Vec<SourceCandidate>,
    ClewError,
>)
    ensures
        outcome(r) == all_sources(Seq::empty(), contexts.deep_view(), max_snippet_bytes, 0),
{
    let ghost m = contexts.deep_view();
    let mut unique: Vec<SourceCandidate> = Vec::new();
    let mut i: usize = 0;
    assert(unique.deep_view() =~= Seq::empty());
    while i < contexts.len()
        invariant
            i <= contexts.len(),
            m == contexts.deep_view(),
            all_sources(Seq::empty(), m, max_snippet_bytes, 0) == all_sources(
                unique.deep_view(),
                m,
                max_snippet_bytes,
                i as int,
            ),
        decreases contexts.len() - i,
    {
        assert(m[i as int] == contexts@[i as int].deep_view());
        enter_member_sources(&mut unique, &contexts[i], max_snippet_bytes)?;
        i = i + 1;
    }
    Ok(unique)
}

/// The members and compilations of the first `n` sources.
pub open spec fn source_keys(unique: Seq<SourceCandidateModel>, n: nat) -> Seq<LaneKeyModel>
    decreases n,
{
    if n == 0 || n > unique.len() {
        Seq::empty()
    } else {
        let source = unique[n - 1];
        source_keys(unique, (n - 1) as nat) + Seq::new(
            source.compilations.len(),
            |i: int|
                LaneKeyModel {
                    member_alias: source.member_alias,
                    compilation: source.compilations[i],
                },
        )
    }
}

/// Whether a source is one of a member and compilation.
pub open spec fn is_in_lane(source: SourceCandidateModel, key: LaneKeyModel) -> bool {
    source.member_alias == key.member_alias && source.compilations.contains(key.compilation)
}

/// The sources of one member and compilation.
pub open spec fn source_lane(unique: Seq<SourceCandidateModel>, key: LaneKeyModel) -> Seq<
    SourceCandidateModel,
> {
    unique.filter(|source: SourceCandidateModel| is_in_lane(source, key))
}

/// The sources of each member and compilation. One that was found through several
/// compilations is in several lanes.
pub open spec fn source_lanes(unique: Seq<SourceCandidateModel>) -> Seq<
    Seq<SourceCandidateModel>,
> {
    let keys = order::first_table::<LaneKey>(source_keys(unique, unique.len()));
    Seq::new(keys.len(), |i: int| source_lane(unique, keys[i]))
}

fn keys_of_sources(unique: &Vec<SourceCandidate>) -> (r: Vec<LaneKey>)
    ensures
        r.deep_view() == source_keys(unique.deep_view(), unique@.len()),
{
    let ghost m = unique.deep_view();
    let mut r: Vec<LaneKey> = Vec::new();
    let mut i: usize = 0;
    assert(r.deep_view() =~= source_keys(m, 0));
    while i < unique.len()
        invariant
            i <= unique.len(),
            m == unique.deep_view(),
            r.deep_view() == source_keys(m, i as nat),
        decreases unique.len() - i,
    {
        assert(m[i as int] == unique@[i as int].deep_view());
        let source = &unique[i];
        let ghost s = source.deep_view();
        let ghost start = r.deep_view();
        let mut k: usize = 0;
        while k < source.compilations.len()
            invariant
                k <= source.compilations.len(),
                s == source.deep_view(),
                r.deep_view() =~= start + Seq::new(
                    k as nat,
                    |i: int|
                        LaneKeyModel {
                            member_alias: s.member_alias,
                            compilation: s.compilations[i],
                        },
                ),
            decreases source.compilations.len() - k,
        {
            assert(s.compilations[k as int] == source.compilations@[k as int].deep_view());
            let ghost before = r.deep_view();
            let key = LaneKey {
                member_alias: source.member_alias.clone(),
                compilation: source.compilations[k].clone(),
            };
            r.push(key);
            assert(r.deep_view() =~= before.push(key.deep_view()));
            k = k + 1;
        }
        i = i + 1;
    }
    r
}

fn one_lane_of_sources(unique: &Vec<SourceCandidate>, key: &LaneKey) -> (r: Vec<SourceCandidate>)
    ensures
        r.deep_view() == source_lane(unique.deep_view(), key.deep_view()),
{
    let ghost m = unique.deep_view();
    let ghost k = key.deep_view();
    let ghost wanted = |source: SourceCandidateModel| is_in_lane(source, k);
    let mut r: Vec<SourceCandidate> = Vec::new();
    let mut i: usize = 0;
    proof {
        reveal(Seq::filter);
    }
    assert(r.deep_view() =~= m.take(0).filter(wanted));
    while i < unique.len()
        invariant
            i <= unique.len(),
            m == unique.deep_view(),
            k == key.deep_view(),
            wanted == (|source: SourceCandidateModel| is_in_lane(source, k)),
            r.deep_view() == m.take(i as int).filter(wanted),
        decreases unique.len() - i,
    {
        assert(m[i as int] == unique@[i as int].deep_view());
        assert(m.take(i as int + 1).drop_last() =~= m.take(i as int));
        proof {
            reveal(Seq::filter);
        }
        let ghost before = r.deep_view();
        if unique[i].member_alias.same_as(&key.member_alias) && contains_string(
            &unique[i].compilations,
            key.compilation.as_str(),
        ) {
            r.push(unique[i].copied());
            assert(r.deep_view() =~= before.push(m[i as int]));
        }
        i = i + 1;
    }
    assert(m.take(m.len() as int) =~= m);
    r
}

fn lanes_of_sources(unique: &Vec<SourceCandidate>) -> (r: Vec<Vec<SourceCandidate>>)
    ensures
        r.deep_view() == source_lanes(unique.deep_view()),
{
    let ghost m = unique.deep_view();
    let keys = order::table_of(&keys_of_sources(unique));
    let ghost ks = order::first_table::<LaneKey>(source_keys(m, m.len()));
    let mut r: Vec<Vec<SourceCandidate>> = Vec::new();
    let mut k: usize = 0;
    while k < keys.len()
        invariant
            k <= keys.len(),
            m == unique.deep_view(),
            ks == keys.deep_view(),
            ks == order::first_table::<LaneKey>(source_keys(m, m.len())),
            r.deep_view() =~= source_lanes(m).take(k as int),
        decreases keys.len() - k,
    {
        assert(ks[k as int] == keys@[k as int].deep_view());
        let ghost before = r.deep_view();
        r.push(one_lane_of_sources(unique, &keys[k]));
        assert(r.deep_view() =~= before.push(source_lane(m, ks[k as int])));
        k = k + 1;
    }
    assert(r.deep_view() =~= source_lanes(m));
    r
}

/// How far the sources have been gone through: up to where in each lane, which of
/// them have had their turn, and what was selected.
pub struct Picked {
    pub cursors: Seq<nat>,
    pub seen: Seq<Seq<PartModel>>,
    pub selected: Seq<JsonModel>,
    pub windows: nat,
    pub bytes: nat,
    pub limited: bool,
}

/// The place in a lane, from one on, of the first source that has not had its turn.
pub open spec fn first_unseen(
    lane: Seq<SourceCandidateModel>,
    seen: Seq<Seq<PartModel>>,
    from: nat,
) -> nat
    decreases lane.len() - from,
{
    if from >= lane.len() {
        lane.len()
    } else if seen.contains(SourceCandidate::parts(lane[from as int])) {
        first_unseen(lane, seen, from + 1)
    } else {
        from
    }
}

/// Whether a source fits behind what was selected.
pub open spec fn fits(
    p: Picked,
    source: SourceCandidateModel,
    max_windows: usize,
    max_bytes: usize,
) -> bool {
    p.windows + source.windows <= max_windows && p.bytes + source.bytes <= max_bytes
}

/// One lane has its turn: the first of its sources that has not had its own is
/// selected where it fits.
pub open spec fn lane_picked(
    lanes: Seq<Seq<SourceCandidateModel>>,
    p: Picked,
    k: int,
    max_windows: usize,
    max_bytes: usize,
) -> Picked {
    let at = first_unseen(lanes[k], p.seen, p.cursors[k]);
    if at >= lanes[k].len() {
        Picked { cursors: p.cursors.update(k, lanes[k].len()), ..p }
    } else {
        let source = lanes[k][at as int];
        let more = Picked {
            cursors: p.cursors.update(k, at + 1),
            seen: p.seen.push(SourceCandidate::parts(source)),
            ..p
        };
        if fits(p, source, max_windows, max_bytes) {
            Picked {
                selected: p.selected.push(source.value),
                windows: p.windows + source.windows as nat,
                bytes: p.bytes + source.bytes as nat,
                ..more
            }
        } else {
            Picked { limited: true, ..more }
        }
    }
}

/// The lanes from one on have their turn.
pub open spec fn lanes_picked(
    lanes: Seq<Seq<SourceCandidateModel>>,
    p: Picked,
    max_windows: usize,
    max_bytes: usize,
    k: int,
) -> Picked
    decreases lanes.len() - k,
{
    if k < 0 || k >= lanes.len() {
        p
    } else {
        lanes_picked(
            lanes,
            lane_picked(lanes, p, k, max_windows, max_bytes),
            max_windows,
            max_bytes,
            k + 1,
        )
    }
}

/// All lanes have a number of turns.
pub open spec fn turns_picked(
    lanes: Seq<Seq<SourceCandidateModel>>,
    p: Picked,
    max_windows: usize,
    max_bytes: usize,
    turns: nat,
) -> Picked
    decreases turns,
{
    if turns == 0 {
        p
    } else {
        turns_picked(
            lanes,
            lanes_picked(lanes, p, max_windows, max_bytes, 0),
            max_windows,
            max_bytes,
            (turns - 1) as nat,
        )
    }
}

/// Whether a window of one of the sources is left out.
pub open spec fn any_truncated(unique: Seq<SourceCandidateModel>) -> bool {
    exists|i: int|
        0 <= i < unique.len() && (#[trigger] unique[i]).value.bool_at("threadTruncated"@) == Some(
            true,
        )
}

/// The start of going through the sources.
pub open spec fn nothing_picked(unique: Seq<SourceCandidateModel>, lanes: nat) -> Picked {
    Picked {
        cursors: Seq::new(lanes, |i: int| 0nat),
        seen: Seq::empty(),
        selected: Seq::empty(),
        windows: 0,
        bytes: 0,
        limited: any_truncated(unique),
    }
}

/// All sources have had their turn, those of each member and compilation in turn.
pub open spec fn all_picked(
    unique: Seq<SourceCandidateModel>,
    max_windows: usize,
    max_bytes: usize,
) -> Picked {
    let lanes = source_lanes(unique);
    turns_picked(
        lanes,
        nothing_picked(unique, lanes.len()),
        max_windows,
        max_bytes,
        longest(lanes, lanes.len()),
    )
}

/// The sources of the members that fit within a number of windows and bytes; the
/// number of all of them; and whether something is left out.
pub open spec fn sources_selected(
    contexts: Seq<MemberContextModel>,
    max_windows: usize,
    max_bytes: usize,
    max_snippet_bytes: usize,
) -> Result<(Seq<JsonModel>, usize, bool), ErrorModel> {
    match all_sources(Seq::empty(), contexts, max_snippet_bytes, 0) {
        Err(e) => Err(e),
        Ok(unique) => {
            let p = all_picked(unique, max_windows, max_bytes);
            Ok((p.selected, unique.len() as usize, p.limited))
        },
    }
}

struct Picking {
    cursors: Vec<usize>,
    seen: Vec<Vec<Part>>,
    selected: Vec<Json>,
    windows: usize,
    bytes: usize,
    limited: bool,
}

impl DeepView for Picking {
    type V = Picked;

    closed spec fn deep_view(&self) -> Picked {
        Picked {
            cursors: Seq::new(self.cursors@.len(), |i: int| self.cursors@[i] as nat),
            seen: self.seen.deep_view(),
            selected: self.selected.deep_view(),
            windows: self.windows as nat,
            bytes: self.bytes as nat,
            limited: self.limited,
        }
    }
}

fn has_parts(seen: &Vec<Vec<Part>>, parts: &Vec<Part>) -> (r: bool)
    ensures
        r == seen.deep_view().contains(parts.deep_view()),
{
    let ghost m = seen.deep_view();
    let mut i: usize = 0;
    while i < seen.len()
        invariant
            i <= seen.len(),
            m == seen.deep_view(),
            forall|k: int| 0 <= k < i ==> #[trigger] m[k] != parts.deep_view(),
        decreases seen.len() - i,
    {
        assert(m[i as int] == seen@[i as int].deep_view());
        if seen[i].same_as(parts) {
            return true;
        }
        i = i + 1;
    }
    false
}

fn next_unseen(lane: &Vec<SourceCandidate>, seen: &Vec<Vec<Part>>, from: usize) -> (r: usize)
    ensures
        r == first_unseen(lane.deep_view(), seen.deep_view(), from as nat),
        r <= lane@.len(),
{
    let ghost m = lane.deep_view();
    let ghost s = seen.deep_view();
    let mut i: usize = from;
    while i < lane.len()
        invariant
            m == lane.deep_view(),
            s == seen.deep_view(),
            first_unseen(m, s, from as nat) == first_unseen(m, s, i as nat),
        decreases lane.len() - i,
    {
        assert(m[i as int] == lane@[i as int].deep_view());
        if !has_parts(seen, &lane[i].to_parts()) {
            return i;
        }
        i = i + 1;
    }
    lane.len()
}

fn pick_from_lane(
    lanes: &Vec<Vec<SourceCandidate>>,
    p: &mut Picking,
    k: usize,
    max_windows: usize,
    max_bytes: usize,
)
    requires
        k < lanes@.len(),
        old(p).cursors@.len() == lanes@.len(),
        old(p).windows <= max_windows,
        old(p).bytes <= max_bytes,
    ensures
        final(p).cursors@.len() == lanes@.len(),
        final(p).windows <= max_windows,
        final(p).bytes <= max_bytes,
        final(p).deep_view() == lane_picked(
            lanes.deep_view(),
            old(p).deep_view(),
            k as int,
            max_windows,
            max_bytes,
        ),
{
    let ghost start = p.deep_view();
    let ghost m = lanes.deep_view();
    assert(m[k as int] == lanes@[k as int].deep_view());
    let lane = &lanes[k];
    let at: usize = next_unseen(lane, &p.seen, p.cursors[k]);
    if at >= lane.len() {
        p.cursors.set(k, lane.len());
        assert(p.deep_view().cursors =~= start.cursors.update(k as int, m[k as int].len()));
        return;
    }
    assert(m[k as int][at as int] == lane@[at as int].deep_view());
    let source = &lane[at];
    let ghost s = source.deep_view();
    p.cursors.set(k, at + 1);
    p.seen.push(source.to_parts());
    assert(p.deep_view().cursors =~= start.cursors.update(k as int, at as nat + 1));
    assert(p.deep_view().seen =~= start.seen.push(SourceCandidate::parts(s)));
    if source.windows <= max_windows - p.windows && source.bytes <= max_bytes - p.bytes {
        p.selected.push(source.value.copied());
        p.windows = p.windows + source.windows;
        p.bytes = p.bytes + source.bytes;
        assert(p.deep_view().selected =~= start.selected.push(s.value));
    } else {
        p.limited = true;
    }
}

fn pick_from_lanes(
    lanes: &Vec<Vec<SourceCandidate>>,
    p: &mut Picking,
    max_windows: usize,
    max_bytes: usize,
)
    requires
        old(p).cursors@.len() == lanes@.len(),
        old(p).windows <= max_windows,
        old(p).bytes <= max_bytes,
    ensures
        final(p).cursors@.len() == lanes@.len(),
        final(p).windows <= max_windows,
        final(p).bytes <= max_bytes,
        final(p).deep_view() == lanes_picked(
            lanes.deep_view(),
            old(p).deep_view(),
            max_windows,
            max_bytes,
            0,
        ),
{
    let ghost m = lanes.deep_view();
    let ghost start = p.deep_view();
    let mut k: usize = 0;
    while k < lanes.len()
        invariant
            k <= lanes.len(),
            m == lanes.deep_view(),
            p.cursors@.len() == lanes@.len(),
            p.windows <= max_windows,
            p.bytes <= max_bytes,
            lanes_picked(m, start, max_windows, max_bytes, 0) == lanes_picked(
                m,
                p.deep_view(),
                max_windows,
                max_bytes,
                k as int,
            ),
        decreases lanes.len() - k,
    {
        pick_from_lane(lanes, p, k, max_windows, max_bytes);
        k = k + 1;
    }
}

fn longest_lane(lanes: &Vec<Vec<SourceCandidate>>) -> (r: usize)
    ensures
        r == longest(lanes.deep_view(), lanes@.len()),
{
    let ghost m = lanes.deep_view();
    let mut r: usize = 0;
    let mut i: usize = 0;
    while i < lanes.len()
        invariant
            i <= lanes.len(),
            m == lanes.deep_view(),
            r == longest(m, i as nat),
        decreases lanes.len() - i,
    {
        assert(m[i as int] == lanes@[i as int].deep_view());
        if lanes[i].len() > r {
            r = lanes[i].len();
        }
        i = i + 1;
    }
    r
}

fn has_truncated(unique: &Vec<SourceCandidate>) -> (r: bool)
    ensures
        r == any_truncated(unique.deep_view()),
{
    let ghost m = unique.deep_view();
    let mut i: usize = 0;
    while i < unique.len()
        invariant
            i <= unique.len(),
            m == unique.deep_view(),
            forall|k: int|
                0 <= k < i ==> (#[trigger] m[k]).value.bool_at("threadTruncated"@) != Some(true),
        decreases unique.len() - i,
    {
        assert(m[i as int] == unique@[i as int].deep_view());
        match unique[i].value.bool_at("threadTruncated") {
            Some(true) => {
                return true;
            },
            _ => {},
        }
        i = i + 1;
    }
    false
}

fn pick_all(unique: &Vec<SourceCandidate>, max_windows: usize, max_bytes: usize) -> (r: Picking)
    ensures
        r.deep_view() == all_picked(unique.deep_view(), max_windows, max_bytes),
{
    let lanes = lanes_of_sources(unique);
    let ghost m = lanes.deep_view();
    let mut cursors: Vec<usize> = Vec::new();
    let mut i: usize = 0;
    while i < lanes.len()
        invariant
            i <= lanes.len(),
            cursors@.len() == i,
            forall|k: int| 0 <= k < i ==> #[trigger] cursors@[k] == 0,
        decreases lanes.len() - i,
    {
        cursors.push(0);
        i = i + 1;
    }
    let mut p = Picking {
        cursors,
        seen: Vec::new(),
        selected: Vec::new(),
        windows: 0,
        bytes: 0,
        limited: has_truncated(unique),
    };
    let ghost start = nothing_picked(unique.deep_view(), m.len());
    assert(p.deep_view().cursors =~= start.cursors);
    assert(p.deep_view().seen =~= start.seen);
    assert(p.deep_view().selected =~= start.selected);
    let turns: usize = longest_lane(&lanes);
    let mut turn: usize = 0;
    while turn < turns
        invariant
            turn <= turns,
            m == lanes.deep_view(),
            p.cursors@.len() == lanes@.len(),
            p.windows <= max_windows,
            p.bytes <= max_bytes,
            turns_picked(m, start, max_windows, max_bytes, turns as nat) == turns_picked(
                m,
                p.deep_view(),
                max_windows,
                max_bytes,
                (turns - turn) as nat,
            ),
        decreases turns - turn,
    {
        pick_from_lanes(&lanes, &mut p, max_windows, max_bytes);
        turn = turn + 1;
    }
    p
}

/// Selects sources of the members.
pub fn select_sources(
    contexts: &Vec<MemberContext>,
    max_windows: usize,
    max_bytes: usize,
    max_snippet_bytes: usize,
) -> (r: Result<(Vec<Json>, usize, bool), ClewError>)
    ensures
        outcome(r) == sources_selected(
            contexts.deep_view(),
            max_windows,
            max_bytes,
            max_snippet_bytes,
        ),
{
    let unique = collect_sources(contexts, max_snippet_bytes)?;
    let p = pick_all(&unique, max_windows, max_bytes);
    Ok((p.selected, unique.len(), p.limited))
}

/// Whether what was selected keeps within a number of windows and bytes, stands for
/// as much, and leaves out nothing in silence.
pub open spec fn keeps_within(
    p: Picked,
    max_windows: usize,
    max_bytes: usize,
    lanes: Seq<Seq<SourceCandidateModel>>,
) -> bool {
    &&& p.windows <= max_windows
    &&& p.bytes <= max_bytes
    &&& p.cursors.len() == lanes.len()
    &&& p.selected.len() <= p.seen.len()
    &&& !p.limited ==> p.selected.len() == p.seen.len()
    &&& p.seen.no_duplicates()
    &&& forall|k: int, i: int|
        0 <= k < lanes.len() && 0 <= i < (#[trigger] p.cursors[k]) && i < lanes[k].len()
            ==> p.seen.contains(SourceCandidate::parts(#[trigger] lanes[k][i]))
}

proof fn unseen_is_behind(lane: Seq<SourceCandidateModel>, seen: Seq<Seq<PartModel>>, from: nat)
    ensures
        from <= first_unseen(lane, seen, from) || first_unseen(lane, seen, from) == lane.len(),
        first_unseen(lane, seen, from) <= lane.len(),
        forall|i: int|
            from <= i < first_unseen(lane, seen, from) ==> seen.contains(
                SourceCandidate::parts(#[trigger] lane[i]),
            ),
        first_unseen(lane, seen, from) < lane.len() ==> !seen.contains(
            SourceCandidate::parts(lane[first_unseen(lane, seen, from) as int]),
        ),
    decreases lane.len() - from,
{
    if from < lane.len() && seen.contains(SourceCandidate::parts(lane[from as int])) {
        unseen_is_behind(lane, seen, from + 1);
    }
}

proof fn lane_keeps_within(
    lanes: Seq<Seq<SourceCandidateModel>>,
    p: Picked,
    k: int,
    max_windows: usize,
    max_bytes: usize,
)
    requires
        0 <= k < lanes.len(),
        keeps_within(p, max_windows, max_bytes, lanes),
    ensures
        keeps_within(
            lane_picked(lanes, p, k, max_windows, max_bytes),
            max_windows,
            max_bytes,
            lanes,
        ),
        ({
            let q = lane_picked(lanes, p, k, max_windows, max_bytes);
            &&& q.cursors[k] > p.cursors[k] || q.cursors[k] >= lanes[k].len()
            &&& forall|j: int|
                0 <= j < lanes.len() && j != k ==> #[trigger] q.cursors[j] == p.cursors[j]
        }),
{
    let q = lane_picked(lanes, p, k, max_windows, max_bytes);
    let at = first_unseen(lanes[k], p.seen, p.cursors[k]);
    unseen_is_behind(lanes[k], p.seen, p.cursors[k]);
    assert forall|x: Seq<PartModel>| #[trigger] p.seen.contains(x) implies q.seen.contains(x) by {
        let i = choose|i: int| 0 <= i < p.seen.len() && p.seen[i] == x;
        assert(q.seen[i] == x);
    }
    if at < lanes[k].len() {
        assert(q.seen[p.seen.len() as int] == SourceCandidate::parts(lanes[k][at as int]));
    }
    assert forall|j: int, i: int|
        0 <= j < lanes.len() && 0 <= i < (#[trigger] q.cursors[j]) && i
            < lanes[j].len() implies q.seen.contains(
        SourceCandidate::parts(#[trigger] lanes[j][i]),
    ) by {
        if j != k {
            assert(p.cursors[j] == q.cursors[j]);
            assert(p.seen.contains(SourceCandidate::parts(lanes[j][i])));
        } else if i < p.cursors[k] {
            assert(p.seen.contains(SourceCandidate::parts(lanes[k][i])));
        } else if i < at {
            assert(p.seen.contains(SourceCandidate::parts(lanes[k][i])));
        }
    }
    assert(q.seen.no_duplicates()) by {
        assert forall|a: int, b: int|
            0 <= a < q.seen.len() && 0 <= b < q.seen.len() && a != b implies q.seen[a]
            != q.seen[b] by {
            if q.seen[a] == q.seen[b] && (a == p.seen.len() || b == p.seen.len()) {
                let c = if a == p.seen.len() {
                    b
                } else {
                    a
                };
                assert(p.seen[c] == SourceCandidate::parts(lanes[k][at as int]));
                assert(p.seen.contains(SourceCandidate::parts(lanes[k][at as int])));
            }
        }
    }
}

proof fn lanes_keep_within(
    lanes: Seq<Seq<SourceCandidateModel>>,
    p: Picked,
    max_windows: usize,
    max_bytes: usize,
    k: int,
)
    requires
        0 <= k <= lanes.len(),
        keeps_within(p, max_windows, max_bytes, lanes),
    ensures
        ({
            let q = lanes_picked(lanes, p, max_windows, max_bytes, k);
            &&& keeps_within(q, max_windows, max_bytes, lanes)
            &&& forall|j: int|
                k <= j < lanes.len() ==> (#[trigger] q.cursors[j]) > p.cursors[j] || q.cursors[j]
                    >= lanes[j].len()
            &&& forall|j: int| 0 <= j < k ==> #[trigger] q.cursors[j] == p.cursors[j]
        }),
    decreases lanes.len() - k,
{
    if k < lanes.len() {
        let next = lane_picked(lanes, p, k, max_windows, max_bytes);
        lane_keeps_within(lanes, p, k, max_windows, max_bytes);
        lanes_keep_within(lanes, next, max_windows, max_bytes, k + 1);
    }
}

proof fn turns_keep_within(
    lanes: Seq<Seq<SourceCandidateModel>>,
    p: Picked,
    max_windows: usize,
    max_bytes: usize,
    done: nat,
    turns: nat,
)
    requires
        keeps_within(p, max_windows, max_bytes, lanes),
        forall|j: int|
            0 <= j < lanes.len() ==> (#[trigger] p.cursors[j]) >= done || p.cursors[j]
                >= lanes[j].len(),
    ensures
        ({
            let q = turns_picked(lanes, p, max_windows, max_bytes, turns);
            &&& keeps_within(q, max_windows, max_bytes, lanes)
            &&& forall|j: int|
                0 <= j < lanes.len() ==> (#[trigger] q.cursors[j]) >= done + turns || q.cursors[j]
                    >= lanes[j].len()
        }),
    decreases turns,
{
    if turns > 0 {
        let next = lanes_picked(lanes, p, max_windows, max_bytes, 0);
        lanes_keep_within(lanes, p, max_windows, max_bytes, 0);
        assert forall|j: int| 0 <= j < lanes.len() implies (#[trigger] next.cursors[j]) >= done + 1
            || next.cursors[j] >= lanes[j].len() by {
            assert(next.cursors[j] > p.cursors[j] || next.cursors[j] >= lanes[j].len());
        }
        turns_keep_within(lanes, next, max_windows, max_bytes, done + 1, (turns - 1) as nat);
    }
}

/// The sources that are selected keep within the number of windows and bytes, and
/// every source of every lane has its turn once: where nothing is said to be left out,
/// all were selected.
pub proof fn every_source_has_its_turn(
    unique: Seq<SourceCandidateModel>,
    max_windows: usize,
    max_bytes: usize,
)
    ensures
        ({
            let p = all_picked(unique, max_windows, max_bytes);
            let lanes = source_lanes(unique);
            &&& p.windows <= max_windows
            &&& p.bytes <= max_bytes
            &&& p.seen.no_duplicates()
            &&& p.selected.len() <= p.seen.len()
            &&& !p.limited ==> p.selected.len() == p.seen.len()
            &&& forall|k: int, i: int|
                0 <= k < lanes.len() && 0 <= i < lanes[k].len() ==> p.seen.contains(
                    SourceCandidate::parts(#[trigger] lanes[k][i]),
                )
        }),
{
    let lanes = source_lanes(unique);
    let start = nothing_picked(unique, lanes.len());
    let turns = longest(lanes, lanes.len());
    turns_keep_within(lanes, start, max_windows, max_bytes, 0, turns);
    let p = all_picked(unique, max_windows, max_bytes);
    assert forall|k: int, i: int| 0 <= k < lanes.len() && 0 <= i < lanes[k].len() implies
        p.seen.contains(SourceCandidate::parts(#[trigger] lanes[k][i])) by {
        crate::fair::lane_within_longest(lanes, k, lanes.len());
        assert(p.cursors[k] >= lanes[k].len());
    }
}

/// A row of a member, with one more member.
#[verifier::opaque]
pub open spec fn member_row(c: MemberContextModel, key: Seq<char>, value: JsonModel) -> JsonModel {
    JsonModel::object().with("memberAlias"@, JsonModel::Str(c.member.member_alias)).with(
        "serviceAlias"@,
        JsonModel::Str(c.member.service_alias),
    ).with("sessionId"@, JsonModel::Str(c.member.session.session_id)).with(
        "contextId"@,
        JsonModel::Str(c.context.context_id),
    ).with(key, value)
}

fn row_of_member(c: &MemberContext, key: &str, value: Json) -> (r: Json)
    ensures
        r.deep_view() == member_row(c.deep_view(), key@, value.deep_view()),
{
    proof {
        reveal(member_row);
    }
    Json::object().with("memberAlias", Json::Str(c.member.member_alias.clone())).with(
        "serviceAlias",
        Json::Str(c.member.service_alias.clone()),
    ).with("sessionId", Json::Str(c.member.session.session_id.clone())).with(
        "contextId",
        Json::Str(c.context.context_id.clone()),
    ).with(key, value)
}

/// The obligations that a member has.
pub open spec fn obligations_of(evidence: JsonModel) -> Option<Seq<JsonModel>> {
    match evidence.get("context"@) {
        Some(context) => context.array_at("verificationObligations"@),
        None => None,
    }
}

/// The rows of the obligations of a member.
pub open spec fn obligation_rows(c: MemberContextModel, obligations: Seq<JsonModel>) -> Seq<
    JsonModel,
> {
    Seq::new(obligations.len(), |i: int| member_row(c, "obligation"@, obligations[i]))
}

/// The rows of the obligations of the members from one on, behind some.
pub open spec fn obligations_collected(
    before: Seq<JsonModel>,
    contexts: Seq<MemberContextModel>,
    i: int,
) -> Result<Seq<JsonModel>, ErrorModel>
    decreases contexts.len() - i,
{
    if i < 0 || i >= contexts.len() {
        Ok(before)
    } else {
        match obligations_of(contexts[i].context.evidence) {
            None => refused("member context obligations are invalid"@),
            Some(obligations) => obligations_collected(
                before + obligation_rows(contexts[i], obligations),
                contexts,
                i + 1,
            ),
        }
    }
}

fn add_obligations(rows: &mut Vec<Json>, c: &MemberContext, obligations: &Vec<Json>)
    ensures
        final(rows).deep_view() == old(rows).deep_view() + obligation_rows(
            c.deep_view(),
            obligations.deep_view(),
        ),
{
    let ghost start = rows.deep_view();
    let ghost m = obligations.deep_view();
    let ghost all = obligation_rows(c.deep_view(), m);
    let mut i: usize = 0;
    while i < obligations.len()
        invariant
            i <= obligations.len(),
            m == obligations.deep_view(),
            all == obligation_rows(c.deep_view(), m),
            rows.deep_view() =~= start + all.take(i as int),
        decreases obligations.len() - i,
    {
        assert(m[i as int] == obligations@[i as int].deep_view());
        let ghost before = rows.deep_view();
        let row = row_of_member(c, "obligation", obligations[i].copied());
        rows.push(row);
        assert(rows.deep_view() =~= before.push(row.deep_view()));
        i = i + 1;
    }
    assert(rows.deep_view() =~= start + all);
}

fn collect_obligations(contexts: &Vec<MemberContext>) -> (r: Result<Vec<Json>, ClewError>)
    ensures
        outcome(r) == obligations_collected(Seq::empty(), contexts.deep_view(), 0),
{
    let ghost m = contexts.deep_view();
    let mut rows: Vec<Json> = Vec::new();
    let mut i: usize = 0;
    assert(rows.deep_view() =~= Seq::empty());
    while i < contexts.len()
        invariant
            i <= contexts.len(),
            m == contexts.deep_view(),
            obligations_collected(Seq::empty(), m, 0) == obligations_collected(
                rows.deep_view(),
                m,
                i as int,
            ),
        decreases contexts.len() - i,
    {
        assert(m[i as int] == contexts@[i as int].deep_view());
        let obligations = match contexts[i].context.evidence.get("context") {
            Some(context) => context.array_at("verificationObligations"),
            None => None,
        };
        match obligations {
            Some(obligations) => {
                add_obligations(&mut rows, &contexts[i], obligations);
            },
            None => {
                return Err(invalid("member context obligations are invalid"));
            },
        }
        i = i + 1;
    }
    Ok(rows)
}

/// How complete a member says that its context is.
pub open spec fn completeness_of(evidence: JsonModel) -> Option<JsonModel> {
    match evidence.get("context"@) {
        Some(context) => context.get("completeness"@),
        None => None,
    }
}

/// How complete the contexts of the members from one on are, behind some.
pub open spec fn completeness_collected(
    before: Seq<JsonModel>,
    contexts: Seq<MemberContextModel>,
    i: int,
) -> Result<Seq<JsonModel>, ErrorModel>
    decreases contexts.len() - i,
{
    if i < 0 || i >= contexts.len() {
        Ok(before)
    } else {
        match completeness_of(contexts[i].context.evidence) {
            None => refused("member context completeness is missing"@),
            Some(completeness) => completeness_collected(
                before.push(member_row(contexts[i], "completeness"@, completeness)),
                contexts,
                i + 1,
            ),
        }
    }
}

fn collect_member_completeness(contexts: &Vec<MemberContext>) -> (r: Result<Vec<Json>, ClewError>)
    ensures
        outcome(r) == completeness_collected(Seq::empty(), contexts.deep_view(), 0),
{
    let ghost m = contexts.deep_view();
    let mut rows: Vec<Json> = Vec::new();
    let mut i: usize = 0;
    assert(rows.deep_view() =~= Seq::empty());
    while i < contexts.len()
        invariant
            i <= contexts.len(),
            m == contexts.deep_view(),
            completeness_collected(Seq::empty(), m, 0) == completeness_collected(
                rows.deep_view(),
                m,
                i as int,
            ),
        decreases contexts.len() - i,
    {
        assert(m[i as int] == contexts@[i as int].deep_view());
        let completeness = match contexts[i].context.evidence.get("context") {
            Some(context) => context.get("completeness"),
            None => None,
        };
        match completeness {
            Some(completeness) => {
                let ghost before = rows.deep_view();
                let row = row_of_member(&contexts[i], "completeness", completeness.copied());
                rows.push(row);
                assert(rows.deep_view() =~= before.push(row.deep_view()));
            },
            None => {
                return Err(invalid("member context completeness is missing"));
            },
        }
        i = i + 1;
    }
    Ok(rows)
}

/// What the rows of the members say together.
pub struct Completeness {
    pub any_incomplete: bool,
    pub any_conditional: bool,
    pub all_verified: bool,
    pub all_supported: bool,
    pub all_query_complete: bool,
    pub unmatched_terms: Seq<Seq<char>>,
}

/// The terms with those of one member from one on.
pub open spec fn terms_entered(terms: Seq<Seq<char>>, items: Seq<JsonModel>, i: int) -> Result<
    Seq<Seq<char>>,
    ErrorModel,
>
    decreases items.len() - i,
{
    if i < 0 || i >= items.len() {
        Ok(terms)
    } else {
        match items[i].as_str() {
            None => refused("member completeness unmatched term is invalid"@),
            Some(term) => terms_entered(entered::<String>(terms, term), items, i + 1),
        }
    }
}

/// Whether a text is one of two, and if so whether it is the first.
pub open spec fn one_of(value: Option<Seq<char>>, first: Seq<char>, second: Seq<char>) -> Option<
    bool,
> {
    match value {
        Some(text) => if text == first {
            Some(true)
        } else if text == second {
            Some(false)
        } else {
            None
        },
        None => None,
    }
}

/// What the rows say together with one more.
pub open spec fn row_counted(a: Completeness, row: JsonModel) -> Result<Completeness, ErrorModel> {
    match row.get("completeness"@) {
        None => refused("member completeness row is invalid"@),
        Some(c) => {
            let status = c.str_at("status"@);
            let known = status == Some("INCOMPLETE"@) || status == Some("CONDITIONAL_TASK"@)
                || status == Some("COMPLETE_TASK"@);
            let verified = one_of(c.str_at("certainty"@), "VERIFIED"@, "UNSURE"@);
            let supported = one_of(c.str_at("support"@), "SUPPORTED"@, "UNSUPPORTED"@);
            let query_complete = one_of(c.str_at("coverage"@), "QUERY_COMPLETE"@, "PARTIAL"@);
            if !known {
                refused("member completeness status is invalid"@)
            } else if verified is None {
                refused("member completeness certainty is invalid"@)
            } else if supported is None {
                refused("member completeness support is invalid"@)
            } else if query_complete is None {
                refused("member completeness coverage is invalid"@)
            } else {
                match c.array_at("unmatchedTerms"@) {
                    None => refused("member completeness unmatched terms are invalid"@),
                    Some(items) => match terms_entered(a.unmatched_terms, items, 0) {
                        Err(e) => Err(e),
                        Ok(terms) => Ok(
                            Completeness {
                                any_incomplete: a.any_incomplete || status == Some("INCOMPLETE"@),
                                any_conditional: a.any_conditional || status
                                    == Some("CONDITIONAL_TASK"@),
                                all_verified: a.all_verified && verified == Some(true),
                                all_supported: a.all_supported && supported == Some(true),
                                all_query_complete: a.all_query_complete && query_complete
                                    == Some(true),
                                unmatched_terms: terms,
                            },
                        ),
                    },
                }
            }
        },
    }
}

/// What the rows from one on say together, with what others say.
pub open spec fn rows_counted(a: Completeness, rows: Seq<JsonModel>, i: int) -> Result<
    Completeness,
    ErrorModel,
>
    decreases rows.len() - i,
{
    if i < 0 || i >= rows.len() {
        Ok(a)
    } else {
        match row_counted(a, rows[i]) {
            Err(e) => Err(e),
            Ok(more) => rows_counted(more, rows, i + 1),
        }
    }
}

/// What no rows say together.
pub open spec fn no_rows() -> Completeness {
    Completeness {
        any_incomplete: false,
        any_conditional: false,
        all_verified: true,
        all_supported: true,
        all_query_complete: true,
        unmatched_terms: Seq::empty(),
    }
}

/// The status of a task.
pub open spec fn status_of(a: Completeness, truncated: bool) -> Seq<char> {
    if a.any_incomplete {
        "INCOMPLETE"@
    } else if a.any_conditional || truncated || !a.all_supported || !a.all_query_complete
        || !a.all_verified {
        "CONDITIONAL_TASK"@
    } else {
        "COMPLETE_TASK"@
    }
}

/// The certainty of a task.
pub open spec fn certainty_of(a: Completeness, truncated: bool) -> Seq<char> {
    if a.all_verified && a.all_supported && a.all_query_complete && !truncated {
        "VERIFIED"@
    } else {
        "UNSURE"@
    }
}

/// How complete a thread context is, from what its members say together.
#[verifier::opaque]
pub open spec fn completeness_said(a: Completeness, truncated: bool, count: nat) -> JsonModel {
    JsonModel::object().with("status"@, JsonModel::Str(status_of(a, truncated))).with(
        "support"@,
        JsonModel::Str(
            if a.all_supported {
                "SUPPORTED"@
            } else {
                "UNSUPPORTED"@
            },
        ),
    ).with("certainty"@, JsonModel::Str(certainty_of(a, truncated))).with(
        "coverage"@,
        JsonModel::Str(
            if a.all_query_complete && !truncated {
                "QUERY_COMPLETE"@
            } else {
                "PARTIAL"@
            },
        ),
    ).with("unmatchedTerms"@, <Vec<String> as Record>::json(a.unmatched_terms)).with(
        "memberCount"@,
        JsonModel::Uint(count as u64),
    )
}

/// How complete a thread context is.
pub open spec fn completeness_aggregated(rows: Seq<JsonModel>, truncated: bool) -> Result<
    JsonModel,
    ErrorModel,
> {
    match rows_counted(no_rows(), rows, 0) {
        Err(e) => Err(e),
        Ok(a) => Ok(completeness_said(a, truncated, rows.len())),
    }
}

struct Counted {
    any_incomplete: bool,
    any_conditional: bool,
    all_verified: bool,
    all_supported: bool,
    all_query_complete: bool,
    unmatched_terms: Vec<String>,
}

impl DeepView for Counted {
    type V = Completeness;

    closed spec fn deep_view(&self) -> Completeness {
        Completeness {
            any_incomplete: self.any_incomplete,
            any_conditional: self.any_conditional,
            all_verified: self.all_verified,
            all_supported: self.all_supported,
            all_query_complete: self.all_query_complete,
            unmatched_terms: self.unmatched_terms.deep_view(),
        }
    }
}

fn enter_terms(terms: &mut Vec<String>, items: &Vec<Json>) -> (r: Result<(), ClewError>)
    ensures
        match terms_entered(old(terms).deep_view(), items.deep_view(), 0) {
            Ok(after) => r is Ok && final(terms).deep_view() == after,
            Err(e) => r is Err && r->Err_0.deep_view() == e,
        },
{
    let ghost m = items.deep_view();
    let mut i: usize = 0;
    while i < items.len()
        invariant
            i <= items.len(),
            m == items.deep_view(),
            terms_entered(old(terms).deep_view(), m, 0) == terms_entered(
                terms.deep_view(),
                m,
                i as int,
            ),
        decreases items.len() - i,
    {
        assert(m[i as int] == items@[i as int].deep_view());
        match items[i].as_str() {
            Some(term) => {
                enter(terms, term.clone());
            },
            None => {
                return Err(invalid("member completeness unmatched term is invalid"));
            },
        }
        i = i + 1;
    }
    Ok(())
}

fn choose_of(value: Option<&String>, first: &str, second: &str) -> (r: Option<bool>)
    ensures
        r == one_of(value.deep_view(), first@, second@),
{
    match value {
        Some(text) => if same_text(text.as_str(), first) {
            Some(true)
        } else if same_text(text.as_str(), second) {
            Some(false)
        } else {
            None
        },
        None => None,
    }
}

fn says(value: Option<&String>, text: &str) -> (r: bool)
    ensures
        r == (value.deep_view() == Some(text@)),
{
    match value {
        Some(value) => same_text(value.as_str(), text),
        None => false,
    }
}

fn count_row(a: &mut Counted, row: &Json) -> (r: Result<(), ClewError>)
    ensures
        match row_counted(old(a).deep_view(), row.deep_view()) {
            Ok(after) => r is Ok && final(a).deep_view() == after,
            Err(e) => r is Err && r->Err_0.deep_view() == e,
        },
{
    let c = match row.get("completeness") {
        Some(c) => c,
        None => {
            return Err(invalid("member completeness row is invalid"));
        },
    };
    let status = c.str_at("status");
    let incomplete = says(status, "INCOMPLETE");
    let conditional = says(status, "CONDITIONAL_TASK");
    if !incomplete && !conditional && !says(status, "COMPLETE_TASK") {
        return Err(invalid("member completeness status is invalid"));
    }
    let verified = match choose_of(c.str_at("certainty"), "VERIFIED", "UNSURE") {
        Some(verified) => verified,
        None => {
            return Err(invalid("member completeness certainty is invalid"));
        },
    };
    let supported = match choose_of(c.str_at("support"), "SUPPORTED", "UNSUPPORTED") {
        Some(supported) => supported,
        None => {
            return Err(invalid("member completeness support is invalid"));
        },
    };
    let query_complete = match choose_of(c.str_at("coverage"), "QUERY_COMPLETE", "PARTIAL") {
        Some(query_complete) => query_complete,
        None => {
            return Err(invalid("member completeness coverage is invalid"));
        },
    };
    let items = match c.array_at("unmatchedTerms") {
        Some(items) => items,
        None => {
            return Err(invalid("member completeness unmatched terms are invalid"));
        },
    };
    enter_terms(&mut a.unmatched_terms, items)?;
    a.any_incomplete = a.any_incomplete || incomplete;
    a.any_conditional = a.any_conditional || conditional;
    a.all_verified = a.all_verified && verified;
    a.all_supported = a.all_supported && supported;
    a.all_query_complete = a.all_query_complete && query_complete;
    Ok(())
}

fn count_rows(rows: &Vec<Json>) -> (r: Result<Counted, ClewError>)
    ensures
        outcome(r) == rows_counted(no_rows(), rows.deep_view(), 0),
{
    let ghost m = rows.deep_view();
    let mut a = Counted {
        any_incomplete: false,
        any_conditional: false,
        all_verified: true,
        all_supported: true,
        all_query_complete: true,
        unmatched_terms: Vec::new(),
    };
    let mut i: usize = 0;
    assert(a.deep_view().unmatched_terms =~= Seq::empty());
    while i < rows.len()
        invariant
            i <= rows.len(),
            m == rows.deep_view(),
            rows_counted(no_rows(), m, 0) == rows_counted(a.deep_view(), m, i as int),
        decreases rows.len() - i,
    {
        assert(m[i as int] == rows@[i as int].deep_view());
        count_row(&mut a, &rows[i])?;
        i = i + 1;
    }
    Ok(a)
}

/// Says how complete a thread context is.
pub fn aggregate_completeness(rows: &Vec<Json>, truncated: bool) -> (r: Result<Json, ClewError>)
    ensures
        outcome(r) == completeness_aggregated(rows.deep_view(), truncated),
{
    proof {
        reveal(completeness_said);
    }
    let a = count_rows(rows)?;
    let status = if a.any_incomplete {
        "INCOMPLETE"
    } else if a.any_conditional || truncated || !a.all_supported || !a.all_query_complete
        || !a.all_verified {
        "CONDITIONAL_TASK"
    } else {
        "COMPLETE_TASK"
    };
    let support = if a.all_supported {
        "SUPPORTED"
    } else {
        "UNSUPPORTED"
    };
    let certainty = if a.all_verified && a.all_supported && a.all_query_complete && !truncated {
        "VERIFIED"
    } else {
        "UNSURE"
    };
    let coverage = if a.all_query_complete && !truncated {
        "QUERY_COMPLETE"
    } else {
        "PARTIAL"
    };
    Ok(
        Json::object().with("status", Json::Str(status.to_owned())).with(
            "support",
            Json::Str(support.to_owned()),
        ).with("certainty", Json::Str(certainty.to_owned())).with(
            "coverage",
            Json::Str(coverage.to_owned()),
        ).with("unmatchedTerms", a.unmatched_terms.to_json()).with(
            "memberCount",
            Json::Uint(rows.len() as u64),
        ),
    )
}

/// Whether a row says that its member is done, sure, supported and complete.
pub open spec fn is_full(row: JsonModel) -> bool {
    match row.get("completeness"@) {
        Some(c) => c.str_at("certainty"@) == Some("VERIFIED"@) && c.str_at("support"@) == Some(
            "SUPPORTED"@,
        ) && c.str_at("coverage"@) == Some("QUERY_COMPLETE"@),
        None => false,
    }
}

/// Whether a row says that its member could not finish.
pub open spec fn is_incomplete(row: JsonModel) -> bool {
    match row.get("completeness"@) {
        Some(c) => c.str_at("status"@) == Some("INCOMPLETE"@),
        None => false,
    }
}

/// Whether a row says that its member finished without conditions.
pub open spec fn is_unconditional(row: JsonModel) -> bool {
    match row.get("completeness"@) {
        Some(c) => c.str_at("status"@) == Some("COMPLETE_TASK"@),
        None => false,
    }
}

proof fn rows_say(a: Completeness, rows: Seq<JsonModel>, i: int)
    requires
        0 <= i,
        rows_counted(a, rows, i) is Ok,
    ensures
        ({
            let t = rows_counted(a, rows, i)->Ok_0;
            &&& (t.all_verified && t.all_supported && t.all_query_complete) == (a.all_verified
                && a.all_supported && a.all_query_complete && forall|k: int|
                i <= k < rows.len() ==> is_full(#[trigger] rows[k]))
            &&& t.any_incomplete == (a.any_incomplete || exists|k: int|
                i <= k < rows.len() && is_incomplete(#[trigger] rows[k]))
            &&& (!t.any_incomplete && !t.any_conditional) ==> forall|k: int|
                i <= k < rows.len() ==> is_unconditional(#[trigger] rows[k])
            &&& a.any_conditional ==> t.any_conditional
        }),
    decreases rows.len() - i,
{
    if i < rows.len() {
        let more = row_counted(a, rows[i])->Ok_0;
        rows_say(more, rows, i + 1);
        reveal_strlit("VERIFIED");
        reveal_strlit("UNSURE");
        reveal_strlit("SUPPORTED");
        reveal_strlit("UNSUPPORTED");
        reveal_strlit("QUERY_COMPLETE");
        reveal_strlit("PARTIAL");
        assert(is_full(rows[i]) == ((more.all_verified || !a.all_verified) && (more.all_supported
            || !a.all_supported) && (more.all_query_complete || !a.all_query_complete)) || !(
        a.all_verified && a.all_supported && a.all_query_complete));
    }
}

/// Putting contexts together never makes anything more certain than its members do:
/// it is verified exactly where every member is verified, supported and complete and
/// nothing is left out; it is incomplete exactly where a member is; and a complete
/// task has members with complete tasks only, and nothing left out.
pub proof fn certainty_is_not_upgraded(rows: Seq<JsonModel>, truncated: bool)
    requires
        rows_counted(no_rows(), rows, 0) is Ok,
    ensures
        ({
            let a = rows_counted(no_rows(), rows, 0)->Ok_0;
            &&& certainty_of(a, truncated) == "VERIFIED"@ <==> !truncated && forall|k: int|
                0 <= k < rows.len() ==> is_full(#[trigger] rows[k])
            &&& status_of(a, truncated) == "INCOMPLETE"@ <==> exists|k: int|
                0 <= k < rows.len() && is_incomplete(#[trigger] rows[k])
            &&& status_of(a, truncated) == "COMPLETE_TASK"@ ==> !truncated && forall|k: int|
                0 <= k < rows.len() ==> is_unconditional(#[trigger] rows[k]) && is_full(rows[k])
        }),
{
    rows_say(no_rows(), rows, 0);
    reveal_strlit("VERIFIED");
    reveal_strlit("UNSURE");
    reveal_strlit("INCOMPLETE");
    reveal_strlit("CONDITIONAL_TASK");
    reveal_strlit("COMPLETE_TASK");
    assert("VERIFIED"@.len() != "UNSURE"@.len());
    assert("INCOMPLETE"@.len() != "CONDITIONAL_TASK"@.len());
    assert("INCOMPLETE"@.len() != "COMPLETE_TASK"@.len());
    assert("CONDITIONAL_TASK"@.len() != "COMPLETE_TASK"@.len());
    let a = rows_counted(no_rows(), rows, 0)->Ok_0;
    assert(certainty_of(a, truncated) == "VERIFIED"@ <==> a.all_verified && a.all_supported
        && a.all_query_complete && !truncated);
    assert(status_of(a, truncated) == "INCOMPLETE"@ <==> a.any_incomplete);
}

/// The digest that binds the parts of a context which do not rest on its evidence.
#[verifier::opaque]
pub open spec fn binding_digest_of(a: ThreadContextAuthorityModel) -> Seq<char> {
    json_digest(
        JsonModel::object().with(
            "schema"@,
            JsonModel::Str("codeclew-thread-context-binding/1.0"@),
        ).with("threadId"@, JsonModel::Str(a.thread_id)).with(
            "threadAuthorityDigest"@,
            JsonModel::Str(a.thread_authority_digest),
        ).with("intent"@, JsonModel::Str(a.intent)).with(
            "terms"@,
            <Vec<String> as Record>::json(a.terms),
        ).with("budgets"@, <ThreadContextBudgets as Record>::json(a.budgets)).with(
            "members"@,
            <Vec<ThreadMemberContextBinding> as Record>::json(a.members),
        ),
    )
}

fn binding_digest(a: &ThreadContextAuthority) -> (r: String)
    ensures
        r@ == binding_digest_of(a.deep_view()),
        is_digest(r@),
{
    proof {
        reveal(binding_digest_of);
    }
    hash(
        &Json::object().with(
            "schema",
            Json::Str("codeclew-thread-context-binding/1.0".to_owned()),
        ).with("threadId", Json::Str(a.thread_id.clone())).with(
            "threadAuthorityDigest",
            Json::Str(a.thread_authority_digest.clone()),
        ).with("intent", Json::Str(a.intent.clone())).with("terms", a.terms.to_json()).with(
            "budgets",
            a.budgets.to_json(),
        ).with("members", a.members.to_json()),
    )
}

/// The digest of an authority: of its bytes, with no digest in them.
#[verifier::opaque]
pub open spec fn authority_digest_of(a: ThreadContextAuthorityModel) -> Seq<char> {
    json_digest(
        <ThreadContextAuthority as Record>::json(
            ThreadContextAuthorityModel { authority_digest: Seq::empty(), ..a },
        ),
    )
}

fn authority_digest(a: &ThreadContextAuthority) -> (r: String)
    ensures
        r@ == authority_digest_of(a.deep_view()),
        is_digest(r@),
{
    proof {
        reveal(authority_digest_of);
    }
    let mut unsigned = a.copied();
    unsigned.authority_digest = String::new();
    assert(unsigned.authority_digest@ =~= Seq::empty());
    hash(&unsigned.to_json())
}

/// The counts of a selection.
#[verifier::opaque]
pub open spec fn selection_said(
    all_match_count: usize,
    matches: nat,
    all_source_count: usize,
    sources: nat,
    truncated: bool,
) -> JsonModel {
    JsonModel::object().with("availableFacts"@, JsonModel::Uint(all_match_count as u64)).with(
        "selectedFacts"@,
        JsonModel::Uint(matches as u64),
    ).with("availableSources"@, JsonModel::Uint(all_source_count as u64)).with(
        "selectedSources"@,
        JsonModel::Uint(sources as u64),
    ).with("truncated"@, JsonModel::Bool(truncated))
}

/// What a context may be used for: reading.
#[verifier::opaque]
pub open spec fn policy_said() -> JsonModel {
    JsonModel::object().with("mode"@, JsonModel::Str("READ_ONLY"@)).with(
        "status"@,
        JsonModel::Str("NOT_APPLICABLE"@),
    ).with("automaticPublication"@, JsonModel::Bool(false))
}

/// The evidence of a context that does not depend on what is selected.
#[verifier::opaque]
pub open spec fn evidence_base(
    thread: ThreadAuthorityModel,
    a: ThreadContextAuthorityModel,
) -> JsonModel {
    JsonModel::object().with("schema"@, JsonModel::Str(THREAD_CONTEXT_EVIDENCE_SCHEMA@)).with(
        "threadId"@,
        JsonModel::Str(thread.thread_id),
    ).with("threadAuthorityDigest"@, JsonModel::Str(thread.authority_digest)).with(
        "threadContextBindingDigest"@,
        JsonModel::Str(a.binding_digest),
    ).with(
        "task"@,
        JsonModel::object().with("intent"@, JsonModel::Str(a.intent)).with(
            "terms"@,
            <Vec<String> as Record>::json(a.terms),
        ),
    ).with("budgets"@, <ThreadContextBudgets as Record>::json(a.budgets)).with(
        "members"@,
        <Vec<ThreadMemberContextBinding> as Record>::json(a.members),
    )
}

/// What evidence is made of, besides what is selected.
pub struct EvidenceParts {
    pub base: JsonModel,
    pub all_match_count: usize,
    pub all_source_count: usize,
    pub obligations: Seq<JsonModel>,
    pub member_completeness: Seq<JsonModel>,
}

/// The evidence with some facts and sources selected.
pub open spec fn evidence_said(
    e: EvidenceParts,
    matches: Seq<JsonModel>,
    sources: Seq<JsonModel>,
    truncated: bool,
) -> Result<JsonModel, ErrorModel> {
    match completeness_aggregated(e.member_completeness, truncated) {
        Err(error) => Err(error),
        Ok(completeness) => Ok(
            e.base.with("matches"@, JsonModel::Arr(matches)).with(
                "sources"@,
                JsonModel::Arr(sources),
            ).with("memberCompleteness"@, JsonModel::Arr(e.member_completeness)).with(
                "verificationObligations"@,
                JsonModel::Arr(e.obligations),
            ).with(
                "selection"@,
                selection_said(
                    e.all_match_count,
                    matches.len(),
                    e.all_source_count,
                    sources.len(),
                    truncated,
                ),
            ).with("completeness"@, completeness).with("publicationPolicy"@, policy_said()),
        ),
    }
}

struct Evidence {
    base: Json,
    all_match_count: usize,
    all_source_count: usize,
    obligations: Vec<Json>,
    member_completeness: Vec<Json>,
}

impl DeepView for Evidence {
    type V = EvidenceParts;

    closed spec fn deep_view(&self) -> EvidenceParts {
        EvidenceParts {
            base: self.base.deep_view(),
            all_match_count: self.all_match_count,
            all_source_count: self.all_source_count,
            obligations: self.obligations.deep_view(),
            member_completeness: self.member_completeness.deep_view(),
        }
    }
}

fn base_of_evidence(thread: &ThreadAuthority, a: &ThreadContextAuthority) -> (r: Json)
    ensures
        r.deep_view() == evidence_base(thread.deep_view(), a.deep_view()),
{
    proof {
        reveal(evidence_base);
    }
    Json::object().with("schema", Json::Str(THREAD_CONTEXT_EVIDENCE_SCHEMA.to_owned())).with(
        "threadId",
        Json::Str(thread.thread_id.clone()),
    ).with("threadAuthorityDigest", Json::Str(thread.authority_digest.clone())).with(
        "threadContextBindingDigest",
        Json::Str(a.binding_digest.clone()),
    ).with(
        "task",
        Json::object().with("intent", Json::Str(a.intent.clone())).with(
            "terms",
            a.terms.to_json(),
        ),
    ).with("budgets", a.budgets.to_json()).with("members", a.members.to_json())
}

fn evidence_value(e: &Evidence, matches: &Vec<Json>, sources: &Vec<Json>, truncated: bool) -> (r:
    Result<Json, ClewError>)
    ensures
        outcome(r) == evidence_said(
            e.deep_view(),
            matches.deep_view(),
            sources.deep_view(),
            truncated,
        ),
{
    proof {
        reveal(selection_said);
        reveal(policy_said);
    }
    let completeness = aggregate_completeness(&e.member_completeness, truncated)?;
    let selection = Json::object().with("availableFacts", Json::Uint(e.all_match_count as u64)).with(
        "selectedFacts",
        Json::Uint(matches.len() as u64),
    ).with("availableSources", Json::Uint(e.all_source_count as u64)).with(
        "selectedSources",
        Json::Uint(sources.len() as u64),
    ).with("truncated", Json::Bool(truncated));
    let policy = Json::object().with("mode", Json::Str("READ_ONLY".to_owned())).with(
        "status",
        Json::Str("NOT_APPLICABLE".to_owned()),
    ).with("automaticPublication", Json::Bool(false));
    Ok(
        e.base.copied().with("matches", list(matches.copied())).with(
            "sources",
            list(sources.copied()),
        ).with("memberCompleteness", list(e.member_completeness.copied())).with(
            "verificationObligations",
            list(e.obligations.copied()),
        ).with("selection", selection).with("completeness", completeness).with(
            "publicationPolicy",
            policy,
        ),
    )
}

/// The number of canonical bytes of a value.
pub open spec fn size_of(value: JsonModel) -> nat {
    canonical_bytes(value).len()
}

fn size_of_value(value: &Json) -> (r: usize)
    ensures
        r == size_of(value.deep_view()),
{
    value.bytes().len()
}

/// What was taken so far of some facts and sources, and how many bytes are left.
pub struct Taken {
    pub matches: Seq<JsonModel>,
    pub sources: Seq<JsonModel>,
    pub remaining: nat,
}

/// One more source, where there is one and it fits.
pub open spec fn source_taken(t: Taken, sources: Seq<JsonModel>, i: int) -> Taken {
    if 0 <= i < sources.len() && size_of(sources[i]) + 1 <= t.remaining {
        Taken {
            sources: t.sources.push(sources[i]),
            remaining: (t.remaining - (size_of(sources[i]) + 1)) as nat,
            ..t
        }
    } else {
        t
    }
}

/// One more fact, where there is one and it fits.
pub open spec fn match_taken(t: Taken, matches: Seq<JsonModel>, i: int) -> Taken {
    if 0 <= i < matches.len() && size_of(matches[i]) + 1 <= t.remaining {
        Taken {
            matches: t.matches.push(matches[i]),
            remaining: (t.remaining - (size_of(matches[i]) + 1)) as nat,
            ..t
        }
    } else {
        t
    }
}

/// Sources and facts from one place on, taken in turn.
pub open spec fn items_taken(
    t: Taken,
    matches: Seq<JsonModel>,
    sources: Seq<JsonModel>,
    i: int,
) -> Taken
    decreases
            (if matches.len() > sources.len() {
                matches.len()
            } else {
                sources.len()
            }) - i,
{
    if i < 0 || (i >= matches.len() && i >= sources.len()) {
        t
    } else {
        items_taken(match_taken(source_taken(t, sources, i), matches, i), matches, sources, i + 1)
    }
}

/// The evidence that fits, with the facts and sources in it: without the last source
/// or fact as long as it does not.
pub open spec fn evidence_trimmed(
    e: EvidenceParts,
    matches: Seq<JsonModel>,
    sources: Seq<JsonModel>,
    truncated: bool,
    max_evidence_bytes: usize,
) -> Result<(JsonModel, Seq<JsonModel>, Seq<JsonModel>), ErrorModel>
    decreases matches.len() + sources.len(),
{
    match evidence_said(e, matches, sources, truncated) {
        Err(error) => Err(error),
        Ok(evidence) => if size_of(evidence) <= max_evidence_bytes {
            Ok((evidence, matches, sources))
        } else if sources.len() >= matches.len() && sources.len() > 0 {
            evidence_trimmed(e, matches, sources.drop_last(), true, max_evidence_bytes)
        } else if matches.len() > 0 {
            evidence_trimmed(e, matches.drop_last(), sources, true, max_evidence_bytes)
        } else {
            broken("thread evidence budget accounting is inconsistent"@)
        },
    }
}

/// The number of bytes that are left for facts and sources.
pub open spec fn room_for_items(max_evidence_bytes: usize, base_bytes: nat) -> nat {
    if base_bytes + EVIDENCE_RESERVE <= max_evidence_bytes {
        (max_evidence_bytes - base_bytes - EVIDENCE_RESERVE) as nat
    } else {
        0
    }
}

/// The evidence that fits, with the facts and sources in it, taken in turn.
pub open spec fn evidence_bounded(
    e: EvidenceParts,
    matches: Seq<JsonModel>,
    sources: Seq<JsonModel>,
    initially_truncated: bool,
    max_evidence_bytes: usize,
) -> Result<(JsonModel, Seq<JsonModel>, Seq<JsonModel>), ErrorModel> {
    match evidence_said(e, Seq::empty(), Seq::empty(), true) {
        Err(error) => Err(error),
        Ok(empty) => if size_of(empty) > max_evidence_bytes {
            exceeded("thread authority, member references, and obligations exceed 1 MiB"@)
        } else {
            let t = items_taken(
                Taken {
                    matches: Seq::empty(),
                    sources: Seq::empty(),
                    remaining: room_for_items(max_evidence_bytes, size_of(empty)),
                },
                matches,
                sources,
                0,
            );
            evidence_trimmed(
                e,
                t.matches,
                t.sources,
                initially_truncated || t.matches.len() < e.all_match_count || t.sources.len()
                    < e.all_source_count,
                max_evidence_bytes,
            )
        },
    }
}

fn take_items(matches: &Vec<Json>, sources: &Vec<Json>, room: usize) -> (r: (Vec<Json>, Vec<Json>))
    ensures
        r.0.deep_view() == items_taken(
            (Taken { matches: Seq::empty(), sources: Seq::empty(), remaining: room as nat }),
            matches.deep_view(),
            sources.deep_view(),
            0,
        ).matches,
        r.1.deep_view() == items_taken(
            (Taken { matches: Seq::empty(), sources: Seq::empty(), remaining: room as nat }),
            matches.deep_view(),
            sources.deep_view(),
            0,
        ).sources,
{
    let ghost m = matches.deep_view();
    let ghost s = sources.deep_view();
    let ghost start = Taken {
        matches: Seq::empty(),
        sources: Seq::empty(),
        remaining: room as nat,
    };
    let mut taken_matches: Vec<Json> = Vec::new();
    let mut taken_sources: Vec<Json> = Vec::new();
    let mut remaining: usize = room;
    let ghost mut t = start;
    let mut i: usize = 0;
    assert(taken_matches.deep_view() =~= Seq::empty());
    assert(taken_sources.deep_view() =~= Seq::empty());
    while i < matches.len() || i < sources.len()
        invariant
            i <= matches.len() || i <= sources.len(),
            m == matches.deep_view(),
            s == sources.deep_view(),
            t.matches == taken_matches.deep_view(),
            t.sources == taken_sources.deep_view(),
            t.remaining == remaining,
            items_taken(start, m, s, 0) == items_taken(t, m, s, i as int),
        decreases
                (if matches.len() > sources.len() {
                    matches.len()
                } else {
                    sources.len()
                }) - i,
    {
        let ghost before = t;
        if i < sources.len() {
            assert(s[i as int] == sources@[i as int].deep_view());
            let cost: usize = size_of_value(&sources[i]);
            if cost < remaining {
                taken_sources.push(sources[i].copied());
                remaining = remaining - cost - 1;
                assert(taken_sources.deep_view() =~= t.sources.push(s[i as int]));
            }
            proof {
                t = source_taken(t, s, i as int);
            }
        }
        let ghost between = t;
        if i < matches.len() {
            assert(m[i as int] == matches@[i as int].deep_view());
            let cost: usize = size_of_value(&matches[i]);
            if cost < remaining {
                taken_matches.push(matches[i].copied());
                remaining = remaining - cost - 1;
                assert(taken_matches.deep_view() =~= t.matches.push(m[i as int]));
            }
            proof {
                t = match_taken(t, m, i as int);
            }
        }
        assert(t == match_taken(source_taken(before, s, i as int), m, i as int));
        i = i + 1;
    }
    (taken_matches, taken_sources)
}

fn trim_evidence(
    e: &Evidence,
    matches: Vec<Json>,
    sources: Vec<Json>,
    initially_truncated: bool,
    max_evidence_bytes: usize,
) -> (r: Result<(Json, Vec<Json>, Vec<Json>), ClewError>)
    ensures
        outcome(r) == evidence_trimmed(
            e.deep_view(),
            matches.deep_view(),
            sources.deep_view(),
            initially_truncated,
            max_evidence_bytes,
        ),
{
    let ghost parts = e.deep_view();
    let ghost m = matches.deep_view();
    let ghost s = sources.deep_view();
    let mut kept_matches = matches;
    let mut kept_sources = sources;
    let mut truncated = initially_truncated;
    loop
        invariant
            parts == e.deep_view(),
            m == matches.deep_view(),
            s == sources.deep_view(),
            evidence_trimmed(parts, m, s, initially_truncated, max_evidence_bytes)
                == evidence_trimmed(
                parts,
                kept_matches.deep_view(),
                kept_sources.deep_view(),
                truncated,
                max_evidence_bytes,
            ),
        decreases kept_matches.len() + kept_sources.len(),
    {
        let evidence = evidence_value(e, &kept_matches, &kept_sources, truncated)?;
        if size_of_value(&evidence) <= max_evidence_bytes {
            return Ok((evidence, kept_matches, kept_sources));
        }
        if kept_sources.len() >= kept_matches.len() && kept_sources.len() > 0 {
            let ghost before = kept_sources.deep_view();
            kept_sources.pop();
            assert(kept_sources.deep_view() =~= before.drop_last());
        } else if kept_matches.len() > 0 {
            let ghost before = kept_matches.deep_view();
            kept_matches.pop();
            assert(kept_matches.deep_view() =~= before.drop_last());
        } else {
            return Err(internal("thread evidence budget accounting is inconsistent"));
        }
        truncated = true;
    }
}

fn bounded_evidence(
    e: &Evidence,
    matches: &Vec<Json>,
    sources: &Vec<Json>,
    initially_truncated: bool,
    max_evidence_bytes: usize,
) -> (r: Result<(Json, Vec<Json>, Vec<Json>), ClewError>)
    ensures
        outcome(r) == evidence_bounded(
            e.deep_view(),
            matches.deep_view(),
            sources.deep_view(),
            initially_truncated,
            max_evidence_bytes,
        ),
{
    let nothing: Vec<Json> = Vec::new();
    assert(nothing.deep_view() =~= Seq::empty());
    let empty = evidence_value(e, &nothing, &nothing, true)?;
    let base_bytes: usize = size_of_value(&empty);
    if base_bytes > max_evidence_bytes {
        return Err(budget("thread authority, member references, and obligations exceed 1 MiB"));
    }
    let room: usize = if EVIDENCE_RESERVE <= max_evidence_bytes - base_bytes {
        max_evidence_bytes - base_bytes - EVIDENCE_RESERVE
    } else {
        0
    };
    let (taken_matches, taken_sources) = take_items(matches, sources, room);
    let truncated = initially_truncated || taken_matches.len() < e.all_match_count
        || taken_sources.len() < e.all_source_count;
    trim_evidence(e, taken_matches, taken_sources, truncated, max_evidence_bytes)
}

/// The evidence that is kept fits. It leaves out facts and sources only from the end,
/// and then says so, and holds every obligation.
#[verifier::rlimit(60)]
pub proof fn trimmed_evidence_is_honest(
    e: EvidenceParts,
    matches: Seq<JsonModel>,
    sources: Seq<JsonModel>,
    truncated: bool,
    max_evidence_bytes: usize,
)
    ensures
        match evidence_trimmed(e, matches, sources, truncated, max_evidence_bytes) {
            Ok((evidence, m, s)) => {
                &&& size_of(evidence) <= max_evidence_bytes
                &&& m.is_prefix_of(matches)
                &&& s.is_prefix_of(sources)
                &&& evidence_said(
                    e,
                    m,
                    s,
                    truncated || m.len() < matches.len() || s.len() < sources.len(),
                ) == Ok::<JsonModel, ErrorModel>(evidence)
            },
            Err(_) => true,
        },
    decreases matches.len() + sources.len(),
{
    if let Ok(evidence) = evidence_said(e, matches, sources, truncated) {
        if size_of(evidence) <= max_evidence_bytes {
        } else if sources.len() >= matches.len() && sources.len() > 0 {
            trimmed_evidence_is_honest(e, matches, sources.drop_last(), true, max_evidence_bytes);
            if let Ok((last, m, s)) = evidence_trimmed(
                e,
                matches,
                sources,
                truncated,
                max_evidence_bytes,
            ) {
                assert(s.is_prefix_of(sources.drop_last()));
                assert(s.is_prefix_of(sources));
            }
        } else if matches.len() > 0 {
            trimmed_evidence_is_honest(e, matches.drop_last(), sources, true, max_evidence_bytes);
            if let Ok((last, m, s)) = evidence_trimmed(
                e,
                matches,
                sources,
                truncated,
                max_evidence_bytes,
            ) {
                assert(m.is_prefix_of(matches.drop_last()));
                assert(m.is_prefix_of(matches));
            }
        }
    }
}

/// What is shown of a member.
#[verifier::opaque]
pub open spec fn member_shown(m: ThreadMemberContextBindingModel) -> JsonModel {
    JsonModel::object().with("memberAlias"@, JsonModel::Str(m.member_alias)).with(
        "serviceAlias"@,
        JsonModel::Str(m.service_alias),
    ).with("sessionId"@, JsonModel::Str(m.session_id)).with(
        "language"@,
        JsonModel::Str(m.language),
    ).with("compilations"@, <Vec<String> as Record>::json(m.compilations)).with(
        "contextId"@,
        JsonModel::Str(m.context_id),
    ).with("contextDigest"@, JsonModel::Str(m.context_digest)).with(
        "evidenceDigest"@,
        JsonModel::Str(m.evidence_digest),
    )
}

/// What is shown of the members.
pub open spec fn members_shown(members: Seq<ThreadMemberContextBindingModel>) -> JsonModel {
    JsonModel::Arr(Seq::new(members.len(), |i: int| member_shown(members[i])))
}

fn show_member(m: &ThreadMemberContextBinding) -> (r: Json)
    ensures
        r.deep_view() == member_shown(m.deep_view()),
{
    proof {
        reveal(member_shown);
    }
    Json::object().with("memberAlias", Json::Str(m.member_alias.clone())).with(
        "serviceAlias",
        Json::Str(m.service_alias.clone()),
    ).with("sessionId", Json::Str(m.session_id.clone())).with(
        "language",
        Json::Str(m.language.clone()),
    ).with("compilations", m.compilations.to_json()).with(
        "contextId",
        Json::Str(m.context_id.clone()),
    ).with("contextDigest", Json::Str(m.context_digest.clone())).with(
        "evidenceDigest",
        Json::Str(m.evidence_digest.clone()),
    )
}

fn show_members(members: &Vec<ThreadMemberContextBinding>) -> (r: Json)
    ensures
        r.deep_view() == members_shown(members.deep_view()),
{
    let ghost m = members.deep_view();
    let ghost all = Seq::new(m.len(), |i: int| member_shown(m[i]));
    let mut rows: Vec<Json> = Vec::new();
    let mut i: usize = 0;
    while i < members.len()
        invariant
            i <= members.len(),
            m == members.deep_view(),
            all == Seq::new(m.len(), |i: int| member_shown(m[i])),
            rows.deep_view() =~= all.take(i as int),
        decreases members.len() - i,
    {
        assert(m[i as int] == members@[i as int].deep_view());
        let ghost before = rows.deep_view();
        rows.push(show_member(&members[i]));
        assert(rows.deep_view() =~= before.push(member_shown(m[i as int])));
        i = i + 1;
    }
    assert(rows.deep_view() =~= all);
    list(rows)
}

/// A member of a value, or nothing.
pub open spec fn or_null(value: Option<JsonModel>) -> JsonModel {
    match value {
        Some(v) => v,
        None => JsonModel::Null,
    }
}

fn member_or_null(value: &Json, key: &str) -> (r: Json)
    ensures
        r.deep_view() == or_null(value.deep_view().get(key@)),
{
    match value.get(key) {
        Some(v) => v.copied(),
        None => Json::Null,
    }
}

/// Whether a selection says that something is left out.
pub open spec fn truncation_said(evidence: JsonModel) -> Option<bool> {
    match evidence.get("selection"@) {
        Some(selection) => selection.bool_at("truncated"@),
        None => None,
    }
}

fn says_truncated(evidence: &Json) -> (r: Option<bool>)
    ensures
        r == truncation_said(evidence.deep_view()),
{
    match evidence.get("selection") {
        Some(selection) => selection.bool_at("truncated"),
        None => None,
    }
}

/// What is shown of a context before its obligations, facts and sources.
#[verifier::opaque]
pub open spec fn projection_base(
    thread: ThreadAuthorityModel,
    a: ThreadContextAuthorityModel,
    context_id: Seq<char>,
    evidence: JsonModel,
    obligations: nat,
) -> JsonModel {
    JsonModel::object().with("schema"@, JsonModel::Str(THREAD_CONTEXT_PROJECTION_SCHEMA@)).with(
        "threadId"@,
        JsonModel::Str(thread.thread_id),
    ).with("threadAuthorityDigest"@, JsonModel::Str(thread.authority_digest)).with(
        "contextId"@,
        JsonModel::Str(context_id),
    ).with("contextAuthorityDigest"@, JsonModel::Str(a.authority_digest)).with(
        "task"@,
        or_null(evidence.get("task"@)),
    ).with("members"@, members_shown(a.members)).with(
        "matches"@,
        JsonModel::Arr(Seq::empty()),
    ).with("sources"@, JsonModel::Arr(Seq::empty())).with(
        "completeness"@,
        or_null(evidence.get("completeness"@)),
    ).with("publicationPolicy"@, or_null(evidence.get("publicationPolicy"@))).with(
        "verificationObligations"@,
        JsonModel::Arr(Seq::empty()),
    ).with("obligationCount"@, JsonModel::Uint(obligations as u64)).with(
        "obligationsTruncated"@,
        JsonModel::Bool(false),
    ).with("truncated"@, JsonModel::Bool(truncation_said(evidence) == Some(true)))
}

fn empty_list() -> (r: Json)
    ensures
        r.deep_view() == JsonModel::Arr(Seq::empty()),
{
    let nothing: Vec<Json> = Vec::new();
    assert(nothing.deep_view() =~= Seq::empty());
    list(nothing)
}

#[verifier::rlimit(50)]
fn base_of_projection(
    thread: &ThreadAuthority,
    a: &ThreadContextAuthority,
    context_id: &str,
    evidence: &Json,
    obligations: usize,
) -> (r: Json)
    ensures
        r.deep_view() == projection_base(
            thread.deep_view(),
            a.deep_view(),
            context_id@,
            evidence.deep_view(),
            obligations as nat,
        ),
{
    proof {
        reveal(projection_base);
    }
    let truncated = match says_truncated(evidence) {
        Some(truncated) => truncated,
        None => false,
    };
    Json::object().with("schema", Json::Str(THREAD_CONTEXT_PROJECTION_SCHEMA.to_owned())).with(
        "threadId",
        Json::Str(thread.thread_id.clone()),
    ).with("threadAuthorityDigest", Json::Str(thread.authority_digest.clone())).with(
        "contextId",
        Json::Str(context_id.to_owned()),
    ).with("contextAuthorityDigest", Json::Str(a.authority_digest.clone())).with(
        "task",
        member_or_null(evidence, "task"),
    ).with("members", show_members(&a.members)).with("matches", empty_list()).with(
        "sources",
        empty_list(),
    ).with("completeness", member_or_null(evidence, "completeness")).with(
        "publicationPolicy",
        member_or_null(evidence, "publicationPolicy"),
    ).with("verificationObligations", empty_list()).with(
        "obligationCount",
        Json::Uint(obligations as u64),
    ).with("obligationsTruncated", Json::Bool(false)).with("truncated", Json::Bool(truncated))
}

/// What is shown with one more item in one of its lists, where that fits.
pub open spec fn pushed_if_bounded(
    projection: JsonModel,
    key: Seq<char>,
    value: JsonModel,
    limit: usize,
) -> Result<(JsonModel, bool), ErrorModel> {
    match projection.array_at(key) {
        None => broken("thread projection array is missing"@),
        Some(items) => {
            let more = projection.with(key, JsonModel::Arr(items.push(value)));
            if size_of(more) <= limit {
                Ok((more, true))
            } else {
                Ok((projection, false))
            }
        },
    }
}

fn push_if_bounded(projection: Json, key: &str, value: &Json, limit: usize) -> (r: Result<
    (Json, bool),
    ClewError,
>)
    ensures
        outcome(r) == pushed_if_bounded(
            projection.deep_view(),
            key@,
            value.deep_view(),
            limit,
        ),
{
    let mut items = match projection.array_at(key) {
        Some(items) => items.copied(),
        None => {
            return Err(internal("thread projection array is missing"));
        },
    };
    let ghost before = items.deep_view();
    items.push(value.copied());
    assert(items.deep_view() =~= before.push(value.deep_view()));
    let more = projection.copied().with(key, list(items));
    if size_of_value(&more) <= limit {
        return Ok((more, true));
    }
    Ok((projection, false))
}

/// What is shown with the obligations from one on, up to the first that does not
/// fit.
pub open spec fn obligations_pushed(
    projection: JsonModel,
    obligations: Seq<JsonModel>,
    i: int,
) -> Result<JsonModel, ErrorModel>
    decreases obligations.len() - i,
{
    if i < 0 || i >= obligations.len() {
        Ok(projection)
    } else {
        match pushed_if_bounded(
            projection,
            "verificationObligations"@,
            obligations[i],
            THREAD_PROJECTION_TARGET_BYTES,
        ) {
            Err(e) => Err(e),
            Ok((more, true)) => obligations_pushed(more, obligations, i + 1),
            Ok((same, false)) => Ok(
                same.with("obligationsTruncated"@, JsonModel::Bool(true)).with(
                    "truncated"@,
                    JsonModel::Bool(true),
                ),
            ),
        }
    }
}

/// What is shown with the item at a place of a list, where there is one and it fits.
pub open spec fn item_pushed(
    projection: JsonModel,
    key: Seq<char>,
    items: Seq<JsonModel>,
    i: int,
) -> Result<JsonModel, ErrorModel> {
    if 0 <= i < items.len() {
        match pushed_if_bounded(projection, key, items[i], THREAD_PROJECTION_TARGET_BYTES) {
            Err(e) => Err(e),
            Ok((more, true)) => Ok(more),
            Ok((same, false)) => Ok(same.with("truncated"@, JsonModel::Bool(true))),
        }
    } else {
        Ok(projection)
    }
}

/// What is shown with the sources and facts from one place on, in turn.
pub open spec fn items_pushed(
    projection: JsonModel,
    matches: Seq<JsonModel>,
    sources: Seq<JsonModel>,
    i: int,
) -> Result<JsonModel, ErrorModel>
    decreases
            (if matches.len() > sources.len() {
                matches.len()
            } else {
                sources.len()
            }) - i,
{
    if i < 0 || (i >= matches.len() && i >= sources.len()) {
        Ok(projection)
    } else {
        match item_pushed(projection, "sources"@, sources, i) {
            Err(e) => Err(e),
            Ok(more) => match item_pushed(more, "matches"@, matches, i) {
                Err(e) => Err(e),
                Ok(more) => items_pushed(more, matches, sources, i + 1),
            },
        }
    }
}

/// What is shown of a context: its authority, and as many obligations, sources and
/// facts as fit.
pub open spec fn projection_bounded(
    thread: ThreadAuthorityModel,
    a: ThreadContextAuthorityModel,
    context_id: Seq<char>,
    evidence: JsonModel,
    matches: Seq<JsonModel>,
    sources: Seq<JsonModel>,
) -> Result<JsonModel, ErrorModel> {
    match evidence.array_at("verificationObligations"@) {
        None => refused("thread evidence obligations are invalid"@),
        Some(obligations) => {
            let base = projection_base(thread, a, context_id, evidence, obligations.len());
            if size_of(base) > THREAD_PROJECTION_TARGET_BYTES {
                exceeded("thread context authority exceeds the bounded projection limit"@)
            } else {
                match obligations_pushed(base, obligations, 0) {
                    Err(e) => Err(e),
                    Ok(more) => match items_pushed(more, matches, sources, 0) {
                        Err(e) => Err(e),
                        Ok(projection) => if size_of(projection) > THREAD_PROJECTION_TARGET_BYTES {
                            broken("thread projection exceeded its checked bound"@)
                        } else {
                            Ok(projection)
                        },
                    },
                }
            }
        },
    }
}

fn push_obligations(base: Json, obligations: &Vec<Json>) -> (r: Result<Json, ClewError>)
    ensures
        outcome(r) == obligations_pushed(base.deep_view(), obligations.deep_view(), 0),
{
    let ghost m = obligations.deep_view();
    let ghost start = base.deep_view();
    let mut projection = base;
    let mut i: usize = 0;
    while i < obligations.len()
        invariant
            i <= obligations.len(),
            m == obligations.deep_view(),
            start == base.deep_view(),
            obligations_pushed(start, m, 0) == obligations_pushed(
                projection.deep_view(),
                m,
                i as int,
            ),
        decreases obligations.len() - i,
    {
        assert(m[i as int] == obligations@[i as int].deep_view());
        let (more, pushed) = push_if_bounded(
            projection,
            "verificationObligations",
            &obligations[i],
            THREAD_PROJECTION_TARGET_BYTES,
        )?;
        if !pushed {
            return Ok(
                more.with("obligationsTruncated", Json::Bool(true)).with(
                    "truncated",
                    Json::Bool(true),
                ),
            );
        }
        projection = more;
        i = i + 1;
    }
    Ok(projection)
}

fn push_item(projection: Json, key: &str, items: &Vec<Json>, i: usize) -> (r: Result<
    Json,
    ClewError,
>)
    ensures
        outcome(r) == item_pushed(projection.deep_view(), key@, items.deep_view(), i as int),
{
    if i >= items.len() {
        return Ok(projection);
    }
    assert(items.deep_view()[i as int] == items@[i as int].deep_view());
    let (more, pushed) = push_if_bounded(
        projection,
        key,
        &items[i],
        THREAD_PROJECTION_TARGET_BYTES,
    )?;
    if pushed {
        Ok(more)
    } else {
        Ok(more.with("truncated", Json::Bool(true)))
    }
}

fn push_items(base: Json, matches: &Vec<Json>, sources: &Vec<Json>) -> (r: Result<Json, ClewError>)
    ensures
        outcome(r) == items_pushed(
            base.deep_view(),
            matches.deep_view(),
            sources.deep_view(),
            0,
        ),
{
    let ghost m = matches.deep_view();
    let ghost s = sources.deep_view();
    let ghost start = base.deep_view();
    let mut projection = base;
    let mut i: usize = 0;
    while i < matches.len() || i < sources.len()
        invariant
            i <= matches.len() || i <= sources.len(),
            m == matches.deep_view(),
            s == sources.deep_view(),
            start == base.deep_view(),
            items_pushed(start, m, s, 0) == items_pushed(
                projection.deep_view(),
                m,
                s,
                i as int,
            ),
        decreases
                (if matches.len() > sources.len() {
                    matches.len()
                } else {
                    sources.len()
                }) - i,
    {
        let more = push_item(projection, "sources", sources, i)?;
        projection = push_item(more, "matches", matches, i)?;
        i = i + 1;
    }
    Ok(projection)
}

fn bounded_projection(
    thread: &ThreadAuthority,
    a: &ThreadContextAuthority,
    context_id: &str,
    evidence: &Json,
    matches: &Vec<Json>,
    sources: &Vec<Json>,
) -> (r: Result<Json, ClewError>)
    ensures
        outcome(r) == projection_bounded(
            thread.deep_view(),
            a.deep_view(),
            context_id@,
            evidence.deep_view(),
            matches.deep_view(),
            sources.deep_view(),
        ),
{
    let obligations = match evidence.array_at("verificationObligations") {
        Some(obligations) => obligations,
        None => {
            return Err(invalid("thread evidence obligations are invalid"));
        },
    };
    let base = base_of_projection(thread, a, context_id, evidence, obligations.len());
    if size_of_value(&base) > THREAD_PROJECTION_TARGET_BYTES {
        return Err(budget("thread context authority exceeds the bounded projection limit"));
    }
    let with_obligations = push_obligations(base, obligations)?;
    let projection = push_items(with_obligations, matches, sources)?;
    if size_of_value(&projection) > THREAD_PROJECTION_TARGET_BYTES {
        return Err(internal("thread projection exceeded its checked bound"));
    }
    Ok(projection)
}

/// Whether some texts stand in their order, each once.
pub open spec fn is_increasing(terms: Seq<Seq<char>>) -> bool {
    forall|i: int| 0 <= i < terms.len() - 1 ==> text_less(#[trigger] terms[i], terms[i + 1])
}

fn increasing(terms: &Vec<String>) -> (r: bool)
    ensures
        r == is_increasing(terms.deep_view()),
{
    let ghost m = terms.deep_view();
    let mut i: usize = 1;
    while i < terms.len()
        invariant
            1 <= i,
            i <= terms.len() || terms.len() == 0,
            m == terms.deep_view(),
            forall|k: int| 0 <= k < i - 1 && k + 1 < m.len() ==> text_less(#[trigger] m[k], m[k + 1]),
        decreases terms.len() - i,
    {
        assert(m[i as int] == terms@[i as int]@);
        assert(m[i - 1] == terms@[i - 1]@);
        if !text_before(terms[i - 1].as_str(), terms[i].as_str()) {
            assert(!text_less(m[i - 1], m[i - 1 + 1]));
            return false;
        }
        i = i + 1;
    }
    true
}

/// Whether what a member of a context is bound to is that of a member of the thread.
pub open spec fn binding_agrees(
    m: ThreadMemberBindingModel,
    b: ThreadMemberContextBindingModel,
) -> bool {
    b.member_alias == m.member_alias && b.service_alias == m.service_alias && b.session_id
        == m.session.session_id && b.session_authority_digest == m.session.authority_digest
        && b.repository_key == m.session.repository_key && b.base_revision
        == m.session.base_revision && b.language == m.session.language.uri() && b.compilations
        == m.session.compilations && is_content_id(b.context_id, "context:"@) && is_digest(
        b.context_digest,
    ) && b.evidence_ref.schema == CAS_OBJECT_SCHEMA@ && b.evidence_ref.object_schema
        == MEMBER_CONTEXT_EVIDENCE_SCHEMA@ && b.evidence_ref.digest == b.evidence_digest
}

/// Whether the parts of an authority agree with each other and with the thread.
pub open spec fn authority_agrees(
    thread: ThreadAuthorityModel,
    a: ThreadContextAuthorityModel,
) -> bool {
    a.schema == THREAD_CONTEXT_AUTHORITY_SCHEMA@ && a.thread_id == thread.thread_id
        && a.thread_authority_digest == thread.authority_digest && a.members.len()
        == thread.members.len() && a.binding_digest == binding_digest_of(a) && a.authority_digest
        == authority_digest_of(a) && is_increasing(a.terms) && a.evidence_ref.schema
        == CAS_OBJECT_SCHEMA@ && a.evidence_ref.object_schema == THREAD_CONTEXT_EVIDENCE_SCHEMA@
        && a.evidence_ref.digest == a.evidence_digest && is_digest(a.binding_digest) && is_digest(
        a.evidence_digest,
    ) && host_size(a.evidence_ref.size) is Some && a.evidence_ref.size
        <= a.budgets.max_evidence_bytes
}

/// Whether each member of a context is bound to the member of the thread.
pub open spec fn bindings_agree(
    members: Seq<ThreadMemberBindingModel>,
    bindings: Seq<ThreadMemberContextBindingModel>,
) -> bool {
    forall|i: int|
        0 <= i < members.len() && i < bindings.len() ==> binding_agrees(
            #[trigger] members[i],
            bindings[i],
        )
}

/// The outcome for an authority, given what checking its request refused, if anything.
pub open spec fn authority_checked(
    thread: ThreadAuthorityModel,
    a: ThreadContextAuthorityModel,
    request: Option<ErrorModel>,
) -> Result<(), ErrorModel> {
    match budgets_checked(a.budgets) {
        Err(e) => Err(e),
        Ok(_) => match accepted(request) {
            Err(e) => Err(e),
            Ok(_) => if !authority_agrees(thread, a) {
                refused("thread context authority is invalid"@)
            } else if !bindings_agree(thread.members, a.members) {
                refused("thread context member binding is invalid"@)
            } else {
                Ok(())
            },
        },
    }
}

fn agreeing_binding(m: &ThreadMemberBinding, b: &ThreadMemberContextBinding) -> (r: bool)
    ensures
        r == binding_agrees(m.deep_view(), b.deep_view()),
{
    b.member_alias.same_as(&m.member_alias) && b.service_alias.same_as(&m.service_alias)
        && b.session_id.same_as(&m.session.session_id) && b.session_authority_digest.same_as(
        &m.session.authority_digest,
    ) && b.repository_key.same_as(&m.session.repository_key) && b.base_revision.same_as(
        &m.session.base_revision,
    ) && b.language.same_as(&m.session.language.to_uri()) && b.compilations.same_as(
        &m.session.compilations,
    ) && content_id(b.context_id.as_str(), "context:") && sha256_digest(b.context_digest.as_str())
        && same_text(b.evidence_ref.schema.as_str(), CAS_OBJECT_SCHEMA) && same_text(
        b.evidence_ref.object_schema.as_str(),
        MEMBER_CONTEXT_EVIDENCE_SCHEMA,
    ) && b.evidence_ref.digest.same_as(&b.evidence_digest)
}

fn agreeing_bindings(
    members: &Vec<ThreadMemberBinding>,
    bindings: &Vec<ThreadMemberContextBinding>,
) -> (r: bool)
    ensures
        r == bindings_agree(members.deep_view(), bindings.deep_view()),
{
    let ghost m = members.deep_view();
    let ghost b = bindings.deep_view();
    let mut i: usize = 0;
    while i < members.len() && i < bindings.len()
        invariant
            i <= members.len(),
            i <= bindings.len(),
            m == members.deep_view(),
            b == bindings.deep_view(),
            forall|k: int| 0 <= k < i ==> binding_agrees(#[trigger] m[k], b[k]),
        decreases members.len() - i,
    {
        assert(m[i as int] == members@[i as int].deep_view());
        assert(b[i as int] == bindings@[i as int].deep_view());
        if !agreeing_binding(&members[i], &bindings[i]) {
            return false;
        }
        i = i + 1;
    }
    true
}

fn agreeing_authority(thread: &ThreadAuthority, a: &ThreadContextAuthority) -> (r: bool)
    ensures
        r == authority_agrees(thread.deep_view(), a.deep_view()),
{
    let sized = match to_host_size(a.evidence_ref.size) {
        Some(size) => size <= a.budgets.max_evidence_bytes,
        None => false,
    };
    same_text(a.schema.as_str(), THREAD_CONTEXT_AUTHORITY_SCHEMA) && a.thread_id.same_as(
        &thread.thread_id,
    ) && a.thread_authority_digest.same_as(&thread.authority_digest) && a.members.len()
        == thread.members.len() && a.binding_digest.same_as(&binding_digest(a))
        && a.authority_digest.same_as(&authority_digest(a)) && increasing(&a.terms) && same_text(
        a.evidence_ref.schema.as_str(),
        CAS_OBJECT_SCHEMA,
    ) && same_text(a.evidence_ref.object_schema.as_str(), THREAD_CONTEXT_EVIDENCE_SCHEMA)
        && a.evidence_ref.digest.same_as(&a.evidence_digest) && sha256_digest(
        a.binding_digest.as_str(),
    ) && sha256_digest(a.evidence_digest.as_str()) && sized
}

/// Checks what a context is bound to, given what checking its request refused, if anything.
pub fn validate_authority(
    thread: &ThreadAuthority,
    a: &ThreadContextAuthority,
    request: &Option<ClewError>,
) -> (r: Result<(), ClewError>)
    ensures
        outcome(r) == authority_checked(thread.deep_view(), a.deep_view(), request.deep_view()),
{
    a.budgets.validate()?;
    accept(request)?;
    if !agreeing_authority(thread, a) {
        return Err(invalid("thread context authority is invalid"));
    }
    if !agreeing_bindings(&thread.members, &a.members) {
        return Err(invalid("thread context member binding is invalid"));
    }
    Ok(())
}

/// The authority of a context before its evidence is known.
pub open spec fn authority_drafted(
    thread: ThreadAuthorityModel,
    intent: Seq<char>,
    terms: Seq<Seq<char>>,
    budgets: ThreadContextBudgetsModel,
    members: Seq<ThreadMemberContextBindingModel>,
) -> ThreadContextAuthorityModel {
    let draft = ThreadContextAuthorityModel {
        schema: THREAD_CONTEXT_AUTHORITY_SCHEMA@,
        authority_digest: Seq::empty(),
        binding_digest: Seq::empty(),
        thread_id: thread.thread_id,
        thread_authority_digest: thread.authority_digest,
        intent,
        terms,
        budgets,
        members,
        evidence_digest: Seq::empty(),
        evidence_ref: CasObjectModel {
            schema: CAS_OBJECT_SCHEMA@,
            object_schema: THREAD_CONTEXT_EVIDENCE_SCHEMA@,
            digest: Seq::empty(),
            size: 0,
        },
    };
    ThreadContextAuthorityModel { binding_digest: binding_digest_of(draft), ..draft }
}

/// The authority of a context with its evidence.
pub open spec fn authority_sealed(
    draft: ThreadContextAuthorityModel,
    evidence: JsonModel,
) -> ThreadContextAuthorityModel {
    let reference = reference_to(THREAD_CONTEXT_EVIDENCE_SCHEMA@, canonical_bytes(evidence));
    let bound = ThreadContextAuthorityModel {
        evidence_ref: reference,
        evidence_digest: reference.digest,
        ..draft
    };
    ThreadContextAuthorityModel { authority_digest: authority_digest_of(bound), ..bound }
}

fn draft_authority(
    thread: &ThreadAuthority,
    intent: &str,
    terms: Vec<String>,
    budgets: &ThreadContextBudgets,
    members: Vec<ThreadMemberContextBinding>,
) -> (r: ThreadContextAuthority)
    ensures
        r.deep_view() == authority_drafted(
            thread.deep_view(),
            intent@,
            terms.deep_view(),
            budgets.deep_view(),
            members.deep_view(),
        ),
{
    let mut draft = ThreadContextAuthority {
        schema: THREAD_CONTEXT_AUTHORITY_SCHEMA.to_owned(),
        authority_digest: String::new(),
        binding_digest: String::new(),
        thread_id: thread.thread_id.clone(),
        thread_authority_digest: thread.authority_digest.clone(),
        intent: intent.to_owned(),
        terms,
        budgets: budgets.copied(),
        members,
        evidence_digest: String::new(),
        evidence_ref: CasObject {
            schema: CAS_OBJECT_SCHEMA.to_owned(),
            object_schema: THREAD_CONTEXT_EVIDENCE_SCHEMA.to_owned(),
            digest: String::new(),
            size: 0,
        },
    };
    assert(draft.authority_digest@ =~= Seq::empty());
    draft.binding_digest = binding_digest(&draft);
    draft
}

fn seal_authority(draft: ThreadContextAuthority, evidence: &Json) -> (r: ThreadContextAuthority)
    ensures
        r.deep_view() == authority_sealed(draft.deep_view(), evidence.deep_view()),
        is_digest(r.authority_digest@),
{
    let mut a = draft;
    a.evidence_ref = CasObject::for_bytes(
        THREAD_CONTEXT_EVIDENCE_SCHEMA,
        evidence.bytes().as_slice(),
    );
    a.evidence_digest = a.evidence_ref.digest.clone();
    a.authority_digest = authority_digest(&a);
    a
}

/// The parts of the evidence of a context, with what may be selected, and whether
/// something was left out already.
pub struct Gathered {
    pub parts: EvidenceParts,
    pub matches: Seq<JsonModel>,
    pub sources: Seq<JsonModel>,
    pub truncated: bool,
}

/// What the members of a context have for it.
pub open spec fn gathered(
    thread: ThreadAuthorityModel,
    draft: ThreadContextAuthorityModel,
    contexts: Seq<MemberContextModel>,
) -> Result<Gathered, ErrorModel> {
    match matches_selected(contexts, draft.budgets.max_facts) {
        Err(e) => Err(e),
        Ok((matches, all_match_count)) => match sources_selected(
            contexts,
            draft.budgets.max_source_windows,
            draft.budgets.max_source_bytes,
            draft.budgets.max_snippet_bytes,
        ) {
            Err(e) => Err(e),
            Ok((sources, all_source_count, source_limited)) => match obligations_collected(
                Seq::empty(),
                contexts,
                0,
            ) {
                Err(e) => Err(e),
                Ok(obligations) => match completeness_collected(Seq::empty(), contexts, 0) {
                    Err(e) => Err(e),
                    Ok(member_completeness) => Ok(
                        Gathered {
                            parts: EvidenceParts {
                                base: evidence_base(thread, draft),
                                all_match_count,
                                all_source_count,
                                obligations,
                                member_completeness,
                            },
                            matches,
                            sources,
                            truncated: matches.len() < all_match_count || sources.len()
                                < all_source_count || source_limited,
                        },
                    ),
                },
            },
        },
    }
}

struct Gathering {
    parts: Evidence,
    matches: Vec<Json>,
    sources: Vec<Json>,
    truncated: bool,
}

impl DeepView for Gathering {
    type V = Gathered;

    closed spec fn deep_view(&self) -> Gathered {
        Gathered {
            parts: self.parts.deep_view(),
            matches: self.matches.deep_view(),
            sources: self.sources.deep_view(),
            truncated: self.truncated,
        }
    }
}

fn gather(
    thread: &ThreadAuthority,
    draft: &ThreadContextAuthority,
    contexts: &Vec<MemberContext>,
) -> (r: Result<Gathering, ClewError>)
    ensures
        outcome(r) == gathered(thread.deep_view(), draft.deep_view(), contexts.deep_view()),
{
    let (matches, all_match_count) = select_matches(contexts, draft.budgets.max_facts)?;
    let (sources, all_source_count, source_limited) = select_sources(
        contexts,
        draft.budgets.max_source_windows,
        draft.budgets.max_source_bytes,
        draft.budgets.max_snippet_bytes,
    )?;
    let obligations = collect_obligations(contexts)?;
    let member_completeness = collect_member_completeness(contexts)?;
    let truncated = matches.len() < all_match_count || sources.len() < all_source_count
        || source_limited;
    Ok(
        Gathering {
            parts: Evidence {
                base: base_of_evidence(thread, draft),
                all_match_count,
                all_source_count,
                obligations,
                member_completeness,
            },
            matches,
            sources,
            truncated,
        },
    )
}

/// The identifier of a context.
pub open spec fn context_id_of(a: ThreadContextAuthorityModel) -> Seq<char> {
    "thread-context:"@ + a.authority_digest
}

/// What checking the request of a context refused, if anything: of the intent and the terms
/// as they were given, and of the intent and the terms in the order in which a context is
/// bound to them.
pub struct RequestChecks {
    pub given: Option<ClewError>,
    pub bound: Option<ClewError>,
}

/// The model of [`RequestChecks`].
pub struct RequestChecksModel {
    pub given: Option<ErrorModel>,
    pub bound: Option<ErrorModel>,
}

impl DeepView for RequestChecks {
    type V = RequestChecksModel;

    open spec fn deep_view(&self) -> RequestChecksModel {
        RequestChecksModel { given: self.given.deep_view(), bound: self.bound.deep_view() }
    }
}

/// A context put together from what its members contribute, in the order of their
/// aliases: its authority, its evidence, and what is shown of it.
pub open spec fn composed(
    thread: ThreadAuthorityModel,
    intent: Seq<char>,
    terms: Seq<Seq<char>>,
    budgets: ThreadContextBudgetsModel,
    member_contexts: Seq<MemberContextModel>,
    request: RequestChecksModel,
) -> Result<(ThreadContextAuthorityModel, JsonModel, JsonModel), ErrorModel> {
    match budgets_checked(budgets) {
        Err(e) => Err(e),
        Ok(_) => match accepted(request.given) {
            Err(e) => Err(e),
            Ok(_) => if member_contexts.len() != thread.members.len() {
                refused("thread context member set is incomplete"@)
            } else {
                composed_of(
                    thread,
                    intent,
                    first_table::<String>(terms),
                    budgets,
                    sorted::<MemberContext>(member_contexts),
                    request.bound,
                )
            },
        },
    }
}

/// A context put together from what its members contribute.
#[verifier::opaque]
pub open spec fn composed_of(
    thread: ThreadAuthorityModel,
    intent: Seq<char>,
    terms: Seq<Seq<char>>,
    budgets: ThreadContextBudgetsModel,
    contexts: Seq<MemberContextModel>,
    request: Option<ErrorModel>,
) -> Result<(ThreadContextAuthorityModel, JsonModel, JsonModel), ErrorModel> {
    match bindings_from(thread.members, contexts, intent, terms, Seq::empty(), 0) {
        Err(e) => Err(e),
        Ok(members) => {
            let draft = authority_drafted(thread, intent, terms, budgets, members);
            match gathered(thread, draft, contexts) {
                Err(e) => Err(e),
                Ok(g) => match evidence_bounded(
                    g.parts,
                    g.matches,
                    g.sources,
                    g.truncated,
                    budgets.max_evidence_bytes,
                ) {
                    Err(e) => Err(e),
                    Ok((evidence, matches, sources)) => {
                        let a = authority_sealed(draft, evidence);
                        match authority_checked(thread, a, request) {
                            Err(e) => Err(e),
                            Ok(_) => match projection_bounded(
                                thread,
                                a,
                                context_id_of(a),
                                evidence,
                                matches,
                                sources,
                            ) {
                                Err(e) => Err(e),
                                Ok(projection) => Ok((a, evidence, projection)),
                            },
                        }
                    },
                },
            }
        },
    }
}

fn compose_sorted(
    thread: &ThreadAuthority,
    intent: &str,
    terms: Vec<String>,
    budgets: &ThreadContextBudgets,
    contexts: &Vec<MemberContext>,
    request: &Option<ClewError>,
) -> (r: Result<(ThreadContextAuthority, Json, Json), ClewError>)
    ensures
        outcome(r) == composed_of(
            thread.deep_view(),
            intent@,
            terms.deep_view(),
            budgets.deep_view(),
            contexts.deep_view(),
            request.deep_view(),
        ),
        r is Ok ==> is_digest(r->Ok_0.0.authority_digest@),
{
    proof {
        reveal(composed_of);
    }
    let members = bind_members(thread, contexts, intent, &terms)?;
    let draft = draft_authority(thread, intent, terms, budgets, members);
    let g = gather(thread, &draft, contexts)?;
    let (evidence, matches, sources) = bounded_evidence(
        &g.parts,
        &g.matches,
        &g.sources,
        g.truncated,
        budgets.max_evidence_bytes,
    )?;
    let authority = seal_authority(draft, &evidence);
    validate_authority(thread, &authority, request)?;
    let context_id = joined("thread-context:", authority.authority_digest.as_str());
    let projection = bounded_projection(
        thread,
        &authority,
        context_id.as_str(),
        &evidence,
        &matches,
        &sources,
    )?;
    Ok((authority, evidence, projection))
}

/// Puts a context together from what its members contribute.
pub fn compose(
    thread: &ThreadAuthority,
    intent: &str,
    terms: &Vec<String>,
    budgets: &ThreadContextBudgets,
    member_contexts: &Vec<MemberContext>,
    request: &RequestChecks,
) -> (r: Result<(ThreadContextAuthority, Json, Json), ClewError>)
    ensures
        outcome(r) == composed(
            thread.deep_view(),
            intent@,
            terms.deep_view(),
            budgets.deep_view(),
            member_contexts.deep_view(),
            request.deep_view(),
        ),
        r is Ok ==> is_digest(r->Ok_0.0.authority_digest@),
{
    budgets.validate()?;
    accept(&request.given)?;
    if member_contexts.len() != thread.members.len() {
        return Err(invalid("thread context member set is incomplete"));
    }
    compose_sorted(
        thread,
        intent,
        table_of(terms),
        budgets,
        &sort(member_contexts),
        &request.bound,
    )
}

/// The order in which members contribute makes no difference, where contexts with the same
/// alias are the same.
pub proof fn member_order_is_irrelevant(
    thread: ThreadAuthorityModel,
    intent: Seq<char>,
    terms: Seq<Seq<char>>,
    budgets: ThreadContextBudgetsModel,
    contexts: Seq<MemberContextModel>,
    others: Seq<MemberContextModel>,
    request: RequestChecksModel,
)
    requires
        contexts.to_multiset() == others.to_multiset(),
        keys_tell_apart::<MemberContext>(contexts),
    ensures
        composed(thread, intent, terms, budgets, contexts, request) == composed(
            thread,
            intent,
            terms,
            budgets,
            others,
            request,
        ),
{
    broadcast use vstd::seq_lib::group_to_multiset_ensures;

    assert(contexts.to_multiset().len() == contexts.len());
    assert(others.to_multiset().len() == others.len());
    sorting_is_order_free::<MemberContext>(contexts, others);
}

/// A context is the same, whatever the order of its members, where those with the same alias
/// are the same, and whatever the order of its terms and however often each is given, where
/// both requests are accepted. Its terms are in order, each once, and its evidence and what
/// is shown of it are bounded.
pub proof fn composition_is_order_free(
    thread: ThreadAuthorityModel,
    intent: Seq<char>,
    terms: Seq<Seq<char>>,
    other_terms: Seq<Seq<char>>,
    budgets: ThreadContextBudgetsModel,
    contexts: Seq<MemberContextModel>,
    others: Seq<MemberContextModel>,
    request: RequestChecksModel,
    other_request: RequestChecksModel,
    a: ThreadContextAuthorityModel,
    evidence: JsonModel,
    projection: JsonModel,
)
    requires
        composed(thread, intent, terms, budgets, contexts, request) == Ok::<
            (ThreadContextAuthorityModel, JsonModel, JsonModel),
            ErrorModel,
        >((a, evidence, projection)),
        forall|x: Seq<char>| terms.contains(x) <==> #[trigger] other_terms.contains(x),
        contexts.to_multiset() == others.to_multiset(),
        keys_tell_apart::<MemberContext>(contexts),
        other_request.given is None,
        other_request.bound == request.bound,
    ensures
        composed(thread, intent, other_terms, budgets, others, other_request) == Ok::<
            (ThreadContextAuthorityModel, JsonModel, JsonModel),
            ErrorModel,
        >((a, evidence, projection)),
        is_increasing(a.terms),
        a.terms == first_table::<String>(terms),
        size_of(evidence) <= MAX_THREAD_EVIDENCE_BYTES,
        size_of(projection) <= THREAD_PROJECTION_TARGET_BYTES,
{
    member_order_is_irrelevant(thread, intent, terms, budgets, contexts, others, request);
    crate::table::tables_of_the_same_texts(terms, other_terms);
    reveal(composed_of);
    let sorted_contexts = sorted::<MemberContext>(contexts);
    let bound_terms = first_table::<String>(terms);
    let members = bindings_from(
        thread.members,
        sorted_contexts,
        intent,
        bound_terms,
        Seq::empty(),
        0,
    )->Ok_0;
    let draft = authority_drafted(thread, intent, bound_terms, budgets, members);
    let g = gathered(thread, draft, sorted_contexts)->Ok_0;
    let empty = evidence_said(g.parts, Seq::empty(), Seq::empty(), true)->Ok_0;
    let t = items_taken(
        Taken {
            matches: Seq::empty(),
            sources: Seq::empty(),
            remaining: room_for_items(budgets.max_evidence_bytes, size_of(empty)),
        },
        g.matches,
        g.sources,
        0,
    );
    trimmed_evidence_is_honest(
        g.parts,
        t.matches,
        t.sources,
        g.truncated || t.matches.len() < g.parts.all_match_count || t.sources.len()
            < g.parts.all_source_count,
        budgets.max_evidence_bytes,
    );
}

/// Whether what is shown and the evidence of a context are bound to its authority and
/// to each other.
#[verifier::opaque]
pub open spec fn payload_agrees(
    thread: ThreadAuthorityModel,
    a: ThreadContextAuthorityModel,
    context_id: Seq<char>,
    projection: JsonModel,
    evidence: JsonModel,
) -> bool {
    let task = or_null(evidence.get("task"@));
    evidence.str_at("schema"@) == Some(THREAD_CONTEXT_EVIDENCE_SCHEMA@) && evidence.str_at(
        "threadId"@,
    ) == Some(thread.thread_id) && evidence.str_at("threadAuthorityDigest"@) == Some(
        thread.authority_digest,
    ) && evidence.str_at("threadContextBindingDigest"@) == Some(a.binding_digest) && evidence.get(
        "members"@,
    ) == Some(<Vec<ThreadMemberContextBinding> as Record>::json(a.members)) && evidence.get(
        "budgets"@,
    ) == Some(<ThreadContextBudgets as Record>::json(a.budgets)) && task.str_at("intent"@) == Some(
        a.intent,
    ) && task.get("terms"@) == Some(<Vec<String> as Record>::json(a.terms)) && projection.str_at(
        "schema"@,
    ) == Some(THREAD_CONTEXT_PROJECTION_SCHEMA@) && projection.str_at("threadId"@) == Some(
        thread.thread_id,
    ) && projection.str_at("contextId"@) == Some(context_id) && projection.str_at(
        "threadAuthorityDigest"@,
    ) == Some(thread.authority_digest) && projection.str_at("contextAuthorityDigest"@) == Some(
        a.authority_digest,
    ) && projection.get("task"@) == evidence.get("task"@) && projection.get("members"@) == Some(
        members_shown(a.members),
    ) && projection.get("completeness"@) == evidence.get("completeness"@) && projection.get(
        "publicationPolicy"@,
    ) == evidence.get("publicationPolicy"@) && size_of(projection)
        <= THREAD_PROJECTION_TARGET_BYTES
}

fn says_value(value: Option<&Json>, expected: &Json) -> (r: bool)
    ensures
        r == (value.deep_view() == Some(expected.deep_view())),
{
    match value {
        Some(value) => value.same_as(expected),
        None => false,
    }
}

fn same_value(a: Option<&Json>, b: Option<&Json>) -> (r: bool)
    ensures
        r == (a.deep_view() == b.deep_view()),
{
    match (a, b) {
        (Some(a), Some(b)) => a.same_as(b),
        (None, None) => true,
        _ => false,
    }
}

fn agreeing_payload(
    thread: &ThreadAuthority,
    a: &ThreadContextAuthority,
    context_id: &str,
    projection: &Json,
    evidence: &Json,
) -> (r: bool)
    ensures
        r == payload_agrees(
            thread.deep_view(),
            a.deep_view(),
            context_id@,
            projection.deep_view(),
            evidence.deep_view(),
        ),
{
    proof {
        reveal(payload_agrees);
    }
    let task = member_or_null(evidence, "task");
    says(evidence.str_at("schema"), THREAD_CONTEXT_EVIDENCE_SCHEMA) && says(
        evidence.str_at("threadId"),
        thread.thread_id.as_str(),
    ) && says(evidence.str_at("threadAuthorityDigest"), thread.authority_digest.as_str()) && says(
        evidence.str_at("threadContextBindingDigest"),
        a.binding_digest.as_str(),
    ) && says_value(evidence.get("members"), &a.members.to_json()) && says_value(
        evidence.get("budgets"),
        &a.budgets.to_json(),
    ) && says(task.str_at("intent"), a.intent.as_str()) && says_value(
        task.get("terms"),
        &a.terms.to_json(),
    ) && says(projection.str_at("schema"), THREAD_CONTEXT_PROJECTION_SCHEMA) && says(
        projection.str_at("threadId"),
        thread.thread_id.as_str(),
    ) && says(projection.str_at("contextId"), context_id) && says(
        projection.str_at("threadAuthorityDigest"),
        thread.authority_digest.as_str(),
    ) && says(projection.str_at("contextAuthorityDigest"), a.authority_digest.as_str())
        && same_value(projection.get("task"), evidence.get("task")) && says_value(
        projection.get("members"),
        &show_members(&a.members),
    ) && same_value(projection.get("completeness"), evidence.get("completeness")) && same_value(
        projection.get("publicationPolicy"),
        evidence.get("publicationPolicy"),
    ) && size_of_value(projection) <= THREAD_PROJECTION_TARGET_BYTES
}

/// A count that a selection says.
pub open spec fn count_at(selection: JsonModel, key: Seq<char>) -> Result<usize, ErrorModel> {
    match selection.u64_at(key) {
        None => refused("thread selection count is invalid"@),
        Some(n) => match host_size(n) {
            None => refused("thread selection count exceeds host size"@),
            Some(size) => Ok(size),
        },
    }
}

fn usize_field(selection: &Json, key: &str) -> (r: Result<usize, ClewError>)
    ensures
        outcome(r) == count_at(selection.deep_view(), key@),
{
    match selection.u64_at(key) {
        None => Err(invalid("thread selection count is invalid")),
        Some(n) => match to_host_size(n) {
            None => Err(invalid("thread selection count exceeds host size")),
            Some(size) => Ok(size),
        },
    }
}

/// The outcome for the facts of a context from one on: each is of a member and one of
/// its compilations.
pub open spec fn facts_checked(
    known: Seq<ThreadMemberContextBindingModel>,
    facts: Seq<JsonModel>,
    i: int,
) -> Result<(), ErrorModel>
    decreases facts.len() - i,
{
    if i < 0 || i >= facts.len() {
        Ok(())
    } else {
        match facts[i].str_at("memberAlias"@) {
            None => refused("thread fact has no member provenance"@),
            Some(alias) => match facts[i].str_at("compilation"@) {
                None => refused("thread fact has no compilation provenance"@),
                Some(compilation) => match record_at::<ThreadMemberContextBinding>(known, alias) {
                    None => refused("thread fact provenance is invalid"@),
                    Some(member) => if member.compilations.contains(compilation) {
                        facts_checked(known, facts, i + 1)
                    } else {
                        refused("thread fact provenance is invalid"@)
                    },
                },
            },
        }
    }
}

fn check_facts(known: &Vec<ThreadMemberContextBinding>, facts: &Vec<Json>) -> (r: Result<
    (),
    ClewError,
>)
    ensures
        outcome(r) == facts_checked(known.deep_view(), facts.deep_view(), 0),
{
    let ghost k = known.deep_view();
    let ghost m = facts.deep_view();
    let mut i: usize = 0;
    while i < facts.len()
        invariant
            i <= facts.len(),
            k == known.deep_view(),
            m == facts.deep_view(),
            facts_checked(k, m, 0) == facts_checked(k, m, i as int),
        decreases facts.len() - i,
    {
        assert(m[i as int] == facts@[i as int].deep_view());
        let alias = match facts[i].str_at("memberAlias") {
            Some(alias) => alias,
            None => {
                return Err(invalid("thread fact has no member provenance"));
            },
        };
        let compilation = match facts[i].str_at("compilation") {
            Some(compilation) => compilation,
            None => {
                return Err(invalid("thread fact has no compilation provenance"));
            },
        };
        let valid = match find_record(known, alias.as_str()) {
            Some(member) => contains_string(&member.compilations, compilation.as_str()),
            None => false,
        };
        if !valid {
            return Err(invalid("thread fact provenance is invalid"));
        }
        i = i + 1;
    }
    Ok(())
}

/// The texts of a list from one on, behind some.
pub open spec fn texts_from(items: Seq<JsonModel>, before: Seq<Seq<char>>, i: int) -> Result<
    Seq<Seq<char>>,
    ErrorModel,
>
    decreases items.len() - i,
{
    if i < 0 || i >= items.len() {
        Ok(before)
    } else {
        match items[i].as_str() {
            None => refused("thread source compilation is invalid"@),
            Some(text) => texts_from(items, before.push(text), i + 1),
        }
    }
}

fn texts_of(items: &Vec<Json>) -> (r: Result<Vec<String>, ClewError>)
    ensures
        outcome(r) == texts_from(items.deep_view(), Seq::empty(), 0),
{
    let ghost m = items.deep_view();
    let mut texts: Vec<String> = Vec::new();
    let mut i: usize = 0;
    assert(texts.deep_view() =~= Seq::empty());
    while i < items.len()
        invariant
            i <= items.len(),
            m == items.deep_view(),
            texts_from(m, Seq::empty(), 0) == texts_from(m, texts.deep_view(), i as int),
        decreases items.len() - i,
    {
        assert(m[i as int] == items@[i as int].deep_view());
        match items[i].as_str() {
            Some(text) => {
                let ghost before = texts.deep_view();
                texts.push(text.clone());
                assert(texts.deep_view() =~= before.push(text@));
            },
            None => {
                return Err(invalid("thread source compilation is invalid"));
            },
        }
        i = i + 1;
    }
    Ok(texts)
}

/// The bytes of text of windows from one on, added to a number.
pub open spec fn window_bytes(
    windows: Seq<JsonModel>,
    max_snippet_bytes: usize,
    bytes: usize,
    i: int,
) -> Result<usize, ErrorModel>
    decreases windows.len() - i,
{
    if i < 0 || i >= windows.len() {
        Ok(bytes)
    } else {
        match windows[i].str_at("text"@) {
            None => refused("thread source window text is invalid"@),
            Some(text) => {
                let size = vstd::utf8::encode_utf8(text).len();
                if size > max_snippet_bytes {
                    refused("thread source snippet budget is invalid"@)
                } else {
                    window_bytes(
                        windows,
                        max_snippet_bytes,
                        bounded_sum(bytes, size as usize),
                        i + 1,
                    )
                }
            },
        }
    }
}

fn count_window_bytes(windows: &Vec<Json>, max_snippet_bytes: usize, start: usize) -> (r: Result<
    usize,
    ClewError,
>)
    ensures
        outcome(r) == window_bytes(windows.deep_view(), max_snippet_bytes, start, 0),
{
    let ghost m = windows.deep_view();
    let mut bytes: usize = start;
    let mut i: usize = 0;
    while i < windows.len()
        invariant
            i <= windows.len(),
            m == windows.deep_view(),
            window_bytes(m, max_snippet_bytes, start, 0) == window_bytes(
                m,
                max_snippet_bytes,
                bytes,
                i as int,
            ),
        decreases windows.len() - i,
    {
        assert(m[i as int] == windows@[i as int].deep_view());
        let text = match windows[i].str_at("text") {
            Some(text) => text,
            None => {
                return Err(invalid("thread source window text is invalid"));
            },
        };
        let size: usize = byte_len(text.as_str());
        if size > max_snippet_bytes {
            return Err(invalid("thread source snippet budget is invalid"));
        }
        bytes = add_bounded(bytes, size);
        i = i + 1;
    }
    Ok(bytes)
}

/// Whether each of some texts is one of others.
pub open spec fn all_among(names: Seq<Seq<char>>, others: Seq<Seq<char>>) -> bool {
    forall|i: int| 0 <= i < names.len() ==> others.contains(#[trigger] names[i])
}

fn each_among(names: &Vec<String>, others: &Vec<String>) -> (r: bool)
    ensures
        r == all_among(names.deep_view(), others.deep_view()),
{
    let ghost m = names.deep_view();
    let mut i: usize = 0;
    while i < names.len()
        invariant
            i <= names.len(),
            m == names.deep_view(),
            forall|k: int| 0 <= k < i ==> others.deep_view().contains(#[trigger] m[k]),
        decreases names.len() - i,
    {
        assert(m[i as int] == names@[i as int]@);
        if !contains_string(others, names[i].as_str()) {
            return false;
        }
        i = i + 1;
    }
    true
}

/// The windows and bytes of a source, added to others, where it is of a member and
/// some of its compilations.
pub open spec fn source_counted(
    known: Seq<ThreadMemberContextBindingModel>,
    source: JsonModel,
    max_snippet_bytes: usize,
    windows_so_far: usize,
    bytes_so_far: usize,
) -> Result<(usize, usize), ErrorModel> {
    match source.str_at("memberAlias"@) {
        None => refused("thread source has no member provenance"@),
        Some(alias) => match source.array_at("compilations"@) {
            None => refused("thread source has no compilation provenance"@),
            Some(compilations) => match source.array_at("windows"@) {
                None => refused("thread source windows are invalid"@),
                Some(windows) => match record_at::<ThreadMemberContextBinding>(known, alias) {
                    None => refused("thread source member provenance is invalid"@),
                    Some(member) => match texts_from(compilations, Seq::empty(), 0) {
                        Err(e) => Err(e),
                        Ok(names) => if names.len() == 0 || !is_increasing(names) || !all_among(
                            names,
                            member.compilations,
                        ) || windows.len() == 0 {
                            refused("thread source compilation provenance is invalid"@)
                        } else {
                            match window_bytes(windows, max_snippet_bytes, bytes_so_far, 0) {
                                Err(e) => Err(e),
                                Ok(bytes) => Ok(
                                    (bounded_sum(windows_so_far, windows.len() as usize), bytes),
                                ),
                            }
                        },
                    },
                },
            },
        },
    }
}

fn count_source(
    known: &Vec<ThreadMemberContextBinding>,
    source: &Json,
    max_snippet_bytes: usize,
    windows_so_far: usize,
    bytes_so_far: usize,
) -> (r: Result<(usize, usize), ClewError>)
    ensures
        outcome(r) == source_counted(
            known.deep_view(),
            source.deep_view(),
            max_snippet_bytes,
            windows_so_far,
            bytes_so_far,
        ),
{
    let alias = match source.str_at("memberAlias") {
        Some(alias) => alias,
        None => {
            return Err(invalid("thread source has no member provenance"));
        },
    };
    let compilations = match source.array_at("compilations") {
        Some(compilations) => compilations,
        None => {
            return Err(invalid("thread source has no compilation provenance"));
        },
    };
    let windows = match source.array_at("windows") {
        Some(windows) => windows,
        None => {
            return Err(invalid("thread source windows are invalid"));
        },
    };
    let member = match find_record(known, alias.as_str()) {
        Some(member) => member,
        None => {
            return Err(invalid("thread source member provenance is invalid"));
        },
    };
    let names = texts_of(compilations)?;
    if names.len() == 0 || !increasing(&names) || !each_among(&names, &member.compilations)
        || windows.len() == 0 {
        return Err(invalid("thread source compilation provenance is invalid"));
    }
    let bytes: usize = count_window_bytes(windows, max_snippet_bytes, bytes_so_far)?;
    Ok((add_bounded(windows_so_far, windows.len()), bytes))
}

/// The windows and bytes of the sources of a context from one on, added to others.
pub open spec fn sources_counted(
    known: Seq<ThreadMemberContextBindingModel>,
    sources: Seq<JsonModel>,
    max_snippet_bytes: usize,
    windows: usize,
    bytes: usize,
    i: int,
) -> Result<(usize, usize), ErrorModel>
    decreases sources.len() - i,
{
    if i < 0 || i >= sources.len() {
        Ok((windows, bytes))
    } else {
        match source_counted(known, sources[i], max_snippet_bytes, windows, bytes) {
            Err(e) => Err(e),
            Ok((w, b)) => sources_counted(known, sources, max_snippet_bytes, w, b, i + 1),
        }
    }
}

fn count_sources(
    known: &Vec<ThreadMemberContextBinding>,
    sources: &Vec<Json>,
    max_snippet_bytes: usize,
) -> (r: Result<(usize, usize), ClewError>)
    ensures
        outcome(r) == sources_counted(
            known.deep_view(),
            sources.deep_view(),
            max_snippet_bytes,
            0,
            0,
            0,
        ),
{
    let ghost k = known.deep_view();
    let ghost m = sources.deep_view();
    let mut windows: usize = 0;
    let mut bytes: usize = 0;
    let mut i: usize = 0;
    while i < sources.len()
        invariant
            i <= sources.len(),
            k == known.deep_view(),
            m == sources.deep_view(),
            sources_counted(k, m, max_snippet_bytes, 0, 0, 0) == sources_counted(
                k,
                m,
                max_snippet_bytes,
                windows,
                bytes,
                i as int,
            ),
        decreases sources.len() - i,
    {
        assert(m[i as int] == sources@[i as int].deep_view());
        let (w, b) = count_source(known, &sources[i], max_snippet_bytes, windows, bytes)?;
        windows = w;
        bytes = b;
        i = i + 1;
    }
    Ok((windows, bytes))
}

/// Whether a row is that of a member.
pub open spec fn row_agrees(row: JsonModel, b: ThreadMemberContextBindingModel) -> bool {
    row.str_at("serviceAlias"@) == Some(b.service_alias) && row.str_at("sessionId"@) == Some(
        b.session_id,
    ) && row.str_at("contextId"@) == Some(b.context_id)
}

fn agreeing_row(row: &Json, b: &ThreadMemberContextBinding) -> (r: bool)
    ensures
        r == row_agrees(row.deep_view(), b.deep_view()),
{
    says(row.str_at("serviceAlias"), b.service_alias.as_str()) && says(
        row.str_at("sessionId"),
        b.session_id.as_str(),
    ) && says(row.str_at("contextId"), b.context_id.as_str())
}

/// Whether each row of how complete the members are is that of its member.
pub open spec fn rows_agree(
    rows: Seq<JsonModel>,
    members: Seq<ThreadMemberContextBindingModel>,
) -> bool {
    forall|i: int|
        0 <= i < rows.len() && i < members.len() ==> (#[trigger] rows[i]).str_at("memberAlias"@)
            == Some(members[i].member_alias) && row_agrees(rows[i], members[i])
}

fn agreeing_rows(rows: &Vec<Json>, members: &Vec<ThreadMemberContextBinding>) -> (r: bool)
    ensures
        r == rows_agree(rows.deep_view(), members.deep_view()),
{
    let ghost m = rows.deep_view();
    let ghost b = members.deep_view();
    let mut i: usize = 0;
    while i < rows.len() && i < members.len()
        invariant
            i <= rows.len(),
            i <= members.len(),
            m == rows.deep_view(),
            b == members.deep_view(),
            forall|k: int|
                0 <= k < i ==> (#[trigger] m[k]).str_at("memberAlias"@) == Some(b[k].member_alias)
                    && row_agrees(m[k], b[k]),
        decreases rows.len() - i,
    {
        assert(m[i as int] == rows@[i as int].deep_view());
        assert(b[i as int] == members@[i as int].deep_view());
        if !says(rows[i].str_at("memberAlias"), members[i].member_alias.as_str()) || !agreeing_row(
            &rows[i],
            &members[i],
        ) {
            assert(!rows_agree(m, b)) by {
                assert(m[i as int].str_at("memberAlias"@) != Some(b[i as int].member_alias)
                    || !row_agrees(m[i as int], b[i as int]));
            }
            return false;
        }
        i = i + 1;
    }
    true
}

/// The outcome for the obligations of a context from one on: each is of a member.
pub open spec fn obligations_checked(
    known: Seq<ThreadMemberContextBindingModel>,
    rows: Seq<JsonModel>,
    i: int,
) -> Result<(), ErrorModel>
    decreases rows.len() - i,
{
    if i < 0 || i >= rows.len() {
        Ok(())
    } else {
        match rows[i].str_at("memberAlias"@) {
            None => refused("thread obligation has no member provenance"@),
            Some(alias) => match record_at::<ThreadMemberContextBinding>(known, alias) {
                None => refused("thread obligation member provenance is invalid"@),
                Some(binding) => if row_agrees(rows[i], binding) && rows[i].get("obligation"@)
                    is Some {
                    obligations_checked(known, rows, i + 1)
                } else {
                    refused("thread obligation provenance is invalid"@)
                },
            },
        }
    }
}

fn check_obligations(known: &Vec<ThreadMemberContextBinding>, rows: &Vec<Json>) -> (r: Result<
    (),
    ClewError,
>)
    ensures
        outcome(r) == obligations_checked(known.deep_view(), rows.deep_view(), 0),
{
    let ghost k = known.deep_view();
    let ghost m = rows.deep_view();
    let mut i: usize = 0;
    while i < rows.len()
        invariant
            i <= rows.len(),
            k == known.deep_view(),
            m == rows.deep_view(),
            obligations_checked(k, m, 0) == obligations_checked(k, m, i as int),
        decreases rows.len() - i,
    {
        assert(m[i as int] == rows@[i as int].deep_view());
        let alias = match rows[i].str_at("memberAlias") {
            Some(alias) => alias,
            None => {
                return Err(invalid("thread obligation has no member provenance"));
            },
        };
        let binding = match find_record(known, alias.as_str()) {
            Some(binding) => binding,
            None => {
                return Err(invalid("thread obligation member provenance is invalid"));
            },
        };
        if !agreeing_row(&rows[i], binding) || rows[i].get("obligation").is_none() {
            return Err(invalid("thread obligation provenance is invalid"));
        }
        i = i + 1;
    }
    Ok(())
}

/// Whether a window of one of some sources is left out.
pub open spec fn any_source_truncated(sources: Seq<JsonModel>) -> bool {
    exists|i: int|
        0 <= i < sources.len() && (#[trigger] sources[i]).bool_at("threadTruncated"@) == Some(true)
}

fn has_truncated_source(sources: &Vec<Json>) -> (r: bool)
    ensures
        r == any_source_truncated(sources.deep_view()),
{
    let ghost m = sources.deep_view();
    let mut i: usize = 0;
    while i < sources.len()
        invariant
            i <= sources.len(),
            m == sources.deep_view(),
            forall|k: int|
                0 <= k < i ==> (#[trigger] m[k]).bool_at("threadTruncated"@) != Some(true),
        decreases sources.len() - i,
    {
        assert(m[i as int] == sources@[i as int].deep_view());
        match sources[i].bool_at("threadTruncated") {
            Some(true) => {
                return true;
            },
            _ => {},
        }
        i = i + 1;
    }
    false
}

/// What a selection counts.
pub struct Counts {
    pub available_facts: usize,
    pub selected_facts: usize,
    pub available_sources: usize,
    pub selected_sources: usize,
}

impl DeepView for Counts {
    type V = Counts;

    open spec fn deep_view(&self) -> Counts {
        *self
    }
}

/// What the selection of some evidence counts.
pub open spec fn selection_counts(evidence: JsonModel) -> Result<Counts, ErrorModel> {
    match evidence.get("selection"@) {
        Some(JsonModel::Obj(m)) => {
            let selection = JsonModel::Obj(m);
            match count_at(selection, "availableFacts"@) {
                Err(e) => Err(e),
                Ok(available_facts) => match count_at(selection, "selectedFacts"@) {
                    Err(e) => Err(e),
                    Ok(selected_facts) => match count_at(selection, "availableSources"@) {
                        Err(e) => Err(e),
                        Ok(available_sources) => match count_at(selection, "selectedSources"@) {
                            Err(e) => Err(e),
                            Ok(selected_sources) => Ok(
                                Counts {
                                    available_facts,
                                    selected_facts,
                                    available_sources,
                                    selected_sources,
                                },
                            ),
                        },
                    },
                },
            }
        },
        _ => refused("thread selection authority is invalid"@),
    }
}

fn counts_of_selection(evidence: &Json) -> (r: Result<Counts, ClewError>)
    ensures
        outcome(r) == selection_counts(evidence.deep_view()),
{
    let selection = match evidence.get("selection") {
        Some(selection) => selection,
        None => {
            return Err(invalid("thread selection authority is invalid"));
        },
    };
    match selection {
        Json::Obj(_) => {},
        _ => {
            return Err(invalid("thread selection authority is invalid"));
        },
    }
    let available_facts: usize = usize_field(selection, "availableFacts")?;
    let selected_facts: usize = usize_field(selection, "selectedFacts")?;
    let available_sources: usize = usize_field(selection, "availableSources")?;
    let selected_sources: usize = usize_field(selection, "selectedSources")?;
    Ok(Counts { available_facts, selected_facts, available_sources, selected_sources })
}

/// The outcome for the facts and the sources of a context, with what its selection
/// counts.
#[verifier::opaque]
pub open spec fn selection_checked(
    a: ThreadContextAuthorityModel,
    evidence: JsonModel,
) -> Result<Counts, ErrorModel> {
    let known = last_table::<ThreadMemberContextBinding>(a.members);
    match evidence.array_at("matches"@) {
        None => refused("thread context facts are invalid"@),
        Some(matches) => if matches.len() > a.budgets.max_facts {
            refused("thread context fact budget is invalid"@)
        } else {
            match selection_counts(evidence) {
                Err(e) => Err(e),
                Ok(counts) => if counts.selected_facts != matches.len() || counts.selected_facts
                    > counts.available_facts {
                    refused("thread fact selection authority is invalid"@)
                } else {
                    match facts_checked(known, matches, 0) {
                        Err(e) => Err(e),
                        Ok(_) => match evidence.array_at("sources"@) {
                            None => refused("thread context sources are invalid"@),
                            Some(sources) => match sources_counted(
                                known,
                                sources,
                                a.budgets.max_snippet_bytes,
                                0,
                                0,
                                0,
                            ) {
                                Err(e) => Err(e),
                                Ok((windows, bytes)) => match source_budget_checked(
                                    a.budgets,
                                    windows,
                                    bytes,
                                ) {
                                    Err(e) => Err(e),
                                    Ok(_) => if counts.selected_sources != sources.len()
                                        || counts.selected_sources > counts.available_sources {
                                        refused("thread source selection authority is invalid"@)
                                    } else {
                                        Ok(counts)
                                    },
                                },
                            },
                        },
                    }
                },
            }
        },
    }
}

fn check_selection(a: &ThreadContextAuthority, evidence: &Json) -> (r: Result<Counts, ClewError>)
    ensures
        outcome(r) == selection_checked(a.deep_view(), evidence.deep_view()),
{
    proof {
        reveal(selection_checked);
    }
    let known = latest_table_of(&a.members);
    let matches = match evidence.array_at("matches") {
        Some(matches) => matches,
        None => {
            return Err(invalid("thread context facts are invalid"));
        },
    };
    if matches.len() > a.budgets.max_facts {
        return Err(invalid("thread context fact budget is invalid"));
    }
    let counts = counts_of_selection(evidence)?;
    if counts.selected_facts != matches.len() || counts.selected_facts > counts.available_facts {
        return Err(invalid("thread fact selection authority is invalid"));
    }
    check_facts(&known, matches)?;
    let sources = match evidence.array_at("sources") {
        Some(sources) => sources,
        None => {
            return Err(invalid("thread context sources are invalid"));
        },
    };
    let (windows, bytes) = count_sources(&known, sources, a.budgets.max_snippet_bytes)?;
    validate_source_budget(&a.budgets, windows, bytes)?;
    if counts.selected_sources != sources.len() || counts.selected_sources
        > counts.available_sources {
        return Err(invalid("thread source selection authority is invalid"));
    }
    Ok(counts)
}

/// The outcome for what a context says about its members and about what is left out.
#[verifier::opaque]
pub open spec fn claims_checked(
    a: ThreadContextAuthorityModel,
    projection: JsonModel,
    evidence: JsonModel,
    counts: Counts,
) -> Result<(), ErrorModel> {
    let known = last_table::<ThreadMemberContextBinding>(a.members);
    let sources = match evidence.array_at("sources"@) {
        Some(sources) => sources,
        None => Seq::empty(),
    };
    match evidence.array_at("memberCompleteness"@) {
        None => refused("thread member completeness is invalid"@),
        Some(rows) => if rows.len() != a.members.len() {
            refused("thread member completeness set is incomplete"@)
        } else if !rows_agree(rows, a.members) {
            refused("thread member completeness provenance is invalid"@)
        } else {
            match evidence.array_at("verificationObligations"@) {
                None => refused("thread verification obligations are invalid"@),
                Some(obligations) => match obligations_checked(known, obligations, 0) {
                    Err(e) => Err(e),
                    Ok(_) => match truncation_said(evidence) {
                        None => refused("thread selection authority is invalid"@),
                        Some(truncated) => if !truncated && (counts.selected_facts
                            < counts.available_facts || counts.selected_sources
                            < counts.available_sources || any_source_truncated(sources)) {
                            refused("thread selection truncation authority is invalid"@)
                        } else {
                            match projection.bool_at("truncated"@) {
                                None => refused(
                                    "thread projection truncation authority is invalid"@,
                                ),
                                Some(shown) => if truncated && !shown {
                                    refused("thread projection hides evidence truncation"@)
                                } else if projection.u64_at("obligationCount"@) != Some(
                                    obligations.len() as u64,
                                ) {
                                    refused("thread projection obligation count is invalid"@)
                                } else {
                                    match completeness_aggregated(rows, truncated) {
                                        Err(e) => Err(e),
                                        Ok(completeness) => if evidence.get("completeness"@)
                                            != Some(completeness) || or_null(
                                            evidence.get("publicationPolicy"@),
                                        ).str_at("mode"@) != Some("READ_ONLY"@) {
                                            refused(
                                                "thread completeness or publication policy is invalid"@,
                                            )
                                        } else {
                                            Ok(())
                                        },
                                    }
                                },
                            }
                        },
                    },
                },
            }
        },
    }
}

fn check_claims(
    a: &ThreadContextAuthority,
    projection: &Json,
    evidence: &Json,
    counts: &Counts,
) -> (r: Result<(), ClewError>)
    ensures
        outcome(r) == claims_checked(
            a.deep_view(),
            projection.deep_view(),
            evidence.deep_view(),
            counts.deep_view(),
        ),
{
    proof {
        reveal(claims_checked);
    }
    let known = latest_table_of(&a.members);
    let rows = match evidence.array_at("memberCompleteness") {
        Some(rows) => rows,
        None => {
            return Err(invalid("thread member completeness is invalid"));
        },
    };
    if rows.len() != a.members.len() {
        return Err(invalid("thread member completeness set is incomplete"));
    }
    if !agreeing_rows(rows, &a.members) {
        return Err(invalid("thread member completeness provenance is invalid"));
    }
    let obligations = match evidence.array_at("verificationObligations") {
        Some(obligations) => obligations,
        None => {
            return Err(invalid("thread verification obligations are invalid"));
        },
    };
    check_obligations(&known, obligations)?;
    let truncated = match says_truncated(evidence) {
        Some(truncated) => truncated,
        None => {
            return Err(invalid("thread selection authority is invalid"));
        },
    };
    let cut = match evidence.array_at("sources") {
        Some(sources) => has_truncated_source(sources),
        None => false,
    };
    if !truncated && (counts.selected_facts < counts.available_facts || counts.selected_sources
        < counts.available_sources || cut) {
        return Err(invalid("thread selection truncation authority is invalid"));
    }
    let shown = match projection.bool_at("truncated") {
        Some(shown) => shown,
        None => {
            return Err(invalid("thread projection truncation authority is invalid"));
        },
    };
    if truncated && !shown {
        return Err(invalid("thread projection hides evidence truncation"));
    }
    let counted = match projection.u64_at("obligationCount") {
        Some(count) => count == obligations.len() as u64,
        None => false,
    };
    if !counted {
        return Err(invalid("thread projection obligation count is invalid"));
    }
    let completeness = aggregate_completeness(rows, truncated)?;
    if !says_value(evidence.get("completeness"), &completeness) || !says(
        member_or_null(evidence, "publicationPolicy").str_at("mode"),
        "READ_ONLY",
    ) {
        return Err(invalid("thread completeness or publication policy is invalid"));
    }
    Ok(())
}

/// The outcome for what is shown and the evidence of a context: they are bound to its
/// authority, what they say of each other holds, and what is shown is what the
/// evidence gives.
pub open spec fn payload_checked(
    thread: ThreadAuthorityModel,
    a: ThreadContextAuthorityModel,
    context_id: Seq<char>,
    projection: JsonModel,
    evidence: JsonModel,
) -> Result<(), ErrorModel> {
    if !payload_agrees(thread, a, context_id, projection, evidence) {
        refused("thread context payload authority is invalid"@)
    } else {
        match evidence_size_checked(size_of(evidence)) {
            Err(e) => Err(e),
            Ok(_) => if reference_to(THREAD_CONTEXT_EVIDENCE_SCHEMA@, canonical_bytes(evidence))
                != a.evidence_ref {
                refused("thread context evidence binding is invalid"@)
            } else {
                match selection_checked(a, evidence) {
                    Err(e) => Err(e),
                    Ok(counts) => match claims_checked(a, projection, evidence, counts) {
                        Err(e) => Err(e),
                        Ok(_) => match projection_bounded(
                            thread,
                            a,
                            context_id,
                            evidence,
                            items_at(evidence, "matches"@),
                            items_at(evidence, "sources"@),
                        ) {
                            Err(e) => Err(e),
                            Ok(expected) => if canonical_bytes(projection) != canonical_bytes(
                                expected,
                            ) {
                                refused(
                                    "thread projection differs from deterministic evidence projection"@,
                                )
                            } else {
                                Ok(())
                            },
                        },
                    },
                }
            },
        }
    }
}

/// The items of a list, or none.
pub open spec fn items_at(value: JsonModel, key: Seq<char>) -> Seq<JsonModel> {
    match value.array_at(key) {
        Some(items) => items,
        None => Seq::empty(),
    }
}

fn items_or_none(value: &Json, key: &str) -> (r: Vec<Json>)
    ensures
        r.deep_view() == items_at(value.deep_view(), key@),
{
    match value.array_at(key) {
        Some(items) => items.copied(),
        None => {
            let nothing: Vec<Json> = Vec::new();
            assert(nothing.deep_view() =~= Seq::empty());
            nothing
        },
    }
}

/// Checks what is shown and the evidence of a context.
pub fn validate_payload(
    thread: &ThreadAuthority,
    a: &ThreadContextAuthority,
    context_id: &str,
    projection: &Json,
    evidence: &Json,
) -> (r: Result<(), ClewError>)
    ensures
        outcome(r) == payload_checked(
            thread.deep_view(),
            a.deep_view(),
            context_id@,
            projection.deep_view(),
            evidence.deep_view(),
        ),
{
    if !agreeing_payload(thread, a, context_id, projection, evidence) {
        return Err(invalid("thread context payload authority is invalid"));
    }
    let bytes = evidence.bytes();
    validate_evidence_bytes(&bytes)?;
    if !CasObject::for_bytes(THREAD_CONTEXT_EVIDENCE_SCHEMA, bytes.as_slice()).same_as(
        &a.evidence_ref,
    ) {
        return Err(invalid("thread context evidence binding is invalid"));
    }
    let counts = check_selection(a, evidence)?;
    check_claims(a, projection, evidence, &counts)?;
    let expected = bounded_projection(
        thread,
        a,
        context_id,
        evidence,
        &items_or_none(evidence, "matches"),
        &items_or_none(evidence, "sources"),
    )?;
    if !same_bytes(projection.bytes().as_slice(), expected.bytes().as_slice()) {
        return Err(invalid("thread projection differs from deterministic evidence projection"));
    }
    Ok(())
}

/// What is printed of a context.
#[verifier::opaque]
pub open spec fn printed(c: ThreadContextObjectModel) -> JsonModel {
    JsonModel::object().with("schema"@, JsonModel::Str(THREAD_CONTEXT_RESULT_SCHEMA@)).with(
        "threadId"@,
        JsonModel::Str(c.authority.thread_id),
    ).with("threadAuthorityDigest"@, JsonModel::Str(c.authority.thread_authority_digest)).with(
        "contextId"@,
        JsonModel::Str(c.context_id),
    ).with("contextAuthorityDigest"@, JsonModel::Str(c.authority.authority_digest)).with(
        "evidenceDigest"@,
        JsonModel::Str(c.evidence_digest),
    ).with("evidenceRef"@, <CasObject as Record>::json(c.evidence_ref)).with(
        "context"@,
        c.projection,
    )
}

/// What is printed of a context, where it fits with a line end.
pub open spec fn stdout_bounded(c: ThreadContextObjectModel) -> Result<JsonModel, ErrorModel> {
    match stdout_size_checked(size_of(printed(c))) {
        Err(e) => Err(e),
        Ok(_) => Ok(printed(c)),
    }
}

/// What is printed of a context.
pub fn bounded_thread_context_stdout(context: &ThreadContextObject) -> (r: Result<Json, ClewError>)
    ensures
        outcome(r) == stdout_bounded(context.deep_view()),
{
    proof {
        reveal(printed);
    }
    let summary = Json::object().with(
        "schema",
        Json::Str(THREAD_CONTEXT_RESULT_SCHEMA.to_owned()),
    ).with("threadId", Json::Str(context.authority.thread_id.clone())).with(
        "threadAuthorityDigest",
        Json::Str(context.authority.thread_authority_digest.clone()),
    ).with("contextId", Json::Str(context.context_id.clone())).with(
        "contextAuthorityDigest",
        Json::Str(context.authority.authority_digest.clone()),
    ).with("evidenceDigest", Json::Str(context.evidence_digest.clone())).with(
        "evidenceRef",
        context.evidence_ref.to_json(),
    ).with("context", context.projection.copied());
    validate_stdout_bytes(&summary.bytes())?;
    Ok(summary)
}

/// A context of some parts.
pub open spec fn object_of(
    a: ThreadContextAuthorityModel,
    evidence: JsonModel,
    projection: JsonModel,
) -> ThreadContextObjectModel {
    ThreadContextObjectModel {
        schema: THREAD_CONTEXT_SCHEMA@,
        context_id: context_id_of(a),
        authority: a,
        evidence_digest: a.evidence_digest,
        evidence_ref: a.evidence_ref,
        projection,
        evidence,
    }
}

/// The context that is to be stored, where all its parts are valid and it can be
/// printed, given what verifying the thread and checking the request refused, if anything.
pub open spec fn stored(
    thread: ThreadAuthorityModel,
    verified: Option<ErrorModel>,
    a: ThreadContextAuthorityModel,
    request: Option<ErrorModel>,
    evidence: JsonModel,
    projection: JsonModel,
) -> Result<ThreadContextObjectModel, ErrorModel> {
    match accepted(verified) {
        Err(e) => Err(e),
        Ok(_) => match authority_checked(thread, a, request) {
            Err(e) => Err(e),
            Ok(_) => match evidence_size_checked(size_of(evidence)) {
                Err(e) => Err(e),
                Ok(_) => if reference_to(THREAD_CONTEXT_EVIDENCE_SCHEMA@, canonical_bytes(evidence))
                    != a.evidence_ref {
                    refused("thread context evidence differs from its bound authority"@)
                } else {
                    match payload_checked(thread, a, context_id_of(a), projection, evidence) {
                        Err(e) => Err(e),
                        Ok(_) => match stdout_bounded(object_of(a, evidence, projection)) {
                            Err(e) => Err(e),
                            Ok(_) => Ok(object_of(a, evidence, projection)),
                        },
                    }
                },
            },
        },
    }
}

/// Checks a context before anything of it is stored, given what verifying the thread and
/// checking the request refused, if anything.
pub fn store(
    thread: &ThreadAuthority,
    verified: &Option<ClewError>,
    authority: ThreadContextAuthority,
    request: &Option<ClewError>,
    evidence: Json,
    projection: Json,
) -> (r: Result<ThreadContextObject, ClewError>)
    ensures
        outcome(r) == stored(
            thread.deep_view(),
            verified.deep_view(),
            authority.deep_view(),
            request.deep_view(),
            evidence.deep_view(),
            projection.deep_view(),
        ),
        r is Ok ==> r->Ok_0.authority.authority_digest@ == authority.authority_digest@,
{
    accept(verified)?;
    validate_authority(thread, &authority, request)?;
    let context_id = joined("thread-context:", authority.authority_digest.as_str());
    let bytes = evidence.bytes();
    validate_evidence_bytes(&bytes)?;
    if !CasObject::for_bytes(THREAD_CONTEXT_EVIDENCE_SCHEMA, bytes.as_slice()).same_as(
        &authority.evidence_ref,
    ) {
        return Err(invalid("thread context evidence differs from its bound authority"));
    }
    validate_payload(thread, &authority, context_id.as_str(), &projection, &evidence)?;
    let object = ThreadContextObject {
        schema: THREAD_CONTEXT_SCHEMA.to_owned(),
        context_id,
        evidence_digest: authority.evidence_digest.clone(),
        evidence_ref: authority.evidence_ref.copied(),
        authority,
        projection,
        evidence,
    };
    bounded_thread_context_stdout(&object)?;
    Ok(object)
}

/// The outcome for the reference that storing the evidence gave.
pub fn confirm_stored(evidence_ref: &CasObject, object: &ThreadContextObject) -> (r: Result<
    (),
    ClewError,
>)
    ensures
        outcome(r) == (if evidence_ref.deep_view() == object.deep_view().authority.evidence_ref {
            Ok(())
        } else {
            broken("CAS returned a different thread evidence identity"@)
        }),
{
    if evidence_ref.same_as(&object.authority.evidence_ref) {
        Ok(())
    } else {
        Err(internal("CAS returned a different thread evidence identity"))
    }
}

/// The bytes of a session.
#[verifier::opaque]
pub open spec fn session_bytes(s: SessionAuthorityModel) -> Seq<u8> {
    canonical_bytes(<SessionAuthority as Record>::json(s))
}

/// The outcome for the session of a member that was loaded again.
pub fn check_session(loaded: &SessionAuthority, member: &ThreadMemberBinding) -> (r: Result<
    (),
    ClewError,
>)
    ensures
        outcome(r) == (if session_bytes(loaded.deep_view()) == session_bytes(
            member.deep_view().session,
        ) {
            Ok(())
        } else {
            refused("thread member session authority changed"@)
        }),
{
    proof {
        reveal(session_bytes);
    }
    if !same_bytes(
        loaded.to_json().bytes().as_slice(),
        member.session.to_json().bytes().as_slice(),
    ) {
        return Err(invalid("thread member session authority changed"));
    }
    Ok(())
}

/// The context that is to be stored for a task of a thread, given what verifying the thread
/// and checking the request refused, if anything.
pub open spec fn context_created(
    thread: ThreadAuthorityModel,
    verified: Option<ErrorModel>,
    intent: Seq<char>,
    terms: Seq<Seq<char>>,
    max_roots: usize,
    member_contexts: Seq<MemberContextModel>,
    request: RequestChecksModel,
) -> Result<ThreadContextObjectModel, ErrorModel> {
    match accepted(request.given) {
        Err(e) => Err(e),
        Ok(_) => match accepted(verified) {
            Err(e) => Err(e),
            Ok(_) => match budgets_made(max_roots) {
                Err(e) => Err(e),
                Ok(budgets) => match composed(
                    thread,
                    intent,
                    terms,
                    budgets,
                    member_contexts,
                    request,
                ) {
                    Err(e) => Err(e),
                    Ok((a, evidence, projection)) => stored(
                        thread,
                        verified,
                        a,
                        request.bound,
                        evidence,
                        projection,
                    ),
                },
            },
        },
    }
}

/// Puts a context together for a task of a thread, from what its members contribute,
/// and checks it before anything of it is stored. What verifying the thread and checking
/// the request refused, if anything, is given.
pub fn create(
    thread: &ThreadAuthority,
    verified: &Option<ClewError>,
    intent: &str,
    terms: &Vec<String>,
    max_roots: usize,
    member_contexts: &Vec<MemberContext>,
    request: &RequestChecks,
) -> (r: Result<ThreadContextObject, ClewError>)
    ensures
        outcome(r) == context_created(
            thread.deep_view(),
            verified.deep_view(),
            intent@,
            terms.deep_view(),
            max_roots,
            member_contexts.deep_view(),
            request.deep_view(),
        ),
        r is Ok ==> is_digest(r->Ok_0.authority.authority_digest@),
{
    accept(&request.given)?;
    accept(verified)?;
    let budgets = ThreadContextBudgets::new(max_roots)?;
    let (authority, evidence, projection) = compose(
        thread,
        intent,
        terms,
        &budgets,
        member_contexts,
        request,
    )?;
    store(thread, verified, authority, &request.bound, evidence, projection)
}

/// The bytes of the record of a context.
#[verifier::opaque]
pub open spec fn object_bytes_of(c: ThreadContextObjectModel) -> Seq<u8> {
    canonical_bytes(<ThreadContextObject as Record>::json(c))
}

/// Writes the record of a context.
pub fn write_object(c: &ThreadContextObject) -> (r: Vec<u8>)
    ensures
        r@ == object_bytes_of(c.deep_view()),
{
    proof {
        reveal(object_bytes_of);
    }
    c.to_json().bytes()
}

/// What was read of a retained context: the bytes of its record and the record that
/// they hold, what checking the request of the record refused, if anything, the evidence
/// that its object holds, and the objects.
pub struct RetainedContext {
    pub bytes: Option<Vec<u8>>,
    pub object: Option<ThreadContextObject>,
    pub request: Option<ClewError>,
    pub evidence: Option<Json>,
    pub reads: Vec<ObjectRead>,
}

/// The model of a [`RetainedContext`].
pub struct RetainedContextModel {
    pub bytes: Option<Seq<u8>>,
    pub object: Option<ThreadContextObjectModel>,
    pub request: Option<ErrorModel>,
    pub evidence: Option<JsonModel>,
    pub reads: Seq<ObjectReadModel>,
}

impl DeepView for RetainedContext {
    type V = RetainedContextModel;

    open spec fn deep_view(&self) -> RetainedContextModel {
        RetainedContextModel {
            bytes: match self.bytes {
                Some(bytes) => Some(bytes@),
                None => None,
            },
            object: self.object.deep_view(),
            request: self.request.deep_view(),
            evidence: self.evidence.deep_view(),
            reads: self.reads.deep_view(),
        }
    }
}

/// The evidence that the object of a record holds, where it was read and holds a value.
pub fn read_evidence(reads: &Vec<ObjectRead>, object: &ThreadContextObject) -> (r: Option<Json>)
    ensures
        r.deep_view() == (match object_bytes(reads.deep_view(), object.deep_view().evidence_ref) {
            Ok(bytes) => crate::owner_identity::parsed_bytes(bytes),
            Err(_) => None,
        }),
{
    match read_object(reads, &object.evidence_ref) {
        Ok(bytes) => crate::owner_identity::parse_bytes(bytes.as_slice()),
        Err(_) => None,
    }
}

/// Whether the parts of a record agree with each other and with an identifier.
pub open spec fn object_agrees(c: ThreadContextObjectModel, context_id: Seq<char>) -> bool {
    c.schema == THREAD_CONTEXT_SCHEMA@ && c.context_id == context_id && c.context_id
        == context_id_of(c.authority) && c.evidence_ref.schema == CAS_OBJECT_SCHEMA@
        && c.evidence_ref.object_schema == THREAD_CONTEXT_EVIDENCE_SCHEMA@ && c.evidence_ref.digest
        == c.evidence_digest && c.evidence_ref == c.authority.evidence_ref && c.evidence_digest
        == c.authority.evidence_digest
}

/// A retained context, where its record is that of the identifier, and its authority,
/// its evidence and what is shown of it are valid.
pub open spec fn context_loaded(
    thread: ThreadAuthorityModel,
    verified: Option<ErrorModel>,
    context_id: Seq<char>,
    retained: RetainedContextModel,
) -> Result<ThreadContextObjectModel, ErrorModel> {
    match accepted(verified) {
        Err(e) => Err(e),
        Ok(_) => match file_named(context_id) {
            Err(e) => Err(e),
            Ok(_) => match retained.bytes {
                None => refused("thread context is missing or exceeds its object limit"@),
                Some(bytes) => if bytes.len() > MAX_THREAD_CONTEXT_OBJECT_BYTES {
                    refused("thread context is missing or exceeds its object limit"@)
                } else {
                    match retained.object {
                        None => refused("thread context object is invalid"@),
                        Some(c) => if object_bytes_of(c) != bytes || !object_agrees(c, context_id) {
                            refused("thread context object authority is invalid"@)
                        } else {
                            match authority_checked(thread, c.authority, retained.request) {
                                Err(e) => Err(e),
                                Ok(_) => evidence_loaded(thread, c, retained),
                            }
                        },
                    }
                },
            },
        },
    }
}

/// A retained context with its evidence, where that is canonical and valid.
pub open spec fn evidence_loaded(
    thread: ThreadAuthorityModel,
    c: ThreadContextObjectModel,
    retained: RetainedContextModel,
) -> Result<ThreadContextObjectModel, ErrorModel> {
    match object_bytes(retained.reads, c.evidence_ref) {
        Err(e) => Err(e),
        Ok(bytes) => match evidence_size_checked(bytes.len()) {
            Err(e) => Err(e),
            Ok(_) => match retained.evidence {
                None => refused("thread context evidence is invalid"@),
                Some(evidence) => if canonical_bytes(evidence) != bytes {
                    refused("thread context evidence is not canonical"@)
                } else {
                    match payload_checked(
                        thread,
                        c.authority,
                        c.context_id,
                        c.projection,
                        evidence,
                    ) {
                        Err(e) => Err(e),
                        Ok(_) => Ok(ThreadContextObjectModel { evidence, ..c }),
                    }
                },
            },
        },
    }
}

fn agreeing_object(c: &ThreadContextObject, context_id: &str) -> (r: bool)
    ensures
        r == object_agrees(c.deep_view(), context_id@),
{
    same_text(c.schema.as_str(), THREAD_CONTEXT_SCHEMA) && same_text(
        c.context_id.as_str(),
        context_id,
    ) && same_text(
        c.context_id.as_str(),
        joined("thread-context:", c.authority.authority_digest.as_str()).as_str(),
    ) && same_text(c.evidence_ref.schema.as_str(), CAS_OBJECT_SCHEMA) && same_text(
        c.evidence_ref.object_schema.as_str(),
        THREAD_CONTEXT_EVIDENCE_SCHEMA,
    ) && c.evidence_ref.digest.same_as(&c.evidence_digest) && c.evidence_ref.same_as(
        &c.authority.evidence_ref,
    ) && c.evidence_digest.same_as(&c.authority.evidence_digest)
}

fn load_evidence(thread: &ThreadAuthority, c: &ThreadContextObject, retained: &RetainedContext) -> (r:
    Result<ThreadContextObject, ClewError>)
    ensures
        outcome(r) == evidence_loaded(thread.deep_view(), c.deep_view(), retained.deep_view()),
{
    let bytes = read_object(&retained.reads, &c.evidence_ref)?;
    validate_evidence_bytes(bytes)?;
    let evidence = match &retained.evidence {
        Some(evidence) => evidence,
        None => {
            return Err(invalid("thread context evidence is invalid"));
        },
    };
    if !same_bytes(evidence.bytes().as_slice(), bytes.as_slice()) {
        return Err(invalid("thread context evidence is not canonical"));
    }
    validate_payload(thread, &c.authority, c.context_id.as_str(), &c.projection, evidence)?;
    let mut loaded = c.copied();
    loaded.evidence = evidence.copied();
    Ok(loaded)
}

impl ThreadContextObject {
    /// Verifies a retained context, given what verifying the thread refused, if anything.
    pub fn load(
        thread: &ThreadAuthority,
        verified: &Option<ClewError>,
        context_id: &str,
        retained: &RetainedContext,
    ) -> (r: Result<ThreadContextObject, ClewError>)
        ensures
            outcome(r) == context_loaded(
                thread.deep_view(),
                verified.deep_view(),
                context_id@,
                retained.deep_view(),
            ),
    {
        accept(verified)?;
        id_filename(context_id)?;
        let bytes = match &retained.bytes {
            Some(bytes) => bytes,
            None => {
                return Err(invalid("thread context is missing or exceeds its object limit"));
            },
        };
        if bytes.len() > MAX_THREAD_CONTEXT_OBJECT_BYTES {
            return Err(invalid("thread context is missing or exceeds its object limit"));
        }
        let c = match &retained.object {
            Some(c) => c,
            None => {
                return Err(invalid("thread context object is invalid"));
            },
        };
        if !same_bytes(write_object(c).as_slice(), bytes.as_slice()) || !agreeing_object(
            c,
            context_id,
        ) {
            return Err(invalid("thread context object authority is invalid"));
        }
        validate_authority(thread, &c.authority, &retained.request)?;
        load_evidence(thread, c, retained)
    }
}

proof fn digest_names_a_file(prefix: Seq<char>, digest: Seq<char>)
    requires
        is_digest(digest),
    ensures
        file_named(prefix + digest) is Ok,
{
    let value = prefix + digest;
    reveal_strlit("sha256:");
    assert(value.skip(value.len() - 71) =~= digest);
    assert(value.subrange(prefix.len() as int, prefix.len() as int + 7) =~= "sha256:"@);
    crate::text::found_where_it_stands(value, "sha256:"@, prefix.len() as int);
}

/// A context that was created loads again from what was retained of it: from the
/// canonical bytes of its record, where they fit, and from its evidence.
pub proof fn created_context_loads(
    thread: ThreadAuthorityModel,
    verified: Option<ErrorModel>,
    intent: Seq<char>,
    terms: Seq<Seq<char>>,
    max_roots: usize,
    member_contexts: Seq<MemberContextModel>,
    request: RequestChecksModel,
    c: ThreadContextObjectModel,
    retained: RetainedContextModel,
)
    requires
        context_created(
            thread,
            verified,
            intent,
            terms,
            max_roots,
            member_contexts,
            request,
        ) == Ok::<ThreadContextObjectModel, ErrorModel>(c),
        retained.request == request.bound,
        is_digest(c.authority.authority_digest),
        retained.object == Some(c),
        retained.bytes == Some(object_bytes_of(c)),
        object_bytes_of(c).len() <= MAX_THREAD_CONTEXT_OBJECT_BYTES,
        retained.evidence == Some(c.evidence),
        object_bytes(retained.reads, c.evidence_ref) == Ok::<Seq<u8>, ErrorModel>(
            canonical_bytes(c.evidence),
        ),
    ensures
        context_loaded(thread, verified, c.context_id, retained) == Ok::<
            ThreadContextObjectModel,
            ErrorModel,
        >(c),
        size_of(c.evidence) <= MAX_THREAD_EVIDENCE_BYTES,
        size_of(c.projection) <= THREAD_PROJECTION_TARGET_BYTES,
        size_of(printed(c)) < MAX_THREAD_STDOUT_BYTES,
{
    digest_names_a_file("thread-context:"@, c.authority.authority_digest);
    reveal(payload_agrees);
}

/// What is shown of a context fits in its bound, with the line feed behind it.
pub proof fn shown_lines_are_bounded(c: ThreadContextObjectModel, value: JsonModel)
    requires
        stdout_bounded(c) == Ok::<JsonModel, ErrorModel>(value),
    ensures
        canonical_bytes(value).len() + 1 <= MAX_THREAD_STDOUT_BYTES,
{
}

} // verus!
