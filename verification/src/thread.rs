//! Threads: immutable member sessions that are read together.

use vstd::prelude::*;
use vstd::string::*;

use crate::json::{Json, JsonModel};
use crate::record::Record;
use crate::table::Keyed;

verus! {

/// How a runtime was made.
#[derive(Clone, Copy, Debug, PartialEq, Eq, Structural)]
pub enum RuntimeMode {
    Development,
    Release,
}

impl DeepView for RuntimeMode {
    type V = RuntimeMode;

    open spec fn deep_view(&self) -> RuntimeMode {
        *self
    }
}

impl RuntimeMode {
    /// The name that is written for a value.
    pub open spec fn name(self) -> Seq<char> {
        match self {
            RuntimeMode::Development => "DEVELOPMENT"@,
            RuntimeMode::Release => "RELEASE"@,
        }
    }
}

impl Record for RuntimeMode {
    open spec fn json(v: RuntimeMode) -> JsonModel {
        JsonModel::Str(v.name())
    }

    fn copied(&self) -> (r: RuntimeMode) {
        *self
    }

    fn same_as(&self, other: &RuntimeMode) -> (r: bool) {
        *self == *other
    }

    fn to_json(&self) -> (r: Json) {
        let name = match self {
            RuntimeMode::Development => "DEVELOPMENT",
            RuntimeMode::Release => "RELEASE",
        };
        Json::Str(name.to_owned())
    }
}

/// The language of a session.
#[derive(Clone, Copy, Debug, PartialEq, Eq, Structural)]
pub enum SessionLanguage {
    Kotlin,
    Python,
}

impl DeepView for SessionLanguage {
    type V = SessionLanguage;

    open spec fn deep_view(&self) -> SessionLanguage {
        *self
    }
}

impl SessionLanguage {
    /// The name that is written for a value.
    pub open spec fn name(self) -> Seq<char> {
        match self {
            SessionLanguage::Kotlin => "KOTLIN"@,
            SessionLanguage::Python => "PYTHON"@,
        }
    }
}

impl Record for SessionLanguage {
    open spec fn json(v: SessionLanguage) -> JsonModel {
        JsonModel::Str(v.name())
    }

    fn copied(&self) -> (r: SessionLanguage) {
        *self
    }

    fn same_as(&self, other: &SessionLanguage) -> (r: bool) {
        *self == *other
    }

    fn to_json(&self) -> (r: Json) {
        let name = match self {
            SessionLanguage::Kotlin => "KOTLIN",
            SessionLanguage::Python => "PYTHON",
        };
        Json::Str(name.to_owned())
    }
}

impl SessionLanguage {
    /// The identifier of the language.
    pub open spec fn uri(self) -> Seq<char> {
        match self {
            SessionLanguage::Kotlin => "language:kotlin"@,
            SessionLanguage::Python => "language:python"@,
        }
    }

    /// The identifier of the language.
    pub fn to_uri(&self) -> (r: String)
        ensures
            r@ == self.uri(),
    {
        match self {
            SessionLanguage::Kotlin => "language:kotlin".to_owned(),
            SessionLanguage::Python => "language:python".to_owned(),
        }
    }
}

/// Whether the project model of a session may be cached.
#[derive(Clone, Copy, Debug, PartialEq, Eq, Structural)]
pub enum ModelCachePolicy {
    NonCacheable,
    Cacheable,
}

impl DeepView for ModelCachePolicy {
    type V = ModelCachePolicy;

    open spec fn deep_view(&self) -> ModelCachePolicy {
        *self
    }
}

impl ModelCachePolicy {
    /// The name that is written for a value.
    pub open spec fn name(self) -> Seq<char> {
        match self {
            ModelCachePolicy::NonCacheable => "NON_CACHEABLE"@,
            ModelCachePolicy::Cacheable => "CACHEABLE"@,
        }
    }
}

impl Record for ModelCachePolicy {
    open spec fn json(v: ModelCachePolicy) -> JsonModel {
        JsonModel::Str(v.name())
    }

    fn copied(&self) -> (r: ModelCachePolicy) {
        *self
    }

    fn same_as(&self, other: &ModelCachePolicy) -> (r: bool) {
        *self == *other
    }

    fn to_json(&self) -> (r: Json) {
        let name = match self {
            ModelCachePolicy::NonCacheable => "NON_CACHEABLE",
            ModelCachePolicy::Cacheable => "CACHEABLE",
        };
        Json::Str(name.to_owned())
    }
}

/// What a session is bound to.
#[derive(Debug, PartialEq, Eq)]
pub struct SessionAuthority {
    pub schema: String,
    pub authority_digest: String,
    pub session_id: String,
    pub repository_key: String,
    pub base_revision: String,
    pub target_ref: String,
    pub target_oid: String,
    pub runtime_key: String,
    pub runtime_mode: RuntimeMode,
    pub language: SessionLanguage,
    pub compilations: Vec<String>,
    pub generation_jobs: Option<u64>,
    pub model_cache_policy: ModelCachePolicy,
    pub model_cache_authority: Option<Json>,
    pub created_unix_ms: u64,
}

/// The model of a [`SessionAuthority`].
pub struct SessionAuthorityModel {
    pub schema: Seq<char>,
    pub authority_digest: Seq<char>,
    pub session_id: Seq<char>,
    pub repository_key: Seq<char>,
    pub base_revision: Seq<char>,
    pub target_ref: Seq<char>,
    pub target_oid: Seq<char>,
    pub runtime_key: Seq<char>,
    pub runtime_mode: RuntimeMode,
    pub language: SessionLanguage,
    pub compilations: Seq<Seq<char>>,
    pub generation_jobs: Option<u64>,
    pub model_cache_policy: ModelCachePolicy,
    pub model_cache_authority: Option<JsonModel>,
    pub created_unix_ms: u64,
}

impl DeepView for SessionAuthority {
    type V = SessionAuthorityModel;

    open spec fn deep_view(&self) -> SessionAuthorityModel {
        SessionAuthorityModel {
            schema: self.schema.deep_view(),
            authority_digest: self.authority_digest.deep_view(),
            session_id: self.session_id.deep_view(),
            repository_key: self.repository_key.deep_view(),
            base_revision: self.base_revision.deep_view(),
            target_ref: self.target_ref.deep_view(),
            target_oid: self.target_oid.deep_view(),
            runtime_key: self.runtime_key.deep_view(),
            runtime_mode: self.runtime_mode.deep_view(),
            language: self.language.deep_view(),
            compilations: self.compilations.deep_view(),
            generation_jobs: self.generation_jobs.deep_view(),
            model_cache_policy: self.model_cache_policy.deep_view(),
            model_cache_authority: self.model_cache_authority.deep_view(),
            created_unix_ms: self.created_unix_ms.deep_view(),
        }
    }
}

impl Record for SessionAuthority {
    open spec fn json(v: SessionAuthorityModel) -> JsonModel {
        JsonModel::object()
            .with("schema"@, <String as Record>::json(v.schema))
            .with("authorityDigest"@, <String as Record>::json(v.authority_digest))
            .with("sessionId"@, <String as Record>::json(v.session_id))
            .with("repositoryKey"@, <String as Record>::json(v.repository_key))
            .with("baseRevision"@, <String as Record>::json(v.base_revision))
            .with("targetRef"@, <String as Record>::json(v.target_ref))
            .with("targetOid"@, <String as Record>::json(v.target_oid))
            .with("runtimeKey"@, <String as Record>::json(v.runtime_key))
            .with("runtimeMode"@, <RuntimeMode as Record>::json(v.runtime_mode))
            .with("language"@, <SessionLanguage as Record>::json(v.language))
            .with("compilations"@, <Vec<String> as Record>::json(v.compilations))
            .with_some("generationJobs"@, match v.generation_jobs { Some(x) => Some(<u64 as Record>::json(x)), None => None })
            .with("modelCachePolicy"@, <ModelCachePolicy as Record>::json(v.model_cache_policy))
            .with_some("modelCacheAuthority"@, match v.model_cache_authority { Some(x) => Some(<Json as Record>::json(x)), None => None })
            .with("createdUnixMs"@, <u64 as Record>::json(v.created_unix_ms))
    }

    fn copied(&self) -> (r: SessionAuthority) {
        SessionAuthority {
            schema: self.schema.copied(),
            authority_digest: self.authority_digest.copied(),
            session_id: self.session_id.copied(),
            repository_key: self.repository_key.copied(),
            base_revision: self.base_revision.copied(),
            target_ref: self.target_ref.copied(),
            target_oid: self.target_oid.copied(),
            runtime_key: self.runtime_key.copied(),
            runtime_mode: self.runtime_mode.copied(),
            language: self.language.copied(),
            compilations: self.compilations.copied(),
            generation_jobs: self.generation_jobs.copied(),
            model_cache_policy: self.model_cache_policy.copied(),
            model_cache_authority: self.model_cache_authority.copied(),
            created_unix_ms: self.created_unix_ms.copied(),
        }
    }

    fn same_as(&self, other: &SessionAuthority) -> (r: bool) {
        self.schema.same_as(&other.schema)
            && self.authority_digest.same_as(&other.authority_digest)
            && self.session_id.same_as(&other.session_id)
            && self.repository_key.same_as(&other.repository_key)
            && self.base_revision.same_as(&other.base_revision)
            && self.target_ref.same_as(&other.target_ref)
            && self.target_oid.same_as(&other.target_oid)
            && self.runtime_key.same_as(&other.runtime_key)
            && self.runtime_mode.same_as(&other.runtime_mode)
            && self.language.same_as(&other.language)
            && self.compilations.same_as(&other.compilations)
            && self.generation_jobs.same_as(&other.generation_jobs)
            && self.model_cache_policy.same_as(&other.model_cache_policy)
            && self.model_cache_authority.same_as(&other.model_cache_authority)
            && self.created_unix_ms.same_as(&other.created_unix_ms)
    }

    fn to_json(&self) -> (r: Json) {
        Json::object()
            .with("schema", self.schema.to_json())
            .with("authorityDigest", self.authority_digest.to_json())
            .with("sessionId", self.session_id.to_json())
            .with("repositoryKey", self.repository_key.to_json())
            .with("baseRevision", self.base_revision.to_json())
            .with("targetRef", self.target_ref.to_json())
            .with("targetOid", self.target_oid.to_json())
            .with("runtimeKey", self.runtime_key.to_json())
            .with("runtimeMode", self.runtime_mode.to_json())
            .with("language", self.language.to_json())
            .with("compilations", self.compilations.to_json())
            .with_some("generationJobs", match &self.generation_jobs { Some(x) => Some(x.to_json()), None => None })
            .with("modelCachePolicy", self.model_cache_policy.to_json())
            .with_some("modelCacheAuthority", match &self.model_cache_authority { Some(x) => Some(x.to_json()), None => None })
            .with("createdUnixMs", self.created_unix_ms.to_json())
    }
}

/// A member of a thread.
#[derive(Debug, PartialEq, Eq)]
pub struct ThreadMemberBinding {
    pub member_alias: String,
    pub service_alias: String,
    pub session: SessionAuthority,
}

/// The model of a [`ThreadMemberBinding`].
pub struct ThreadMemberBindingModel {
    pub member_alias: Seq<char>,
    pub service_alias: Seq<char>,
    pub session: SessionAuthorityModel,
}

impl DeepView for ThreadMemberBinding {
    type V = ThreadMemberBindingModel;

    open spec fn deep_view(&self) -> ThreadMemberBindingModel {
        ThreadMemberBindingModel {
            member_alias: self.member_alias.deep_view(),
            service_alias: self.service_alias.deep_view(),
            session: self.session.deep_view(),
        }
    }
}

impl Record for ThreadMemberBinding {
    open spec fn json(v: ThreadMemberBindingModel) -> JsonModel {
        JsonModel::object()
            .with("memberAlias"@, <String as Record>::json(v.member_alias))
            .with("serviceAlias"@, <String as Record>::json(v.service_alias))
            .with("session"@, <SessionAuthority as Record>::json(v.session))
    }

    fn copied(&self) -> (r: ThreadMemberBinding) {
        ThreadMemberBinding {
            member_alias: self.member_alias.copied(),
            service_alias: self.service_alias.copied(),
            session: self.session.copied(),
        }
    }

    fn same_as(&self, other: &ThreadMemberBinding) -> (r: bool) {
        self.member_alias.same_as(&other.member_alias)
            && self.service_alias.same_as(&other.service_alias)
            && self.session.same_as(&other.session)
    }

    fn to_json(&self) -> (r: Json) {
        Json::object()
            .with("memberAlias", self.member_alias.to_json())
            .with("serviceAlias", self.service_alias.to_json())
            .with("session", self.session.to_json())
    }
}

impl Keyed for ThreadMemberBinding {
    open spec fn key(v: ThreadMemberBindingModel) -> Seq<char> {
        v.member_alias
    }

    fn key_text(&self) -> (r: &String) {
        &self.member_alias
    }
}

/// What a thread is bound to.
#[derive(Debug, PartialEq, Eq)]
pub struct ThreadAuthority {
    pub schema: String,
    pub authority_digest: String,
    pub semantic_digest: String,
    pub thread_id: String,
    pub created_unix_ms: u64,
    pub members: Vec<ThreadMemberBinding>,
}

/// The model of a [`ThreadAuthority`].
pub struct ThreadAuthorityModel {
    pub schema: Seq<char>,
    pub authority_digest: Seq<char>,
    pub semantic_digest: Seq<char>,
    pub thread_id: Seq<char>,
    pub created_unix_ms: u64,
    pub members: Seq<ThreadMemberBindingModel>,
}

impl DeepView for ThreadAuthority {
    type V = ThreadAuthorityModel;

    open spec fn deep_view(&self) -> ThreadAuthorityModel {
        ThreadAuthorityModel {
            schema: self.schema.deep_view(),
            authority_digest: self.authority_digest.deep_view(),
            semantic_digest: self.semantic_digest.deep_view(),
            thread_id: self.thread_id.deep_view(),
            created_unix_ms: self.created_unix_ms.deep_view(),
            members: self.members.deep_view(),
        }
    }
}

impl Record for ThreadAuthority {
    open spec fn json(v: ThreadAuthorityModel) -> JsonModel {
        JsonModel::object()
            .with("schema"@, <String as Record>::json(v.schema))
            .with("authorityDigest"@, <String as Record>::json(v.authority_digest))
            .with("semanticDigest"@, <String as Record>::json(v.semantic_digest))
            .with("threadId"@, <String as Record>::json(v.thread_id))
            .with("createdUnixMs"@, <u64 as Record>::json(v.created_unix_ms))
            .with("members"@, <Vec<ThreadMemberBinding> as Record>::json(v.members))
    }

    fn copied(&self) -> (r: ThreadAuthority) {
        ThreadAuthority {
            schema: self.schema.copied(),
            authority_digest: self.authority_digest.copied(),
            semantic_digest: self.semantic_digest.copied(),
            thread_id: self.thread_id.copied(),
            created_unix_ms: self.created_unix_ms.copied(),
            members: self.members.copied(),
        }
    }

    fn same_as(&self, other: &ThreadAuthority) -> (r: bool) {
        self.schema.same_as(&other.schema)
            && self.authority_digest.same_as(&other.authority_digest)
            && self.semantic_digest.same_as(&other.semantic_digest)
            && self.thread_id.same_as(&other.thread_id)
            && self.created_unix_ms.same_as(&other.created_unix_ms)
            && self.members.same_as(&other.members)
    }

    fn to_json(&self) -> (r: Json) {
        Json::object()
            .with("schema", self.schema.to_json())
            .with("authorityDigest", self.authority_digest.to_json())
            .with("semanticDigest", self.semantic_digest.to_json())
            .with("threadId", self.thread_id.to_json())
            .with("createdUnixMs", self.created_unix_ms.to_json())
            .with("members", self.members.to_json())
    }
}

} // verus!
