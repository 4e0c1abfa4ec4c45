//! References to content-addressed objects.

use vstd::prelude::*;
use vstd::string::*;

use crate::canonical::{digest_of, hash_bytes};
use crate::json::{Json, JsonModel};
use crate::order::{Ordered, Part, PartModel};
use crate::record::Record;
use crate::table::{last_table, record_at, Keyed};

verus! {

/// The schema of a reference.
pub const CAS_OBJECT_SCHEMA: &'static str = "codeclew-cas-object/1.0";

/// A reference to an object: its schema, and the digest and size of its bytes.
#[derive(Debug, PartialEq, Eq)]
pub struct CasObject {
    pub schema: String,
    pub object_schema: String,
    pub digest: String,
    pub size: u64,
}

/// The model of a [`CasObject`].
pub struct CasObjectModel {
    pub schema: Seq<char>,
    pub object_schema: Seq<char>,
    pub digest: Seq<char>,
    pub size: u64,
}

impl DeepView for CasObject {
    type V = CasObjectModel;

    open spec fn deep_view(&self) -> CasObjectModel {
        CasObjectModel {
            schema: self.schema.deep_view(),
            object_schema: self.object_schema.deep_view(),
            digest: self.digest.deep_view(),
            size: self.size.deep_view(),
        }
    }
}

impl Record for CasObject {
    open spec fn json(v: CasObjectModel) -> JsonModel {
        JsonModel::object()
            .with("schema"@, <String as Record>::json(v.schema))
            .with("objectSchema"@, <String as Record>::json(v.object_schema))
            .with("digest"@, <String as Record>::json(v.digest))
            .with("size"@, <u64 as Record>::json(v.size))
    }

    fn copied(&self) -> (r: CasObject) {
        CasObject {
            schema: self.schema.copied(),
            object_schema: self.object_schema.copied(),
            digest: self.digest.copied(),
            size: self.size.copied(),
        }
    }

    fn same_as(&self, other: &CasObject) -> (r: bool) {
        self.schema.same_as(&other.schema)
            && self.object_schema.same_as(&other.object_schema)
            && self.digest.same_as(&other.digest)
            && self.size.same_as(&other.size)
    }

    fn to_json(&self) -> (r: Json) {
        Json::object()
            .with("schema", self.schema.to_json())
            .with("objectSchema", self.object_schema.to_json())
            .with("digest", self.digest.to_json())
            .with("size", self.size.to_json())
    }
}

impl Keyed for CasObject {
    open spec fn key(v: CasObjectModel) -> Seq<char> {
        v.digest
    }

    fn key_text(&self) -> (r: &String) {
        &self.digest
    }
}

impl Ordered for CasObject {
    open spec fn parts(v: CasObjectModel) -> Seq<PartModel> {
        seq![
            PartModel::Text(v.object_schema),
            PartModel::Text(v.digest),
            PartModel::Num(v.size),
        ]
    }

    fn to_parts(&self) -> (r: Vec<Part>) {
        let r = vec![
            Part::Text(self.object_schema.clone()),
            Part::Text(self.digest.clone()),
            Part::Num(self.size),
        ];
        assert(r.deep_view() =~= Self::parts(self.deep_view()));
        r
    }
}

/// Whether a reference is the one that some references have under its digest.
pub open spec fn is_bound(closure: Seq<CasObjectModel>, reference: CasObjectModel) -> bool {
    record_at::<CasObject>(last_table::<CasObject>(closure), reference.digest) == Some(reference)
}

/// The reference to some bytes under a schema.
pub open spec fn reference_to(object_schema: Seq<char>, bytes: Seq<u8>) -> CasObjectModel {
    CasObjectModel {
        schema: CAS_OBJECT_SCHEMA@,
        object_schema,
        digest: digest_of(bytes),
        size: bytes.len() as u64,
    }
}

impl CasObject {
    /// The reference to some bytes under a schema.
    pub fn for_bytes(object_schema: &str, bytes: &[u8]) -> (r: CasObject)
        ensures
            r.deep_view() == reference_to(object_schema@, bytes@),
    {
        CasObject {
            schema: CAS_OBJECT_SCHEMA.to_owned(),
            object_schema: object_schema.to_owned(),
            digest: hash_bytes(bytes),
            size: bytes.len() as u64,
        }
    }
}

} // verus!
