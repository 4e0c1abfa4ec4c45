//! Checks on what is retained: objects, their sources and the roots that are
//! published for them.

use vstd::prelude::*;
use vstd::string::*;
use vstd::utf8::*;

use crate::cas::{reference_to, CasObject, CasObjectModel};
use crate::error::{corrupt, corrupted, failure, outcome, ClewError, ErrorCode, ErrorModel};
use crate::json::{Json, JsonModel};
use crate::record::Record;
use crate::table::{
    enter, entered, find_record, no_other_record_comes_in, record_at, replace, replaced, Keyed,
};
use crate::text::{
    after_prefix, has_prefix, hex64, is_digest, is_hex64, pieces, same_bytes, same_text, split,
    strip_prefix,
};
use crate::thread_callables::{SourceAnchor, SourceAnchorModel};

verus! {

/// An object that was read, with its bytes where they could be read.
pub struct ObjectRead {
    pub reference: CasObject,
    pub bytes: Option<Vec<u8>>,
}

/// The model of an [`ObjectRead`].
pub struct ObjectReadModel {
    pub reference: CasObjectModel,
    pub bytes: Option<Seq<u8>>,
}

impl DeepView for ObjectRead {
    type V = ObjectReadModel;

    open spec fn deep_view(&self) -> ObjectReadModel {
        ObjectReadModel {
            reference: self.reference.deep_view(),
            bytes: match self.bytes {
                Some(b) => Some(b@),
                None => None,
            },
        }
    }
}

/// The bytes of an object among those that were read: it was read, and the bytes
/// are those that it refers to.
pub open spec fn object_bytes(reads: Seq<ObjectReadModel>, reference: CasObjectModel) -> Result<
    Seq<u8>,
    ErrorModel,
>
    decreases reads.len(),
{
    if reads.len() == 0 {
        corrupted("retained object is missing or differs from its reference"@)
    } else if reads[0].reference == reference {
        match reads[0].bytes {
            Some(bytes) => if reference_to(reference.object_schema, bytes) == reference {
                Ok(bytes)
            } else {
                corrupted("retained object is missing or differs from its reference"@)
            },
            None => corrupted("retained object is missing or differs from its reference"@),
        }
    } else {
        object_bytes(reads.drop_first(), reference)
    }
}

/// The bytes of an object among those that were read.
pub fn read_object<'a>(reads: &'a Vec<ObjectRead>, reference: &CasObject) -> (r: Result<
    &'a Vec<u8>,
    ClewError,
>)
    ensures
        match r {
            Ok(bytes) => object_bytes(reads.deep_view(), reference.deep_view()) == Ok::<
                Seq<u8>,
                ErrorModel,
            >(bytes@),
            Err(e) => object_bytes(reads.deep_view(), reference.deep_view()) == Err::<
                Seq<u8>,
                ErrorModel,
            >(e.deep_view()),
        },
{
    let ghost m = reads.deep_view();
    let ghost wanted = reference.deep_view();
    let mut i: usize = 0;
    assert(m.skip(0) =~= m);
    while i < reads.len()
        invariant
            i <= reads.len(),
            m == reads.deep_view(),
            wanted == reference.deep_view(),
            object_bytes(m, wanted) == object_bytes(m.skip(i as int), wanted),
        decreases reads.len() - i,
    {
        assert(m.skip(i as int)[0] == reads@[i as int].deep_view());
        if reads[i].reference.same_as(reference) {
            match &reads[i].bytes {
                Some(bytes) => {
                    let actual = CasObject::for_bytes(
                        reference.object_schema.as_str(),
                        bytes.as_slice(),
                    );
                    if actual.same_as(reference) {
                        return Ok(bytes);
                    }
                },
                None => {},
            }
            return Err(corrupt("retained object is missing or differs from its reference"));
        }
        assert(m.skip(i as int).drop_first() =~= m.skip(i + 1));
        i = i + 1;
    }
    Err(corrupt("retained object is missing or differs from its reference"))
}

/// A size as the host counts it, where it can.
pub open spec fn host_size(size: u64) -> Option<usize> {
    if size <= usize::MAX {
        Some(size as usize)
    } else {
        None
    }
}

/// A size as the host counts it, where it can.
pub fn to_host_size(size: u64) -> (r: Option<usize>)
    ensures
        r == host_size(size),
{
    if size <= usize::MAX as u64 {
        Some(size as usize)
    } else {
        None
    }
}

/// The digits of an identifier that is a prefix and a SHA-256 digest.
pub open spec fn id_digits(id: Seq<char>, prefix: Seq<char>) -> Option<Seq<char>> {
    if has_prefix(id, prefix) && is_hex64(after_prefix(id, prefix)) {
        Some(after_prefix(id, prefix))
    } else {
        None
    }
}

/// The digits of an identifier that is a prefix and a SHA-256 digest.
pub fn digits_of_id(id: &str, prefix: &str) -> (r: Option<String>)
    ensures
        r.deep_view() == id_digits(id@, prefix@),
{
    match strip_prefix(id, prefix) {
        Some(digits) => if hex64(digits.as_str()) {
            Some(digits)
        } else {
            None
        },
        None => None,
    }
}

/// A prefix with a digest behind it is an identifier.
pub proof fn digest_makes_id(prefix: Seq<char>, digest: Seq<char>)
    requires
        is_digest(digest),
    ensures
        id_digits(prefix + digest, prefix + "sha256:"@) is Some,
{
    let id = prefix + digest;
    let whole = prefix + "sha256:"@;
    assert(digest.take("sha256:"@.len() as int) == "sha256:"@);
    assert(id.take(whole.len() as int) =~= prefix + digest.take("sha256:"@.len() as int));
    assert(after_prefix(id, whole) =~= after_prefix(digest, "sha256:"@));
}

/// A source path: not empty, not absolute, not starting at the directory itself
/// and never leading up.
pub open spec fn is_source_path(path: Seq<char>) -> bool {
    &&& path.len() > 0
    &&& path[0] != '/'
    &&& pieces(path, '/')[0] != "."@
    &&& forall|i: int| 0 <= i < pieces(path, '/').len() ==> #[trigger] pieces(path, '/')[i] != ".."@
}

/// Whether a path is a source path.
pub fn source_path(path: &str) -> (r: bool)
    ensures
        r == is_source_path(path@),
{
    if path.is_empty() || path.get_char(0) == '/' {
        return false;
    }
    let parts = split(path, '/');
    let ghost m = pieces(path@, '/');
    proof {
        crate::text::pieces_not_empty(path@, '/');
        assert(m[0] == parts@[0].deep_view());
    }
    if same_text(parts[0].as_str(), ".") {
        return false;
    }
    let mut i: usize = 0;
    while i < parts.len()
        invariant
            i <= parts.len(),
            m == parts.deep_view(),
            m == pieces(path@, '/'),
            forall|k: int| 0 <= k < i ==> #[trigger] m[k] != ".."@,
        decreases parts.len() - i,
    {
        assert(m[i as int] == parts@[i as int].deep_view());
        if same_text(parts[i].as_str(), "..") {
            return false;
        }
        i = i + 1;
    }
    true
}

/// Whether bytes are UTF-8. Claims that `std::str::from_utf8` accepts the byte
/// strings that are valid UTF-8, and no others.
#[verifier::external_body]
pub(crate) fn is_utf8(bytes: &[u8]) -> (r: bool)
    ensures
        r == valid_utf8(bytes@),
{
    std::str::from_utf8(bytes).is_ok()
}

/// Whether a place in a UTF-8 text lies between two characters, or at an end.
pub open spec fn is_boundary(bytes: Seq<u8>, i: int) -> bool {
    i == 0 || i == bytes.len() || (0 < i < bytes.len() && !is_continuation_byte(bytes[i]))
}

fn boundary_at(bytes: &Vec<u8>, i: usize) -> (r: bool)
    ensures
        r == is_boundary(bytes@, i as int),
{
    if i == 0 || i == bytes.len() {
        return true;
    }
    if i > bytes.len() {
        return false;
    }
    let b: u8 = bytes[i];
    proof {
        assert((b & 0xC0 == 0x80) == (0x80 <= b && b <= 0xBF)) by (bit_vector);
    }
    !(0x80 <= b && b <= 0xBF)
}

/// The places that point into one source.
#[derive(Debug, PartialEq, Eq)]
pub struct SourceGroup {
    pub reference: CasObject,
    pub anchors: Vec<SourceAnchor>,
}

/// The model of a [`SourceGroup`].
pub struct SourceGroupModel {
    pub reference: CasObjectModel,
    pub anchors: Seq<SourceAnchorModel>,
}

impl DeepView for SourceGroup {
    type V = SourceGroupModel;

    open spec fn deep_view(&self) -> SourceGroupModel {
        SourceGroupModel {
            reference: self.reference.deep_view(),
            anchors: self.anchors.deep_view(),
        }
    }
}

impl Record for SourceGroup {
    open spec fn json(v: SourceGroupModel) -> JsonModel {
        JsonModel::object()
            .with("reference"@, <CasObject as Record>::json(v.reference))
            .with("anchors"@, <Vec<SourceAnchor> as Record>::json(v.anchors))
    }

    fn copied(&self) -> (r: SourceGroup) {
        SourceGroup {
            reference: self.reference.copied(),
            anchors: self.anchors.copied(),
        }
    }

    fn same_as(&self, other: &SourceGroup) -> (r: bool) {
        self.reference.same_as(&other.reference)
            && self.anchors.same_as(&other.anchors)
    }

    fn to_json(&self) -> (r: Json) {
        Json::object()
            .with("reference", self.reference.to_json())
            .with("anchors", self.anchors.to_json())
    }
}

impl Keyed for SourceGroup {
    open spec fn key(v: SourceGroupModel) -> Seq<char> {
        v.reference.digest
    }

    fn key_text(&self) -> (r: &String) {
        &self.reference.digest
    }
}

/// What is reported of sources.
pub struct SourceReports<'a> {
    pub path: &'a str,
    pub conflict: &'a str,
    pub host_size: &'a str,
    pub encoding: &'a str,
    pub outside: &'a str,
    pub endpoint: &'a str,
}

/// The model of [`SourceReports`].
pub struct SourceReportsModel {
    pub path: Seq<char>,
    pub conflict: Seq<char>,
    pub host_size: Seq<char>,
    pub encoding: Seq<char>,
    pub outside: Seq<char>,
    pub endpoint: Seq<char>,
}

impl<'a> View for SourceReports<'a> {
    type V = SourceReportsModel;

    open spec fn view(&self) -> SourceReportsModel {
        SourceReportsModel {
            path: self.path@,
            conflict: self.conflict@,
            host_size: self.host_size@,
            encoding: self.encoding@,
            outside: self.outside@,
            endpoint: self.endpoint@,
        }
    }
}

/// The groups with a place added. Places with one digest point into one source.
pub open spec fn grouped(
    groups: Seq<SourceGroupModel>,
    anchor: SourceAnchorModel,
    conflict: Seq<char>,
) -> Result<Seq<SourceGroupModel>, ErrorModel> {
    match record_at::<SourceGroup>(groups, anchor.content_ref.digest) {
        None => Ok(
            entered::<SourceGroup>(
                groups,
                SourceGroupModel { reference: anchor.content_ref, anchors: seq![anchor] },
            ),
        ),
        Some(group) => if group.reference != anchor.content_ref {
            corrupted(conflict)
        } else {
            Ok(
                replaced::<SourceGroup>(
                    groups,
                    SourceGroupModel { anchors: group.anchors.push(anchor), ..group },
                ),
            )
        },
    }
}

/// Adds a place to the groups.
pub fn group_anchor(groups: &mut Vec<SourceGroup>, anchor: &SourceAnchor, conflict: &str) -> (r: Result<
    (),
    ClewError,
>)
    ensures
        match grouped(old(groups).deep_view(), anchor.deep_view(), conflict@) {
            Ok(after) => r is Ok && final(groups).deep_view() == after,
            Err(e) => r is Err && r->Err_0.deep_view() == e,
        },
{
    let updated = match find_record(groups, anchor.content_ref.digest.as_str()) {
        None => None,
        Some(group) => {
            if !group.reference.same_as(&anchor.content_ref) {
                return Err(corrupt(conflict));
            }
            let mut anchors = group.anchors.copied();
            let ghost before = anchors.deep_view();
            anchors.push(anchor.copied());
            assert(anchors.deep_view() =~= before.push(anchor.deep_view()));
            Some(SourceGroup { reference: group.reference.copied(), anchors })
        },
    };
    match updated {
        Some(group) => {
            replace(groups, group);
        },
        None => {
            let anchors = vec![anchor.copied()];
            assert(anchors.deep_view() =~= seq![anchor.deep_view()]);
            enter(groups, SourceGroup { reference: anchor.content_ref.copied(), anchors });
        },
    }
    Ok(())
}

/// The outcome for the places from the `i`-th on in a source with some bytes: both
/// ends or none, in order, inside the source and between characters.
pub open spec fn anchors_checked(
    anchors: Seq<SourceAnchorModel>,
    bytes: Seq<u8>,
    reports: SourceReportsModel,
    i: int,
) -> Result<(), ErrorModel>
    decreases anchors.len() - i,
{
    if i < 0 || i >= anchors.len() {
        Ok(())
    } else {
        match (anchors[i].start, anchors[i].end) {
            (Some(start), Some(end)) => if start > end || end > bytes.len() || !is_boundary(
                bytes,
                start as int,
            ) || !is_boundary(bytes, end as int) {
                corrupted(reports.outside)
            } else {
                anchors_checked(anchors, bytes, reports, i + 1)
            },
            (None, None) => anchors_checked(anchors, bytes, reports, i + 1),
            _ => corrupted(reports.endpoint),
        }
    }
}

fn check_anchors(anchors: &Vec<SourceAnchor>, bytes: &Vec<u8>, reports: &SourceReports) -> (r: Result<
    (),
    ClewError,
>)
    ensures
        outcome(r) == anchors_checked(anchors.deep_view(), bytes@, reports@, 0),
{
    let ghost m = anchors.deep_view();
    let mut i: usize = 0;
    while i < anchors.len()
        invariant
            i <= anchors.len(),
            m == anchors.deep_view(),
            anchors_checked(m, bytes@, reports@, 0) == anchors_checked(
                m,
                bytes@,
                reports@,
                i as int,
            ),
        decreases anchors.len() - i,
    {
        let anchor = &anchors[i];
        assert(m[i as int] == anchor.deep_view());
        match (&anchor.start, &anchor.end) {
            (Some(start), Some(end)) => {
                if *start > *end || *end > bytes.len() as u64 {
                    return Err(corrupt(reports.outside));
                }
                if !boundary_at(bytes, *start as usize) || !boundary_at(bytes, *end as usize) {
                    return Err(corrupt(reports.outside));
                }
            },
            (None, None) => {},
            _ => {
                return Err(corrupt(reports.endpoint));
            },
        }
        i = i + 1;
    }
    Ok(())
}

/// The outcome for the sources from the `i`-th on: each can be read, is UTF-8 and
/// holds the places that point into it.
pub open spec fn sources_checked(
    groups: Seq<SourceGroupModel>,
    reads: Seq<ObjectReadModel>,
    reports: SourceReportsModel,
    i: int,
) -> Result<(), ErrorModel>
    decreases groups.len() - i,
{
    if i < 0 || i >= groups.len() {
        Ok(())
    } else if host_size(groups[i].reference.size) is None {
        Err(failure(ErrorCode::SliceBudgetExceeded, reports.host_size))
    } else {
        match object_bytes(reads, groups[i].reference) {
            Err(e) => Err(e),
            Ok(bytes) => if !valid_utf8(bytes) {
                corrupted(reports.encoding)
            } else {
                match anchors_checked(groups[i].anchors, bytes, reports, 0) {
                    Err(e) => Err(e),
                    Ok(_) => sources_checked(groups, reads, reports, i + 1),
                }
            },
        }
    }
}

/// Checks the sources: each can be read, is UTF-8 and holds the places that point
/// into it.
pub fn check_sources(
    groups: &Vec<SourceGroup>,
    reads: &Vec<ObjectRead>,
    reports: &SourceReports,
) -> (r: Result<(), ClewError>)
    ensures
        outcome(r) == sources_checked(groups.deep_view(), reads.deep_view(), reports@, 0),
{
    let ghost m = groups.deep_view();
    let ghost all = reads.deep_view();
    let mut i: usize = 0;
    while i < groups.len()
        invariant
            i <= groups.len(),
            m == groups.deep_view(),
            all == reads.deep_view(),
            sources_checked(m, all, reports@, 0) == sources_checked(m, all, reports@, i as int),
        decreases groups.len() - i,
    {
        let group = &groups[i];
        assert(m[i as int] == group.deep_view());
        if to_host_size(group.reference.size).is_none() {
            return Err(ClewError::new(ErrorCode::SliceBudgetExceeded, reports.host_size));
        }
        let bytes = read_object(reads, &group.reference)?;
        if !is_utf8(bytes.as_slice()) {
            return Err(corrupt(reports.encoding));
        }
        check_anchors(&group.anchors, bytes, reports)?;
        i = i + 1;
    }
    Ok(())
}

/// What is to be done to publish a root.
#[derive(Clone, Copy, Debug, PartialEq, Eq, Structural)]
pub enum Publication {
    /// The same root stands there: nothing is to be written.
    AlreadyPublished,
    /// Nothing stands there: the objects and then the root are to be written.
    Write,
}

impl DeepView for Publication {
    type V = Publication;

    open spec fn deep_view(&self) -> Publication {
        *self
    }
}

/// What is to be done to publish a root where some bytes, or none, stand.
pub open spec fn publication_of(
    existing: Option<Seq<u8>>,
    root_bytes: Seq<u8>,
    conflict: Seq<char>,
) -> Result<Publication, ErrorModel> {
    match existing {
        Some(bytes) => if bytes == root_bytes {
            Ok(Publication::AlreadyPublished)
        } else {
            Err(failure(ErrorCode::BindingChanged, conflict))
        },
        None => Ok(Publication::Write),
    }
}

/// Decides what is to be done to publish a root where some bytes, or none, stand.
/// A root is never replaced by another one.
pub fn decide_publication(existing: Option<&Vec<u8>>, root_bytes: &Vec<u8>, conflict: &str) -> (r: Result<
    Publication,
    ClewError,
>)
    ensures
        outcome(r) == publication_of(
            match existing {
                Some(bytes) => Some(bytes@),
                None => None,
            },
            root_bytes@,
            conflict@,
        ),
{
    match existing {
        Some(bytes) => if same_bytes(bytes.as_slice(), root_bytes.as_slice()) {
            Ok(Publication::AlreadyPublished)
        } else {
            Err(ClewError::new(ErrorCode::BindingChanged, conflict))
        },
        None => Ok(Publication::Write),
    }
}

/// The outcome of writing a root: it was created, or the same bytes stand there.
pub open spec fn creation_settled(
    created: bool,
    existing: Seq<u8>,
    root_bytes: Seq<u8>,
    conflict: Seq<char>,
) -> Result<(), ErrorModel> {
    if created || existing == root_bytes {
        Ok(())
    } else {
        Err(failure(ErrorCode::BindingChanged, conflict))
    }
}

/// Settles whether a root was written: it was created, or the same bytes stand
/// there.
pub fn settle_creation(created: bool, existing: &Vec<u8>, root_bytes: &Vec<u8>, conflict: &str) -> (r: Result<
    (),
    ClewError,
>)
    ensures
        outcome(r) == creation_settled(created, existing@, root_bytes@, conflict@),
{
    if created || same_bytes(existing.as_slice(), root_bytes.as_slice()) {
        Ok(())
    } else {
        Err(ClewError::new(ErrorCode::BindingChanged, conflict))
    }
}

/// However often one root is published, and whoever writes first, it is accepted;
/// another root is refused both before and after the write.
pub proof fn publication_is_idempotent(
    root_bytes: Seq<u8>,
    other: Seq<u8>,
    conflict: Seq<char>,
)
    requires
        other != root_bytes,
    ensures
        publication_of(Some(root_bytes), root_bytes, conflict) == Ok::<Publication, ErrorModel>(
            Publication::AlreadyPublished,
        ),
        creation_settled(false, root_bytes, root_bytes, conflict) is Ok,
        publication_of(Some(other), root_bytes, conflict) == Err::<Publication, ErrorModel>(
            failure(ErrorCode::BindingChanged, conflict),
        ),
        creation_settled(false, other, root_bytes, conflict) == Err::<(), ErrorModel>(
            failure(ErrorCode::BindingChanged, conflict),
        ),
{
}

/// Whether every object of a list that could be read before reads back as it did.
pub open spec fn reads_back(
    objects: Seq<CasObjectModel>,
    before: Seq<ObjectReadModel>,
    after: Seq<ObjectReadModel>,
) -> bool {
    forall|i: int|
        0 <= i < objects.len() && object_bytes(before, #[trigger] objects[i]) is Ok
            ==> object_bytes(after, objects[i]) == object_bytes(before, objects[i])
}

/// An object of a list reads back.
pub proof fn object_reads_back(
    objects: Seq<CasObjectModel>,
    before: Seq<ObjectReadModel>,
    after: Seq<ObjectReadModel>,
    x: CasObjectModel,
)
    requires
        reads_back(objects, before, after),
        objects.contains(x),
        object_bytes(before, x) is Ok,
    ensures
        object_bytes(after, x) == object_bytes(before, x),
{
    let i = choose|i: int| 0 <= i < objects.len() && objects[i] == x;
    assert(object_bytes(before, objects[i]) is Ok);
}

/// Whether the sources of all groups are among some objects.
pub open spec fn sources_among(groups: Seq<SourceGroupModel>, objects: Seq<CasObjectModel>) -> bool {
    forall|i: int| 0 <= i < groups.len() ==> objects.contains((#[trigger] groups[i]).reference)
}

/// An anchor whose source is among some objects keeps the groups among them.
pub proof fn grouping_stays_among(
    groups: Seq<SourceGroupModel>,
    anchor: SourceAnchorModel,
    conflict: Seq<char>,
    objects: Seq<CasObjectModel>,
)
    requires
        sources_among(groups, objects),
        objects.contains(anchor.content_ref),
    ensures
        match grouped(groups, anchor, conflict) {
            Ok(after) => sources_among(after, objects),
            Err(_) => true,
        },
{
    if let Ok(after) = grouped(groups, anchor, conflict) {
        let x = match record_at::<SourceGroup>(groups, anchor.content_ref.digest) {
            None => SourceGroupModel { reference: anchor.content_ref, anchors: seq![anchor] },
            Some(group) => SourceGroupModel { anchors: group.anchors.push(anchor), ..group },
        };
        no_other_record_comes_in::<SourceGroup>(groups, x);
        assert forall|i: int| 0 <= i < after.len() implies objects.contains(
            (#[trigger] after[i]).reference,
        ) by {
            if after[i] != x {
                assert(groups.contains(after[i]));
                let k = choose|k: int| 0 <= k < groups.len() && groups[k] == after[i];
                assert(objects.contains(groups[k].reference));
            }
        }
    }
}

/// Sources that passed pass again where their objects read back.
pub proof fn sources_pass_again(
    groups: Seq<SourceGroupModel>,
    objects: Seq<CasObjectModel>,
    before: Seq<ObjectReadModel>,
    after: Seq<ObjectReadModel>,
    reports: SourceReportsModel,
    i: int,
)
    requires
        0 <= i,
        sources_among(groups, objects),
        reads_back(objects, before, after),
        sources_checked(groups, before, reports, i) is Ok,
    ensures
        sources_checked(groups, after, reports, i) is Ok,
    decreases groups.len() - i,
{
    if i < groups.len() {
        object_reads_back(objects, before, after, groups[i].reference);
        sources_pass_again(groups, objects, before, after, reports, i + 1);
    }
}

} // verus!
