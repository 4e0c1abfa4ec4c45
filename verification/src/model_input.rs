//! Files that the model of a project rests on, and the changes of that model which
//! replacing them allows.

use vstd::prelude::*;
use vstd::string::*;

use crate::canonical::{hash, json_digest};
use crate::edit::{WriteFact, WriteFactModel};
use crate::error::{failure, outcome, ClewError, ErrorCode, ErrorModel};
use crate::json::{list, Json, JsonModel};
use crate::record::Record;
use crate::text::{contains_char, joined, is_relative_path, relative_path, same_bytes, same_text};

verus! {

/// A text between two others.
pub open spec fn between(head: Seq<char>, middle: Seq<char>, tail: Seq<char>) -> Seq<char> {
    head + middle + tail
}

/// Puts a text between two others.
pub fn framed(head: &str, middle: &str, tail: &str) -> (r: String)
    ensures
        r@ == between(head@, middle@, tail@),
{
    joined(joined(head, middle).as_str(), tail)
}

/// The outcome that is an error of a code.
pub open spec fn failed<T>(code: ErrorCode, message: Seq<char>) -> Result<T, ErrorModel> {
    Err(failure(code, message))
}

/// The manifest of a project with its digest, where that is right.
pub open spec fn manifest_verified(project: JsonModel) -> Result<
    (JsonModel, Seq<char>),
    ErrorModel,
> {
    match project.get("semanticInputManifest"@) {
        None => failed(
            ErrorCode::WorkerProtocolMismatch,
            "OpenProject has no semantic input manifest"@,
        ),
        Some(manifest) => match project.str_at("semanticInputManifestHash"@) {
            None => failed(
                ErrorCode::WorkerProtocolMismatch,
                "OpenProject has no semantic input manifest hash"@,
            ),
            Some(digest) => if json_digest(manifest) != digest {
                failed(
                    ErrorCode::ProjectModelChanged,
                    "OpenProject semantic input manifest hash is invalid"@,
                )
            } else {
                Ok((manifest, digest))
            },
        },
    }
}

/// The manifest of a project with its digest.
pub fn verified_manifest(project: &Json) -> (r: Result<(Json, String), ClewError>)
    ensures
        outcome(r) == manifest_verified(project.deep_view()),
{
    let manifest = match project.get("semanticInputManifest") {
        Some(manifest) => manifest,
        None => {
            return Err(
                ClewError::new(
                    ErrorCode::WorkerProtocolMismatch,
                    "OpenProject has no semantic input manifest",
                ),
            );
        },
    };
    let digest = match project.str_at("semanticInputManifestHash") {
        Some(digest) => digest,
        None => {
            return Err(
                ClewError::new(
                    ErrorCode::WorkerProtocolMismatch,
                    "OpenProject has no semantic input manifest hash",
                ),
            );
        },
    };
    if !hash(manifest).same_as(digest) {
        return Err(
            ClewError::new(
                ErrorCode::ProjectModelChanged,
                "OpenProject semantic input manifest hash is invalid",
            ),
        );
    }
    Ok((manifest.copied(), digest.clone()))
}

/// The entries of a manifest with a path.
pub open spec fn entries_at(entries: Seq<JsonModel>, file: Seq<char>) -> Seq<JsonModel> {
    entries.filter(|entry: JsonModel| entry.str_at("path"@) == Some(file))
}

/// The outcome for a file in a manifest: it is there once, with a digest.
pub open spec fn digest_required(
    manifest: JsonModel,
    file: Seq<char>,
    expected: Seq<char>,
) -> Result<(), ErrorModel> {
    match manifest.array_at("modelInputs"@) {
        None => failed(
            ErrorCode::WorkerProtocolMismatch,
            "semantic input manifest has no modelInputs array"@,
        ),
        Some(entries) => {
            let found = entries_at(entries, file);
            if found.len() == 1 && found[0].str_at("hash"@) == Some(expected) {
                Ok(())
            } else {
                failed(
                    ErrorCode::ProjectModelChanged,
                    between(
                        "model input "@,
                        file,
                        " is absent or has a different OpenProject digest"@,
                    ),
                )
            }
        },
    }
}

fn says(value: Option<&String>, text: &str) -> (r: bool)
    ensures
        r == (value.deep_view() == Some(text@)),
{
    match value {
        Some(value) => same_text(value.as_str(), text),
        None => false,
    }
}

/// Checks that a manifest has a file once, with a digest.
pub fn require_model_input_digest(manifest: &Json, file: &str, expected: &str) -> (r: Result<
    (),
    ClewError,
>)
    ensures
        outcome(r) == digest_required(manifest.deep_view(), file@, expected@),
{
    let entries = match manifest.array_at("modelInputs") {
        Some(entries) => entries,
        None => {
            return Err(
                ClewError::new(
                    ErrorCode::WorkerProtocolMismatch,
                    "semantic input manifest has no modelInputs array",
                ),
            );
        },
    };
    let ghost m = entries.deep_view();
    let ghost f = file@;
    let ghost wanted = |entry: JsonModel| entry.str_at("path"@) == Some(f);
    let mut found: Vec<Json> = Vec::new();
    let mut i: usize = 0;
    proof {
        reveal(Seq::filter);
    }
    assert(found.deep_view() =~= m.take(0).filter(wanted));
    while i < entries.len()
        invariant
            i <= entries.len(),
            m == entries.deep_view(),
            f == file@,
            wanted == (|entry: JsonModel| entry.str_at("path"@) == Some(f)),
            found.deep_view() == m.take(i as int).filter(wanted),
        decreases entries.len() - i,
    {
        assert(m[i as int] == entries@[i as int].deep_view());
        assert(m.take(i as int + 1).drop_last() =~= m.take(i as int));
        proof {
            reveal(Seq::filter);
        }
        if says(entries[i].str_at("path"), file) {
            let ghost before = found.deep_view();
            found.push(entries[i].copied());
            assert(found.deep_view() =~= before.push(m[i as int]));
        }
        i = i + 1;
    }
    assert(m.take(m.len() as int) =~= m);
    if found.len() == 1 {
        assert(found.deep_view()[0] == found@[0].deep_view());
        if says(found[0].str_at("hash"), expected) {
            return Ok(());
        }
    }
    Err(
        ClewError::new(
            ErrorCode::ProjectModelChanged,
            framed(
                "model input ",
                file,
                " is absent or has a different OpenProject digest",
            ).as_str(),
        ),
    )
}

/// The outcome for the project that a model input is replaced in: it is the one of the
/// task.
pub open spec fn project_authorized(
    project: JsonModel,
    project_model_hash: Seq<char>,
    manifest_hash: Option<Seq<char>>,
    file: Seq<char>,
    file_hash: Seq<char>,
) -> Result<(), ErrorModel> {
    if project.str_at("projectModelHash"@) != Some(project_model_hash) {
        failed(
            ErrorCode::ProjectModelChanged,
            "live project model differs from model-input task authority"@,
        )
    } else {
        match manifest_verified(project) {
            Err(e) => Err(e),
            Ok((manifest, digest)) => if manifest_hash != Some(digest) {
                failed(
                    ErrorCode::ProjectModelChanged,
                    "model-input target manifest differs from live OpenProject"@,
                )
            } else {
                digest_required(manifest, file, file_hash)
            },
        }
    }
}

/// Checks the project that a model input is replaced in.
pub fn validate_model_input_project_authority(
    project: &Json,
    project_model_hash: &str,
    manifest_hash: Option<&String>,
    file: &str,
    file_hash: &str,
) -> (r: Result<(), ClewError>)
    ensures
        outcome(r) == project_authorized(
            project.deep_view(),
            project_model_hash@,
            manifest_hash.deep_view(),
            file@,
            file_hash@,
        ),
{
    if !says(project.str_at("projectModelHash"), project_model_hash) {
        return Err(
            ClewError::new(
                ErrorCode::ProjectModelChanged,
                "live project model differs from model-input task authority",
            ),
        );
    }
    let (manifest, digest) = verified_manifest(project)?;
    if !says(manifest_hash, digest.as_str()) {
        return Err(
            ClewError::new(
                ErrorCode::ProjectModelChanged,
                "model-input target manifest differs from live OpenProject",
            ),
        );
    }
    require_model_input_digest(&manifest, file, file_hash)
}

/// Whether a path is written as itself: relative, without empty parts, dots or
/// backslashes.
pub open spec fn is_canonical_path(path: Seq<char>) -> bool {
    is_relative_path(path) && !path.contains('\\')
}

/// The outcome for the path of a model input.
pub fn check_canonical_path(path: &str) -> (r: Result<(), ClewError>)
    ensures
        outcome(r) == (if is_canonical_path(path@) {
            Ok(())
        } else {
            failed(
                ErrorCode::InvalidInput,
                "model input path is not canonical: "@ + path@,
            )
        }),
{
    if relative_path(path) && !contains_char(path, '\\') {
        return Ok(());
    }
    Err(
        ClewError::new(
            ErrorCode::InvalidInput,
            joined("model input path is not canonical: ", path).as_str(),
        ),
    )
}

/// The parts of bytes between the ones of a value.
pub open spec fn byte_parts(s: Seq<u8>, separator: u8) -> Seq<Seq<u8>>
    decreases s.len(),
{
    if s.len() == 0 {
        seq![Seq::empty()]
    } else {
        let before = byte_parts(s.drop_last(), separator);
        if s.last() == separator {
            before.push(Seq::empty())
        } else {
            before.drop_last().push(before.last().push(s.last()))
        }
    }
}

/// The parts of bytes between the ones of a value that are not empty.
pub open spec fn byte_records(s: Seq<u8>, separator: u8) -> Seq<Seq<u8>> {
    byte_parts(s, separator).filter(|part: Seq<u8>| part.len() > 0)
}

/// The place of the first byte of a value from a place on, or the end.
pub open spec fn byte_place(s: Seq<u8>, value: u8, i: int) -> int
    decreases s.len() - i,
{
    if i < 0 || i >= s.len() || s[i] == value {
        i
    } else {
        byte_place(s, value, i + 1)
    }
}

/// Whether what the index says of a file, as `mode object stage`, is a regular file
/// that is not in conflict.
pub open spec fn is_regular_stage(stage: Seq<u8>) -> bool {
    let fields = byte_parts(stage, 0x20u8);
    fields.len() == 3 && (fields[0] == "100644"@.map(|_i, c: char| c as u8) || fields[0]
        == "100755"@.map(|_i, c: char| c as u8)) && fields[2] == seq![0x30u8]
}

/// Whether a listing of the index has one regular file, with the path.
pub open spec fn is_tracked(listing: Seq<u8>, path: Seq<char>) -> bool {
    let records = byte_records(listing, 0u8);
    records.len() == 1 && {
        let record = records[0];
        let at = byte_place(record, 9u8, 0);
        at < record.len() && is_regular_stage(record.take(at)) && record.skip(at + 1)
            == vstd::utf8::encode_utf8(path)
    }
}

fn split_bytes(v: &Vec<u8>, separator: u8) -> (r: Vec<Vec<u8>>)
    ensures
        r@.len() == byte_parts(v@, separator).len(),
        forall|i: int| 0 <= i < r@.len() ==> (#[trigger] r@[i])@ == byte_parts(v@, separator)[i],
{
    let mut done: Vec<Vec<u8>> = Vec::new();
    let mut current: Vec<u8> = Vec::new();
    let mut i: usize = 0;
    assert(v@.take(0) =~= Seq::empty());
    assert(current@ =~= Seq::empty());
    while i < v.len()
        invariant
            i <= v.len(),
            ({
                let parts = byte_parts(v@.take(i as int), separator);
                &&& parts.len() == done@.len() + 1
                &&& parts.last() == current@
                &&& forall|k: int| 0 <= k < done@.len() ==> (#[trigger] done@[k])@ == parts[k]
            }),
        decreases v.len() - i,
    {
        let b: u8 = v[i];
        assert(v@.take(i + 1).drop_last() =~= v@.take(i as int));
        let ghost parts = byte_parts(v@.take(i as int), separator);
        let ghost next = byte_parts(v@.take(i + 1), separator);
        if b == separator {
            assert(next == parts.push(Seq::empty()));
            done.push(current);
            current = Vec::new();
            assert(current@ =~= Seq::empty());
        } else {
            current.push(b);
            assert(next == parts.drop_last().push(parts.last().push(b)));
        }
        i = i + 1;
    }
    assert(v@.take(v@.len() as int) =~= v@);
    done.push(current);
    done
}

fn regular_stage(stage: &Vec<u8>) -> (r: bool)
    ensures
        r == is_regular_stage(stage@),
{
    let fields = split_bytes(stage, 0x20);
    if fields.len() != 3 {
        return false;
    }
    let plain: [u8; 6] = [0x31, 0x30, 0x30, 0x36, 0x34, 0x34];
    let executable: [u8; 6] = [0x31, 0x30, 0x30, 0x37, 0x35, 0x35];
    let zero: [u8; 1] = [0x30];
    proof {
        reveal_strlit("100644");
        reveal_strlit("100755");
        assert(plain@ =~= "100644"@.map(|_i, c: char| c as u8));
        assert(executable@ =~= "100755"@.map(|_i, c: char| c as u8));
        assert(zero@ =~= seq![0x30u8]);
    }
    (same_bytes(fields[0].as_slice(), plain.as_slice()) || same_bytes(
        fields[0].as_slice(),
        executable.as_slice(),
    )) && same_bytes(fields[2].as_slice(), zero.as_slice())
}

fn place_of_byte(v: &Vec<u8>, value: u8) -> (r: usize)
    ensures
        r == byte_place(v@, value, 0),
        r <= v@.len(),
{
    let mut i: usize = 0;
    while i < v.len() && v[i] != value
        invariant
            i <= v.len(),
            byte_place(v@, value, 0) == byte_place(v@, value, i as int),
        decreases v.len() - i,
    {
        i = i + 1;
    }
    i
}

fn bytes_between(v: &Vec<u8>, start: usize, end: usize) -> (r: Vec<u8>)
    requires
        start <= end <= v@.len(),
    ensures
        r@ == v@.subrange(start as int, end as int),
{
    let mut r: Vec<u8> = Vec::new();
    let mut i: usize = start;
    while i < end
        invariant
            start <= i <= end <= v@.len(),
            r@ =~= v@.subrange(start as int, i as int),
        decreases end - i,
    {
        r.push(v[i]);
        i = i + 1;
    }
    r
}

fn nonempty_records(parts: &Vec<Vec<u8>>, Ghost(all): Ghost<Seq<Seq<u8>>>) -> (r: Vec<Vec<u8>>)
    requires
        parts@.len() == all.len(),
        forall|i: int| 0 <= i < all.len() ==> (#[trigger] parts@[i])@ == all[i],
    ensures
        r@.len() == all.filter(|part: Seq<u8>| part.len() > 0).len(),
        forall|i: int|
            0 <= i < r@.len() ==> (#[trigger] r@[i])@ == all.filter(
                |part: Seq<u8>| part.len() > 0,
            )[i],
{
    let ghost wanted = |part: Seq<u8>| part.len() > 0;
    let mut r: Vec<Vec<u8>> = Vec::new();
    let mut i: usize = 0;
    proof {
        reveal(Seq::filter);
    }
    assert(all.take(0).filter(wanted) =~= Seq::empty());
    while i < parts.len()
        invariant
            i <= parts.len(),
            parts@.len() == all.len(),
            wanted == (|part: Seq<u8>| part.len() > 0),
            forall|k: int| 0 <= k < all.len() ==> (#[trigger] parts@[k])@ == all[k],
            r@.len() == all.take(i as int).filter(wanted).len(),
            forall|k: int|
                0 <= k < r@.len() ==> (#[trigger] r@[k])@ == all.take(i as int).filter(wanted)[k],
        decreases parts.len() - i,
    {
        assert(all.take(i as int + 1).drop_last() =~= all.take(i as int));
        proof {
            reveal(Seq::filter);
        }
        assert(parts@[i as int]@ == all[i as int]);
        if parts[i].len() > 0 {
            let part = bytes_between(&parts[i], 0, parts[i].len());
            assert(part@ =~= all[i as int]);
            r.push(part);
        }
        i = i + 1;
    }
    assert(all.take(all.len() as int) =~= all);
    r
}

/// Whether a listing of the index has one regular file, with the path.
pub fn tracked_regular(listing: &Vec<u8>, path: &str) -> (r: bool)
    ensures
        r == is_tracked(listing@, path@),
{
    let parts = split_bytes(listing, 0);
    let records = nonempty_records(&parts, Ghost(byte_parts(listing@, 0u8)));
    if records.len() != 1 {
        return false;
    }
    let record = &records[0];
    assert(record@ == byte_records(listing@, 0u8)[0]);
    let at: usize = place_of_byte(record, 9);
    if at >= record.len() {
        return false;
    }
    let stage = bytes_between(record, 0, at);
    let name = bytes_between(record, at + 1, record.len());
    assert(stage@ =~= record@.take(at as int));
    assert(name@ =~= record@.skip(at + 1));
    regular_stage(&stage) && same_bytes(name.as_slice(), path.as_bytes_vec().as_slice())
}

/// What stands at a path, a link not followed.
#[derive(Clone, Copy, Debug, PartialEq, Eq, Structural)]
pub enum PathKind {
    File,
    Directory,
    Link,
    Other,
}

/// Whether the parts of a path lead through directories to a file, from one on.
pub open spec fn leads_to_file(kinds: Seq<PathKind>) -> bool {
    forall|i: int|
        0 <= i < kinds.len() ==> #[trigger] kinds[i] == if i + 1 == kinds.len() {
            PathKind::File
        } else {
            PathKind::Directory
        }
}

/// The outcome for a model input in the index and on disk.
pub open spec fn tracking_checked(
    listed: bool,
    listing: Seq<u8>,
    kinds: Seq<PathKind>,
    path: Seq<char>,
) -> Result<(), ErrorModel> {
    if !listed || !is_tracked(listing, path) {
        failed(
            ErrorCode::InvalidInput,
            "model input is not one exact tracked regular file: "@ + path,
        )
    } else if !leads_to_file(kinds) {
        failed(
            ErrorCode::InvalidInput,
            "model input is not a nonsymlink regular file: "@ + path,
        )
    } else {
        Ok(())
    }
}

/// Checks a model input in the index and on disk: what the index lists for it, and
/// what stands at each of the parts of its path.
pub fn require_tracked_model_input(
    listed: bool,
    listing: &Vec<u8>,
    kinds: &Vec<PathKind>,
    path: &str,
) -> (r: Result<(), ClewError>)
    ensures
        outcome(r) == tracking_checked(listed, listing@, kinds@, path@),
{
    if !listed || !tracked_regular(listing, path) {
        return Err(
            ClewError::new(
                ErrorCode::InvalidInput,
                joined("model input is not one exact tracked regular file: ", path).as_str(),
            ),
        );
    }
    let mut i: usize = 0;
    while i < kinds.len()
        invariant
            i <= kinds.len(),
            listed && is_tracked(listing@, path@),
            forall|k: int|
                0 <= k < i ==> #[trigger] kinds@[k] == if k + 1 == kinds@.len() {
                    PathKind::File
                } else {
                    PathKind::Directory
                },
        decreases kinds.len() - i,
    {
        let expected = if i + 1 == kinds.len() {
            PathKind::File
        } else {
            PathKind::Directory
        };
        if kinds[i] != expected {
            assert(!leads_to_file(kinds@));
            return Err(
                ClewError::new(
                    ErrorCode::InvalidInput,
                    joined("model input is not a nonsymlink regular file: ", path).as_str(),
                ),
            );
        }
        i = i + 1;
    }
    Ok(())
}

/// The writes of model inputs.
pub open spec fn model_writes(writes: Seq<WriteFactModel>) -> Seq<WriteFactModel> {
    writes.filter(|w: WriteFactModel| w.kind == "MODEL_INPUT"@)
}

/// What is said of one model input that changes.
#[verifier::opaque]
pub open spec fn transition_row(w: WriteFactModel) -> JsonModel {
    JsonModel::object().with("path"@, JsonModel::Str(w.key)).with(
        "beforeHash"@,
        JsonModel::Str(w.before_hash),
    ).with("afterHash"@, JsonModel::Str(w.after_hash))
}

/// What is said of the model inputs that change, from one on, behind some: each is
/// in both manifests with its digest, and none is twice.
pub open spec fn transitions_from(
    before: JsonModel,
    after: JsonModel,
    writes: Seq<WriteFactModel>,
    rows: Seq<JsonModel>,
    i: int,
) -> Result<Seq<JsonModel>, ErrorModel>
    decreases writes.len() - i,
{
    if i < 0 || i >= writes.len() {
        Ok(rows)
    } else {
        let w = writes[i];
        if (exists|k: int| 0 <= k < i && (#[trigger] writes[k]).key == w.key) || w.before_hash
            == w.after_hash {
            failed(
                ErrorCode::ProjectModelChanged,
                "candidate model transition has an invalid MODEL_INPUT write fact"@,
            )
        } else {
            match digest_required(before, w.key, w.before_hash) {
                Err(e) => Err(e),
                Ok(_) => match digest_required(after, w.key, w.after_hash) {
                    Err(e) => Err(e),
                    Ok(_) => transitions_from(
                        before,
                        after,
                        writes,
                        rows.push(transition_row(w)),
                        i + 1,
                    ),
                },
            }
        }
    }
}

/// What is said of a change of the model of a project.
#[verifier::opaque]
pub open spec fn transition_said(
    authority: JsonModel,
    candidate: JsonModel,
    before_manifest: Seq<char>,
    after_manifest: Seq<char>,
    before_stable: Seq<char>,
    after_stable: Seq<char>,
    rows: Seq<JsonModel>,
) -> JsonModel {
    JsonModel::object().with("kind"@, JsonModel::Str("PROJECT_MODEL_TRANSITION"@)).with(
        "authority"@,
        JsonModel::Str("REPLACE_MODEL_INPUT"@),
    ).with("status"@, JsonModel::Str("PENDING_INDEX_VERIFICATION"@)).with(
        "beforeProjectModelHash"@,
        member_or_null(authority, "projectModelHash"@),
    ).with("afterProjectModelHash"@, member_or_null(candidate, "projectModelHash"@)).with(
        "beforeSemanticInputManifestHash"@,
        JsonModel::Str(before_manifest),
    ).with("afterSemanticInputManifestHash"@, JsonModel::Str(after_manifest)).with(
        "beforeStableProjectModelIdentity"@,
        JsonModel::Str(before_stable),
    ).with("afterStableProjectModelIdentity"@, JsonModel::Str(after_stable)).with(
        "stableIdentityChanged"@,
        JsonModel::Bool(before_stable != after_stable),
    ).with("modelInputs"@, JsonModel::Arr(rows))
}

/// A member of a value, or nothing.
pub open spec fn member_or_null(value: JsonModel, key: Seq<char>) -> JsonModel {
    match value.get(key) {
        Some(v) => v,
        None => JsonModel::Null,
    }
}

/// A member of a value, or nothing.
pub fn get_or_null(value: &Json, key: &str) -> (r: Json)
    ensures
        r.deep_view() == member_or_null(value.deep_view(), key@),
{
    match value.get(key) {
        Some(v) => v.copied(),
        None => Json::Null,
    }
}

/// What is said of a change of the model of a project, from its model before and
/// after and what stays of each when it is opened again. Only the writing of model
/// inputs may change it.
pub open spec fn transition_evidence(
    authority: JsonModel,
    candidate: JsonModel,
    before_stable: Seq<char>,
    after_stable: Seq<char>,
    writes: Seq<WriteFactModel>,
) -> Result<Option<JsonModel>, ErrorModel> {
    let inputs = model_writes(writes);
    if inputs.len() == 0 {
        if before_stable != after_stable {
            failed(
                ErrorCode::ProjectModelChanged,
                "candidate semantic project model differs without an authorized model-input write"@,
            )
        } else {
            Ok(None)
        }
    } else {
        match manifest_verified(authority) {
            Err(e) => Err(e),
            Ok((before, before_hash)) => match manifest_verified(candidate) {
                Err(e) => Err(e),
                Ok((after, after_hash)) => match transitions_from(
                    before,
                    after,
                    inputs,
                    Seq::empty(),
                    0,
                ) {
                    Err(e) => Err(e),
                    Ok(rows) => Ok(
                        Some(
                            transition_said(
                                authority,
                                candidate,
                                before_hash,
                                after_hash,
                                before_stable,
                                after_stable,
                                rows,
                            ),
                        ),
                    ),
                },
            },
        }
    }
}

fn writes_of_inputs(writes: &Vec<WriteFact>) -> (r: Vec<WriteFact>)
    ensures
        r.deep_view() == model_writes(writes.deep_view()),
{
    let ghost m = writes.deep_view();
    let ghost wanted = |w: WriteFactModel| w.kind == "MODEL_INPUT"@;
    let mut r: Vec<WriteFact> = Vec::new();
    let mut i: usize = 0;
    proof {
        reveal(Seq::filter);
    }
    assert(r.deep_view() =~= m.take(0).filter(wanted));
    while i < writes.len()
        invariant
            i <= writes.len(),
            m == writes.deep_view(),
            wanted == (|w: WriteFactModel| w.kind == "MODEL_INPUT"@),
            r.deep_view() == m.take(i as int).filter(wanted),
        decreases writes.len() - i,
    {
        assert(m[i as int] == writes@[i as int].deep_view());
        assert(m.take(i as int + 1).drop_last() =~= m.take(i as int));
        proof {
            reveal(Seq::filter);
        }
        if same_text(writes[i].kind.as_str(), "MODEL_INPUT") {
            let ghost before = r.deep_view();
            r.push(writes[i].copied());
            assert(r.deep_view() =~= before.push(m[i as int]));
        }
        i = i + 1;
    }
    assert(m.take(m.len() as int) =~= m);
    r
}

fn key_before(writes: &Vec<WriteFact>, n: usize, key: &str) -> (r: bool)
    requires
        n <= writes@.len(),
    ensures
        r == exists|k: int| 0 <= k < n && (#[trigger] writes.deep_view()[k]).key == key@,
{
    let ghost m = writes.deep_view();
    let mut i: usize = 0;
    while i < n
        invariant
            i <= n <= writes@.len(),
            m == writes.deep_view(),
            forall|k: int| 0 <= k < i ==> (#[trigger] m[k]).key != key@,
        decreases n - i,
    {
        assert(m[i as int] == writes@[i as int].deep_view());
        if same_text(writes[i].key.as_str(), key) {
            return true;
        }
        i = i + 1;
    }
    false
}

fn row_of_transition(w: &WriteFact) -> (r: Json)
    ensures
        r.deep_view() == transition_row(w.deep_view()),
{
    proof {
        reveal(transition_row);
    }
    Json::object().with("path", Json::Str(w.key.clone())).with(
        "beforeHash",
        Json::Str(w.before_hash.clone()),
    ).with("afterHash", Json::Str(w.after_hash.clone()))
}

fn rows_of_transitions(before: &Json, after: &Json, writes: &Vec<WriteFact>) -> (r: Result<
    Vec<Json>,
    ClewError,
>)
    ensures
        outcome(r) == transitions_from(
            before.deep_view(),
            after.deep_view(),
            writes.deep_view(),
            Seq::empty(),
            0,
        ),
{
    let ghost b = before.deep_view();
    let ghost a = after.deep_view();
    let ghost m = writes.deep_view();
    let mut rows: Vec<Json> = Vec::new();
    let mut i: usize = 0;
    assert(rows.deep_view() =~= Seq::empty());
    while i < writes.len()
        invariant
            i <= writes.len(),
            b == before.deep_view(),
            a == after.deep_view(),
            m == writes.deep_view(),
            transitions_from(b, a, m, Seq::empty(), 0) == transitions_from(
                b,
                a,
                m,
                rows.deep_view(),
                i as int,
            ),
        decreases writes.len() - i,
    {
        assert(m[i as int] == writes@[i as int].deep_view());
        let w = &writes[i];
        if key_before(writes, i, w.key.as_str()) || w.before_hash.same_as(&w.after_hash) {
            return Err(
                ClewError::new(
                    ErrorCode::ProjectModelChanged,
                    "candidate model transition has an invalid MODEL_INPUT write fact",
                ),
            );
        }
        require_model_input_digest(before, w.key.as_str(), w.before_hash.as_str())?;
        require_model_input_digest(after, w.key.as_str(), w.after_hash.as_str())?;
        let ghost old_rows = rows.deep_view();
        rows.push(row_of_transition(w));
        assert(rows.deep_view() =~= old_rows.push(transition_row(m[i as int])));
        i = i + 1;
    }
    Ok(rows)
}

/// Says how the model of a project changed, where that is allowed.
pub fn project_model_transition_evidence(
    authority: &Json,
    candidate: &Json,
    before_stable: &str,
    after_stable: &str,
    writes: &Vec<WriteFact>,
) -> (r: Result<Option<Json>, ClewError>)
    ensures
        outcome(r) == transition_evidence(
            authority.deep_view(),
            candidate.deep_view(),
            before_stable@,
            after_stable@,
            writes.deep_view(),
        ),
{
    let inputs = writes_of_inputs(writes);
    let changed = !same_text(before_stable, after_stable);
    if inputs.len() == 0 {
        if changed {
            return Err(
                ClewError::new(
                    ErrorCode::ProjectModelChanged,
                    "candidate semantic project model differs without an authorized model-input write",
                ),
            );
        }
        return Ok(None);
    }
    let (before, before_hash) = verified_manifest(authority)?;
    let (after, after_hash) = verified_manifest(candidate)?;
    let rows = rows_of_transitions(&before, &after, &inputs)?;
    proof {
        reveal(transition_said);
    }
    Ok(
        Some(
            Json::object().with("kind", Json::Str("PROJECT_MODEL_TRANSITION".to_owned())).with(
                "authority",
                Json::Str("REPLACE_MODEL_INPUT".to_owned()),
            ).with("status", Json::Str("PENDING_INDEX_VERIFICATION".to_owned())).with(
                "beforeProjectModelHash",
                get_or_null(authority, "projectModelHash"),
            ).with("afterProjectModelHash", get_or_null(candidate, "projectModelHash")).with(
                "beforeSemanticInputManifestHash",
                Json::Str(before_hash),
            ).with("afterSemanticInputManifestHash", Json::Str(after_hash)).with(
                "beforeStableProjectModelIdentity",
                Json::Str(before_stable.to_owned()),
            ).with("afterStableProjectModelIdentity", Json::Str(after_stable.to_owned())).with(
                "stableIdentityChanged",
                Json::Bool(changed),
            ).with("modelInputs", list(rows)),
        ),
    )
}

/// The model of a project changes only with the writing of a model input: where none
/// is written and what stays of the model is another, the change is refused.
pub proof fn model_changes_need_model_writes(
    authority: JsonModel,
    candidate: JsonModel,
    before_stable: Seq<char>,
    after_stable: Seq<char>,
    writes: Seq<WriteFactModel>,
)
    requires
        forall|i: int| 0 <= i < writes.len() ==> (#[trigger] writes[i]).kind != "MODEL_INPUT"@,
    ensures
        transition_evidence(authority, candidate, before_stable, after_stable, writes) is Ok
            <==> before_stable == after_stable,
{
    reveal(Seq::filter);
    no_model_writes(writes);
}

proof fn no_model_writes(writes: Seq<WriteFactModel>)
    requires
        forall|i: int| 0 <= i < writes.len() ==> (#[trigger] writes[i]).kind != "MODEL_INPUT"@,
    ensures
        model_writes(writes).len() == 0,
    decreases writes.len(),
{
    reveal(Seq::filter);
    if writes.len() > 0 {
        let rest = writes.drop_last();
        assert forall|i: int| 0 <= i < rest.len() implies (#[trigger] rest[i]).kind
            != "MODEL_INPUT"@ by {
            assert(rest[i] == writes[i]);
        }
        no_model_writes(rest);
        assert(writes.last() == writes[writes.len() - 1]);
    }
}

} // verus!
