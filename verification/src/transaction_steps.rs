//! What the steps of a preview hand on: every edit starts from what the earlier ones made of
//! its file, what an edit gives back is what its file would have, and the report says just
//! what differs from the files as they are.

use vstd::prelude::*;
use vstd::string::*;

use crate::canonical::digest_of;
use crate::edit::{
    EditIrModel, EditOperationModel, PreviewReportModel, SemanticOperation, ThreadIrModel,
    WriteFact, WriteFactModel,
};
use crate::error::ErrorModel;
use crate::json::{members_of_with, JsonModel};
use crate::order;
use crate::owner_identity::{owner_canonical, parsed_json};
use crate::record::Record;
use crate::table::{has_key, is_table, key_stands_once, replaced, replacing_sets_one_record, Keyed};
use crate::transaction::{
    any_deferring, body_recorded, changed_from, current_source, delta_recorded, deltas_recorded,
    diff_of, diffs_from, edit_request, forbidden_effect, has_text, is_deferring, is_model_input,
    items_or_none, line_diff_of, operation_checked, original_at, owner_value, preview_asked,
    preview_stepped, real_writes, response_told, sources_said, str_or, target_transported,
    Candidate, CandidateModel, PreviewActionModel, PreviewEventModel, PreviewPhase,
    PreviewStateModel, Step,
};

verus! {

/// The text that a value has under a key.
pub open spec fn said_in(value: JsonModel, key: Seq<char>) -> Option<Seq<char>> {
    match value.get(key) {
        Some(JsonModel::Str(text)) => Some(text),
        _ => None,
    }
}

/// The text that a value has under a key, or no characters.
pub open spec fn text_in(value: JsonModel, key: Seq<char>) -> Seq<char> {
    match said_in(value, key) {
        Some(text) => text,
        None => Seq::empty(),
    }
}

/// What a value has under a key, or null.
pub open spec fn value_in(value: JsonModel, key: Seq<char>) -> JsonModel {
    match value.get(key) {
        Some(found) => found,
        None => JsonModel::Null,
    }
}

/// The list that a value has under a key, or an empty one.
pub open spec fn list_in(value: JsonModel, key: Seq<char>) -> Seq<JsonModel> {
    match value.get(key) {
        Some(JsonModel::Arr(items)) => items,
        _ => Seq::empty(),
    }
}

/// Whether a source is the one that earlier operations made of a file, or, where they made
/// none, the one that the file has.
pub open spec fn is_latest_source(
    candidates: Seq<CandidateModel>,
    file: Seq<char>,
    original: Seq<char>,
    source: Seq<char>,
) -> bool {
    &&& forall|i: int|
        0 <= i < candidates.len() && (#[trigger] candidates[i]).file == file && (forall|j: int|
            0 <= j < i ==> (#[trigger] candidates[j]).file != file) ==> source
            == candidates[i].source
    &&& (forall|i: int| 0 <= i < candidates.len() ==> (#[trigger] candidates[i]).file != file)
        ==> source == original
}

/// Whether an edit has an operation that leaves the checking of meaning to a later step.
pub open spec fn leaves_checks(edit: EditIrModel) -> bool {
    exists|i: int|
        0 <= i < edit.operations.len() && {
            let kind = (#[trigger] edit.operations[i]).kind;
            kind == "REPLACE_DECLARATION"@ || kind == "REWRITE_DECLARATION"@ || kind
                == "CREATE_FILE"@
        }
}

/// Whether a request asks for an operation on a source of its file.
pub open spec fn asks_for_edit(
    thread: ThreadIrModel,
    edit: EditIrModel,
    op: EditOperationModel,
    source: Seq<char>,
    request: JsonModel,
) -> bool {
    let owner = text_in(op.target, "ownerSymbolId"@);
    &&& request.get("file"@) == op.target.get("fileId"@)
    &&& request.get("source"@) == Some(JsonModel::Str(source))
    &&& request.get("kind"@) == Some(JsonModel::Str(op.kind))
    &&& request.get("replacement"@) == Some(JsonModel::Str(op.replacement.kotlin))
    &&& request.get("semanticOperation"@) == Some(
        <Option<SemanticOperation> as Record>::json(op.semantic_operation),
    )
    &&& request.get("compilation"@) == Some(JsonModel::Str(thread.snapshot.compilation))
    &&& request.get("deferSemanticValidation"@) == Some(JsonModel::Bool(leaves_checks(edit)))
    &&& request.get("preconditions"@) == Some(op.preconditions)
    &&& request.get("postconditions"@) == Some(op.postconditions)
    &&& request.get("ownerSymbolId"@) == Some(
        JsonModel::Str(
            match owner_canonical(parsed_json(owner)) {
                Some(short) => short,
                None => owner,
            },
        ),
    )
    &&& request.get("exactTextHash"@) == Some(JsonModel::Str(text_in(op.target, "exactTextHash"@)))
    &&& request.get("syntaxKind"@) == Some(JsonModel::Str(text_in(op.target, "syntaxKind"@)))
    &&& request.get("normalizedTokenHash"@) == Some(
        JsonModel::Str(text_in(op.target, "normalizedTokenHash"@)),
    )
    &&& request.get("ancestorPathHash"@) == Some(value_in(op.target, "ancestorPathHash"@))
    &&& request.get("localOrdinal"@) == Some(value_in(op.target, "localOrdinal"@))
    &&& request.get("leftContextHash"@) == Some(value_in(op.target, "leftContextHash"@))
    &&& request.get("rightContextHash"@) == Some(value_in(op.target, "rightContextHash"@))
}

/// Whether candidates are others with the source of one file set.
pub open spec fn sets_source(
    before: Seq<CandidateModel>,
    after: Seq<CandidateModel>,
    file: Seq<char>,
    source: Seq<char>,
) -> bool {
    forall|c: CandidateModel| #[trigger]
        after.contains(c) <==> if c.file == file {
            c.source == source
        } else {
            before.contains(c)
        }
}

/// Whether what is asked next fits the operation that is at hand, or, behind the last one,
/// all candidates.
pub open spec fn asks_next(
    thread: ThreadIrModel,
    edit: EditIrModel,
    st: PreviewStateModel,
    action: PreviewActionModel,
) -> bool {
    if st.next >= edit.operations.len() {
        &&& st.phase == PreviewPhase::Originals
        &&& action is ReadOriginals
        &&& action->ReadOriginals_0.len() == st.candidates.len()
        &&& forall|i: int|
            0 <= i < st.candidates.len() ==> action->ReadOriginals_0[i] == (
            #[trigger] st.candidates[i]).file
    } else {
        let op = edit.operations[st.next as int];
        let file = text_in(op.target, "fileId"@);
        let replaces_input = op.kind == "REPLACE_MODEL_INPUT"@;
        let creates = op.kind == "CREATE_FILE"@;
        &&& op.target.get("fileId"@) == Some(JsonModel::Str(file))
        &&& !replaces_input ==> forall|i: int|
            0 <= i < st.writes.len() && (#[trigger] st.writes[i]).kind == "MODEL_INPUT"@
                ==> st.writes[i].key != file
        &&& !replaces_input && !creates && said_in(op.preconditions, "nodeTextHash"@) is Some
            ==> said_in(op.target, "exactTextHash"@) == said_in(
            op.preconditions,
            "nodeTextHash"@,
        )
        &&& match action {
            PreviewActionModel::OpenProject(request) => {
                &&& replaces_input && st.project is None && st.phase == PreviewPhase::Project
                &&& request.get("compilation"@) == Some(
                    JsonModel::Str(thread.snapshot.compilation),
                )
            },
            PreviewActionModel::InspectModelInput(asked) => {
                &&& replaces_input && st.project is Some && st.phase == PreviewPhase::ModelInput
                &&& asked == file
                &&& said_in(op.target, "syntaxKind"@) == Some("MODEL_INPUT_FILE"@)
                &&& forall|i: int|
                    0 <= i < st.candidates.len() ==> (#[trigger] st.candidates[i]).file != file
            },
            PreviewActionModel::FindFile(asked) => creates && asked == file && st.phase
                == PreviewPhase::Existence,
            PreviewActionModel::ResolveSymbol(request) => {
                &&& !replaces_input && !creates && st.phase == PreviewPhase::Signature
                &&& said_in(op.preconditions, "ownerSignatureHash"@) is Some
                &&& request.get("symbol"@) == Some(
                    JsonModel::Str(text_in(op.target, "ownerSymbolId"@)),
                )
                &&& request.get("compilation"@) == Some(
                    JsonModel::Str(thread.snapshot.compilation),
                )
            },
            PreviewActionModel::ReadSource(asked) => {
                &&& !replaces_input && !creates && st.phase == PreviewPhase::Source
                &&& said_in(op.preconditions, "ownerSignatureHash"@) is None
                &&& asked == file
            },
            _ => false,
        }
    }
}

proof fn request_keys_differ()
    ensures
        "file"@ != "source"@,
        "file"@ != "ownerSymbolId"@,
        "file"@ != "exactTextHash"@,
        "file"@ != "syntaxKind"@,
        "file"@ != "normalizedTokenHash"@,
        "file"@ != "ancestorPathHash"@,
        "file"@ != "localOrdinal"@,
        "file"@ != "leftContextHash"@,
        "file"@ != "rightContextHash"@,
        "file"@ != "kind"@,
        "file"@ != "replacement"@,
        "file"@ != "semanticOperation"@,
        "file"@ != "compilation"@,
        "file"@ != "deferSemanticValidation"@,
        "file"@ != "preconditions"@,
        "file"@ != "postconditions"@,
        "source"@ != "ownerSymbolId"@,
        "source"@ != "exactTextHash"@,
        "source"@ != "syntaxKind"@,
        "source"@ != "normalizedTokenHash"@,
        "source"@ != "ancestorPathHash"@,
        "source"@ != "localOrdinal"@,
        "source"@ != "leftContextHash"@,
        "source"@ != "rightContextHash"@,
        "source"@ != "kind"@,
        "source"@ != "replacement"@,
        "source"@ != "semanticOperation"@,
        "source"@ != "compilation"@,
        "source"@ != "deferSemanticValidation"@,
        "source"@ != "preconditions"@,
        "source"@ != "postconditions"@,
        "ownerSymbolId"@ != "exactTextHash"@,
        "ownerSymbolId"@ != "syntaxKind"@,
        "ownerSymbolId"@ != "normalizedTokenHash"@,
        "ownerSymbolId"@ != "ancestorPathHash"@,
        "ownerSymbolId"@ != "localOrdinal"@,
        "ownerSymbolId"@ != "leftContextHash"@,
        "ownerSymbolId"@ != "rightContextHash"@,
        "ownerSymbolId"@ != "kind"@,
        "ownerSymbolId"@ != "replacement"@,
        "ownerSymbolId"@ != "semanticOperation"@,
        "ownerSymbolId"@ != "compilation"@,
        "ownerSymbolId"@ != "deferSemanticValidation"@,
        "ownerSymbolId"@ != "preconditions"@,
        "ownerSymbolId"@ != "postconditions"@,
        "exactTextHash"@ != "syntaxKind"@,
        "exactTextHash"@ != "normalizedTokenHash"@,
        "exactTextHash"@ != "ancestorPathHash"@,
        "exactTextHash"@ != "localOrdinal"@,
        "exactTextHash"@ != "leftContextHash"@,
        "exactTextHash"@ != "rightContextHash"@,
        "exactTextHash"@ != "kind"@,
        "exactTextHash"@ != "replacement"@,
        "exactTextHash"@ != "semanticOperation"@,
        "exactTextHash"@ != "compilation"@,
        "exactTextHash"@ != "deferSemanticValidation"@,
        "exactTextHash"@ != "preconditions"@,
        "exactTextHash"@ != "postconditions"@,
        "syntaxKind"@ != "normalizedTokenHash"@,
        "syntaxKind"@ != "ancestorPathHash"@,
        "syntaxKind"@ != "localOrdinal"@,
        "syntaxKind"@ != "leftContextHash"@,
        "syntaxKind"@ != "rightContextHash"@,
        "syntaxKind"@ != "kind"@,
        "syntaxKind"@ != "replacement"@,
        "syntaxKind"@ != "semanticOperation"@,
        "syntaxKind"@ != "compilation"@,
        "syntaxKind"@ != "deferSemanticValidation"@,
        "syntaxKind"@ != "preconditions"@,
        "syntaxKind"@ != "postconditions"@,
        "normalizedTokenHash"@ != "ancestorPathHash"@,
        "normalizedTokenHash"@ != "localOrdinal"@,
        "normalizedTokenHash"@ != "leftContextHash"@,
        "normalizedTokenHash"@ != "rightContextHash"@,
        "normalizedTokenHash"@ != "kind"@,
        "normalizedTokenHash"@ != "replacement"@,
        "normalizedTokenHash"@ != "semanticOperation"@,
        "normalizedTokenHash"@ != "compilation"@,
        "normalizedTokenHash"@ != "deferSemanticValidation"@,
        "normalizedTokenHash"@ != "preconditions"@,
        "normalizedTokenHash"@ != "postconditions"@,
        "ancestorPathHash"@ != "localOrdinal"@,
        "ancestorPathHash"@ != "leftContextHash"@,
        "ancestorPathHash"@ != "rightContextHash"@,
        "ancestorPathHash"@ != "kind"@,
        "ancestorPathHash"@ != "replacement"@,
        "ancestorPathHash"@ != "semanticOperation"@,
        "ancestorPathHash"@ != "compilation"@,
        "ancestorPathHash"@ != "deferSemanticValidation"@,
        "ancestorPathHash"@ != "preconditions"@,
        "ancestorPathHash"@ != "postconditions"@,
        "localOrdinal"@ != "leftContextHash"@,
        "localOrdinal"@ != "rightContextHash"@,
        "localOrdinal"@ != "kind"@,
        "localOrdinal"@ != "replacement"@,
        "localOrdinal"@ != "semanticOperation"@,
        "localOrdinal"@ != "compilation"@,
        "localOrdinal"@ != "deferSemanticValidation"@,
        "localOrdinal"@ != "preconditions"@,
        "localOrdinal"@ != "postconditions"@,
        "leftContextHash"@ != "rightContextHash"@,
        "leftContextHash"@ != "kind"@,
        "leftContextHash"@ != "replacement"@,
        "leftContextHash"@ != "semanticOperation"@,
        "leftContextHash"@ != "compilation"@,
        "leftContextHash"@ != "deferSemanticValidation"@,
        "leftContextHash"@ != "preconditions"@,
        "leftContextHash"@ != "postconditions"@,
        "rightContextHash"@ != "kind"@,
        "rightContextHash"@ != "replacement"@,
        "rightContextHash"@ != "semanticOperation"@,
        "rightContextHash"@ != "compilation"@,
        "rightContextHash"@ != "deferSemanticValidation"@,
        "rightContextHash"@ != "preconditions"@,
        "rightContextHash"@ != "postconditions"@,
        "kind"@ != "replacement"@,
        "kind"@ != "semanticOperation"@,
        "kind"@ != "compilation"@,
        "kind"@ != "deferSemanticValidation"@,
        "kind"@ != "preconditions"@,
        "kind"@ != "postconditions"@,
        "replacement"@ != "semanticOperation"@,
        "replacement"@ != "compilation"@,
        "replacement"@ != "deferSemanticValidation"@,
        "replacement"@ != "preconditions"@,
        "replacement"@ != "postconditions"@,
        "semanticOperation"@ != "compilation"@,
        "semanticOperation"@ != "deferSemanticValidation"@,
        "semanticOperation"@ != "preconditions"@,
        "semanticOperation"@ != "postconditions"@,
        "compilation"@ != "deferSemanticValidation"@,
        "compilation"@ != "preconditions"@,
        "compilation"@ != "postconditions"@,
        "deferSemanticValidation"@ != "preconditions"@,
        "deferSemanticValidation"@ != "postconditions"@,
        "preconditions"@ != "postconditions"@,
{
    reveal_strlit("file");
    reveal_strlit("source");
    reveal_strlit("ownerSymbolId");
    reveal_strlit("exactTextHash");
    reveal_strlit("syntaxKind");
    reveal_strlit("normalizedTokenHash");
    reveal_strlit("ancestorPathHash");
    reveal_strlit("localOrdinal");
    reveal_strlit("leftContextHash");
    reveal_strlit("rightContextHash");
    reveal_strlit("kind");
    reveal_strlit("replacement");
    reveal_strlit("semanticOperation");
    reveal_strlit("compilation");
    reveal_strlit("deferSemanticValidation");
    reveal_strlit("preconditions");
    reveal_strlit("postconditions");
    assert("file"@.len() == 4);
    assert("source"@.len() == 6);
    assert("ownerSymbolId"@.len() == 13);
    assert("exactTextHash"@.len() == 13);
    assert("syntaxKind"@.len() == 10);
    assert("normalizedTokenHash"@.len() == 19);
    assert("ancestorPathHash"@.len() == 16);
    assert("localOrdinal"@.len() == 12);
    assert("leftContextHash"@.len() == 15);
    assert("rightContextHash"@.len() == 16);
    assert("kind"@.len() == 4);
    assert("replacement"@.len() == 11);
    assert("semanticOperation"@.len() == 17);
    assert("compilation"@.len() == 11);
    assert("deferSemanticValidation"@.len() == 23);
    assert("preconditions"@.len() == 13);
    assert("postconditions"@.len() == 14);
    assert("ancestorPathHash"@[0] == 'a');
    assert("compilation"@[0] == 'c');
    assert("exactTextHash"@[0] == 'e');
    assert("file"@[0] == 'f');
    assert("kind"@[0] == 'k');
    assert("ownerSymbolId"@[0] == 'o');
    assert("preconditions"@[0] == 'p');
    assert("replacement"@[0] == 'r');
    assert("rightContextHash"@[0] == 'r');
}

proof fn symbol_keys_differ()
    ensures
        "symbol"@ != "compilation"@,
{
    reveal_strlit("symbol");
    reveal_strlit("compilation");
    assert("symbol"@.len() == 6);
    assert("compilation"@.len() == 11);
}

proof fn window_keys_differ()
    ensures
        "file"@ != "range"@,
{
    reveal_strlit("file");
    reveal_strlit("range");
    assert("file"@.len() == 4);
    assert("range"@.len() == 5);
}

proof fn texts_are_said(value: JsonModel, key: Seq<char>)
    ensures
        value.str_at(key) == said_in(value, key),
        str_or(value, key, Seq::empty()) == text_in(value, key),
        items_or_none(value, key) == list_in(value, key),
{
}

#[verifier::rlimit(60)]
proof fn request_has_its_parts(
    thread: ThreadIrModel,
    op: EditOperationModel,
    target: JsonModel,
    file: Seq<char>,
    current: Seq<char>,
    defer: bool,
)
    ensures
        ({
            let r = edit_request(thread, op, target, file, current, defer);
            &&& r.get("file"@) == Some(JsonModel::Str(file))
            &&& r.get("source"@) == Some(JsonModel::Str(current))
            &&& r.get("ownerSymbolId"@) == Some(value_in(target, "ownerSymbolId"@))
            &&& r.get("exactTextHash"@) == Some(value_in(target, "exactTextHash"@))
            &&& r.get("syntaxKind"@) == Some(value_in(target, "syntaxKind"@))
            &&& r.get("normalizedTokenHash"@) == Some(value_in(target, "normalizedTokenHash"@))
            &&& r.get("ancestorPathHash"@) == Some(value_in(target, "ancestorPathHash"@))
            &&& r.get("localOrdinal"@) == Some(value_in(target, "localOrdinal"@))
            &&& r.get("leftContextHash"@) == Some(value_in(target, "leftContextHash"@))
            &&& r.get("rightContextHash"@) == Some(value_in(target, "rightContextHash"@))
            &&& r.get("kind"@) == Some(JsonModel::Str(op.kind))
            &&& r.get("replacement"@) == Some(JsonModel::Str(op.replacement.kotlin))
            &&& r.get("semanticOperation"@) == Some(<Option<SemanticOperation> as Record>::json(op.semantic_operation))
            &&& r.get("compilation"@) == Some(JsonModel::Str(thread.snapshot.compilation))
            &&& r.get("deferSemanticValidation"@) == Some(JsonModel::Bool(defer))
            &&& r.get("preconditions"@) == Some(op.preconditions)
            &&& r.get("postconditions"@) == Some(op.postconditions)
        }),
{
    reveal(edit_request);
    request_keys_differ();
    members_of_with(JsonModel::object(), "file"@, JsonModel::Str(file));
    let o1 = JsonModel::object().with("file"@, JsonModel::Str(file));
    members_of_with(o1, "source"@, JsonModel::Str(current));
    let o2 = o1.with("source"@, JsonModel::Str(current));
    members_of_with(o2, "ownerSymbolId"@, value_in(target, "ownerSymbolId"@));
    let o3 = o2.with("ownerSymbolId"@, value_in(target, "ownerSymbolId"@));
    members_of_with(o3, "exactTextHash"@, value_in(target, "exactTextHash"@));
    let o4 = o3.with("exactTextHash"@, value_in(target, "exactTextHash"@));
    members_of_with(o4, "syntaxKind"@, value_in(target, "syntaxKind"@));
    let o5 = o4.with("syntaxKind"@, value_in(target, "syntaxKind"@));
    members_of_with(o5, "normalizedTokenHash"@, value_in(target, "normalizedTokenHash"@));
    let o6 = o5.with("normalizedTokenHash"@, value_in(target, "normalizedTokenHash"@));
    members_of_with(o6, "ancestorPathHash"@, value_in(target, "ancestorPathHash"@));
    let o7 = o6.with("ancestorPathHash"@, value_in(target, "ancestorPathHash"@));
    members_of_with(o7, "localOrdinal"@, value_in(target, "localOrdinal"@));
    let o8 = o7.with("localOrdinal"@, value_in(target, "localOrdinal"@));
    members_of_with(o8, "leftContextHash"@, value_in(target, "leftContextHash"@));
    let o9 = o8.with("leftContextHash"@, value_in(target, "leftContextHash"@));
    members_of_with(o9, "rightContextHash"@, value_in(target, "rightContextHash"@));
    let o10 = o9.with("rightContextHash"@, value_in(target, "rightContextHash"@));
    members_of_with(o10, "kind"@, JsonModel::Str(op.kind));
    let o11 = o10.with("kind"@, JsonModel::Str(op.kind));
    members_of_with(o11, "replacement"@, JsonModel::Str(op.replacement.kotlin));
    let o12 = o11.with("replacement"@, JsonModel::Str(op.replacement.kotlin));
    members_of_with(o12, "semanticOperation"@, <Option<SemanticOperation> as Record>::json(op.semantic_operation));
    let o13 = o12.with("semanticOperation"@, <Option<SemanticOperation> as Record>::json(op.semantic_operation));
    members_of_with(o13, "compilation"@, JsonModel::Str(thread.snapshot.compilation));
    let o14 = o13.with("compilation"@, JsonModel::Str(thread.snapshot.compilation));
    members_of_with(o14, "deferSemanticValidation"@, JsonModel::Bool(defer));
    let o15 = o14.with("deferSemanticValidation"@, JsonModel::Bool(defer));
    members_of_with(o15, "preconditions"@, op.preconditions);
    let o16 = o15.with("preconditions"@, op.preconditions);
    members_of_with(o16, "postconditions"@, op.postconditions);
    let o17 = o16.with("postconditions"@, op.postconditions);
    assert(edit_request(thread, op, target, file, current, defer) == o17);
}

#[verifier::rlimit(30)]
proof fn target_has_its_parts(target: JsonModel, owner: Seq<char>)
    requires
        owner == match owner_canonical(owner_value(target)) {
            Some(short) => short,
            None => text_in(target, "ownerSymbolId"@),
        },
    ensures
        ({
            let r = target_transported(target, owner_value(target));
            &&& r.get("ownerSymbolId"@) == Some(JsonModel::Str(owner))
            &&& r.get("exactTextHash"@) == Some(JsonModel::Str(text_in(target, "exactTextHash"@)))
            &&& r.get("syntaxKind"@) == Some(JsonModel::Str(text_in(target, "syntaxKind"@)))
            &&& r.get("normalizedTokenHash"@) == Some(JsonModel::Str(text_in(target, "normalizedTokenHash"@)))
            &&& r.get("ancestorPathHash"@) == Some(value_in(target, "ancestorPathHash"@))
            &&& r.get("localOrdinal"@) == Some(value_in(target, "localOrdinal"@))
            &&& r.get("leftContextHash"@) == Some(value_in(target, "leftContextHash"@))
            &&& r.get("rightContextHash"@) == Some(value_in(target, "rightContextHash"@))
        }),
{
    reveal(target_transported);
    request_keys_differ();
    members_of_with(JsonModel::object(), "ownerSymbolId"@, JsonModel::Str(owner));
    let o1 = JsonModel::object().with("ownerSymbolId"@, JsonModel::Str(owner));
    members_of_with(o1, "exactTextHash"@, JsonModel::Str(text_in(target, "exactTextHash"@)));
    let o2 = o1.with("exactTextHash"@, JsonModel::Str(text_in(target, "exactTextHash"@)));
    members_of_with(o2, "syntaxKind"@, JsonModel::Str(text_in(target, "syntaxKind"@)));
    let o3 = o2.with("syntaxKind"@, JsonModel::Str(text_in(target, "syntaxKind"@)));
    members_of_with(o3, "normalizedTokenHash"@, JsonModel::Str(text_in(target, "normalizedTokenHash"@)));
    let o4 = o3.with("normalizedTokenHash"@, JsonModel::Str(text_in(target, "normalizedTokenHash"@)));
    members_of_with(o4, "ancestorPathHash"@, value_in(target, "ancestorPathHash"@));
    let o5 = o4.with("ancestorPathHash"@, value_in(target, "ancestorPathHash"@));
    members_of_with(o5, "localOrdinal"@, value_in(target, "localOrdinal"@));
    let o6 = o5.with("localOrdinal"@, value_in(target, "localOrdinal"@));
    members_of_with(o6, "leftContextHash"@, value_in(target, "leftContextHash"@));
    let o7 = o6.with("leftContextHash"@, value_in(target, "leftContextHash"@));
    members_of_with(o7, "rightContextHash"@, value_in(target, "rightContextHash"@));
    let o8 = o7.with("rightContextHash"@, value_in(target, "rightContextHash"@));
    assert(target_transported(target, owner_value(target)) == o8);
}

proof fn latest_source(candidates: Seq<CandidateModel>, file: Seq<char>, original: Seq<char>)
    ensures
        is_latest_source(candidates, file, original, current_source(candidates, file, original)),
    decreases candidates.len(),
{
    let source = current_source(candidates, file, original);
    if candidates.len() > 0 {
        assert(Candidate::key(candidates[0]) == candidates[0].file);
        if candidates[0].file == file {
            assert forall|i: int|
                0 <= i < candidates.len() && (#[trigger] candidates[i]).file == file && (forall|
                    j: int,
                |
                    0 <= j < i ==> (#[trigger] candidates[j]).file != file) implies source
                == candidates[i].source by {
                if i > 0 {
                    assert(candidates[0].file != file);
                }
            }
        } else {
            let rest = candidates.drop_first();
            latest_source(rest, file, original);
            assert(source == current_source(rest, file, original));
            assert forall|i: int|
                0 <= i < candidates.len() && (#[trigger] candidates[i]).file == file && (forall|
                    j: int,
                |
                    0 <= j < i ==> (#[trigger] candidates[j]).file != file) implies source
                == candidates[i].source by {
                assert(rest[i - 1] == candidates[i]);
                assert forall|j: int| 0 <= j < i - 1 implies (#[trigger] rest[j]).file != file by {
                    assert(rest[j] == candidates[j + 1]);
                }
            }
            if forall|i: int| 0 <= i < candidates.len() ==> (#[trigger] candidates[i]).file != file {
                assert forall|i: int| 0 <= i < rest.len() implies (#[trigger] rest[i]).file != file by {
                    assert(rest[i] == candidates[i + 1]);
                }
            }
        }
    }
}

/// Once the source of a file is known, the edit that is asked for starts from what earlier
/// operations made of this file, and from the file itself only where they made nothing of it;
/// the request says all that the operation says.
pub proof fn edits_start_from_earlier_ones(
    st: PreviewStateModel,
    thread: ThreadIrModel,
    edit: EditIrModel,
    allowed: bool,
    original: Seq<char>,
    next: PreviewStateModel,
    action: PreviewActionModel,
)
    requires
        st.phase == PreviewPhase::Source,
        preview_stepped(st, thread, edit, allowed, PreviewEventModel::Source(original)) == Ok::<
            Step,
            ErrorModel,
        >((next, action)),
    ensures
        st.next < edit.operations.len(),
        action is ApplyEdit,
        asks_for_edit(
            thread,
            edit,
            edit.operations[st.next as int],
            next.current,
            action->ApplyEdit_0,
        ),
        is_latest_source(
            st.candidates,
            text_in(edit.operations[st.next as int].target, "fileId"@),
            original,
            next.current,
        ),
        next == (PreviewStateModel {
            phase: PreviewPhase::Response,
            current: next.current,
            ..st
        }),
{
    let op = edit.operations[st.next as int];
    let file = operation_checked(op, allowed)->Ok_0;
    let current = current_source(st.candidates, file, original);
    let target = target_transported(op.target, owner_value(op.target));
    texts_are_said(op.target, "ownerSymbolId"@);
    let owner = match owner_canonical(owner_value(op.target)) {
        Some(short) => short,
        None => text_in(op.target, "ownerSymbolId"@),
    };
    target_has_its_parts(op.target, owner);
    request_has_its_parts(thread, op, target, file, current, any_deferring(edit.operations));
    latest_source(st.candidates, file, original);
    assert(any_deferring(edit.operations) == leaves_checks(edit)) by {
        if any_deferring(edit.operations) {
            let i = choose|i: int|
                0 <= i < edit.operations.len() && is_deferring((#[trigger] edit.operations[i]).kind);
            assert(is_deferring(edit.operations[i].kind));
        }
        if leaves_checks(edit) {
            let i = choose|i: int|
                0 <= i < edit.operations.len() && {
                    let kind = (#[trigger] edit.operations[i]).kind;
                    kind == "REPLACE_DECLARATION"@ || kind == "REWRITE_DECLARATION"@ || kind
                        == "CREATE_FILE"@
                };
            assert(is_deferring(edit.operations[i].kind));
        }
    }
}

proof fn candidate_is_set(candidates: Seq<CandidateModel>, file: Seq<char>, source: Seq<char>)
    requires
        is_table::<Candidate>(candidates),
    ensures
        is_table::<Candidate>(replaced::<Candidate>(candidates, CandidateModel { file, source })),
        sets_source(
            candidates,
            replaced::<Candidate>(candidates, CandidateModel { file, source }),
            file,
            source,
        ),
{
    let x = CandidateModel { file, source };
    replacing_sets_one_record::<Candidate>(candidates, x);
    let after = replaced::<Candidate>(candidates, x);
    assert forall|c: CandidateModel| #[trigger] after.contains(c) <==> if c.file == file {
        c.source == source
    } else {
        candidates.contains(c)
    } by {
        assert(Candidate::key(c) == c.file && Candidate::key(x) == file);
        if c.file == file && c.source == source {
            assert(c == x);
        }
    }
}

proof fn next_is_asked(
    st: PreviewStateModel,
    thread: ThreadIrModel,
    edit: EditIrModel,
    allowed: bool,
)
    ensures
        match preview_asked(st, thread, edit, allowed) {
            Ok((next, action)) => asks_next(thread, edit, next, action) && next == (
            PreviewStateModel { phase: next.phase, ..st }),
            Err(_) => true,
        },
{
    if st.next < edit.operations.len() {
        let op = edit.operations[st.next as int];
        symbol_keys_differ();
        texts_are_said(op.target, "ownerSymbolId"@);
        texts_are_said(op.target, "fileId"@);
        texts_are_said(op.target, "exactTextHash"@);
        texts_are_said(op.target, "syntaxKind"@);
        texts_are_said(op.preconditions, "nodeTextHash"@);
        texts_are_said(op.preconditions, "ownerSignatureHash"@);
        let o = JsonModel::object();
        let symbol = JsonModel::Str(text_in(op.target, "ownerSymbolId"@));
        let compilation = JsonModel::Str(thread.snapshot.compilation);
        members_of_with(o, "compilation"@, compilation);
        members_of_with(o, "symbol"@, symbol);
        members_of_with(o.with("symbol"@, symbol), "compilation"@, compilation);
        if let Ok(file) = operation_checked(op, allowed) {
            assert forall|i: int|
                0 <= i < st.writes.len() && !is_model_input(st.writes, file) && (
                #[trigger] st.writes[i]).kind == "MODEL_INPUT"@ implies st.writes[i].key != file by {
            }
            assert forall|i: int|
                0 <= i < st.candidates.len() && !has_key::<Candidate>(st.candidates, file) implies (
            #[trigger] st.candidates[i]).file != file by {
                assert(Candidate::key(st.candidates[i]) == st.candidates[i].file);
            }
        }
    }
}

/// A preview starts at the revision that both the edit and the task are made on, with the
/// first operation.
pub proof fn previews_start_where_edits_are_made(
    st: PreviewStateModel,
    thread: ThreadIrModel,
    edit: EditIrModel,
    allowed: bool,
    head: Seq<char>,
    transaction_id: Seq<char>,
    next: PreviewStateModel,
    action: PreviewActionModel,
)
    requires
        st.phase == PreviewPhase::Head,
        preview_stepped(
            st,
            thread,
            edit,
            allowed,
            PreviewEventModel::Head { head, transaction_id },
        ) == Ok::<Step, ErrorModel>((next, action)),
    ensures
        head == edit.base_revision,
        head == thread.snapshot.base_revision,
        edit.thread_id == thread.thread_id,
        edit.operations.len() > 0,
        next == (PreviewStateModel { phase: next.phase, head, transaction_id, next: 0, ..st }),
        asks_next(thread, edit, next, action),
{
    next_is_asked(
        PreviewStateModel { head, transaction_id, next: 0, ..st },
        thread,
        edit,
        allowed,
    );
}

/// Whether a part of the meaning of a declaration is said to change.
pub open spec fn is_said_to_change(delta: JsonModel, field: Seq<char>) -> bool {
    match delta.get(field) {
        Some(change) => text_in(change, "beforeHash"@) != text_in(change, "afterHash"@),
        None => false,
    }
}

/// Whether the writes from a place on hold the change of a part of the meaning.
pub open spec fn records_change(
    writes: Seq<WriteFactModel>,
    n: int,
    delta: JsonModel,
    field: Seq<char>,
    kind: Seq<char>,
) -> bool {
    exists|i: int|
        n <= i < writes.len() && (#[trigger] writes[i]).kind == kind && writes[i].before_hash
            == text_in(value_in(delta, field), "beforeHash"@) && writes[i].after_hash == text_in(
            value_in(delta, field),
            "afterHash"@,
        )
}

/// Whether no part of the meaning changes that an edit must leave as it is, and the changes of
/// all others are recorded.
pub open spec fn deltas_are_recorded(
    writes: Seq<WriteFactModel>,
    n: int,
    delta: JsonModel,
) -> bool {
    &&& !is_said_to_change(delta, "signature"@)
    &&& !is_said_to_change(delta, "abi"@)
    &&& is_said_to_change(delta, "body"@) ==> records_change(writes, n, delta, "body"@, "BODY"@)
    &&& is_said_to_change(delta, "summary"@) ==> records_change(
        writes,
        n,
        delta,
        "summary"@,
        "SUMMARY"@,
    )
    &&& is_said_to_change(delta, "effects"@) ==> records_change(
        writes,
        n,
        delta,
        "effects"@,
        "EFFECTS"@,
    )
}

proof fn delta_is_recorded(
    writes: Seq<WriteFactModel>,
    delta: JsonModel,
    owner: Seq<char>,
    field: Seq<char>,
    kind: Seq<char>,
    is_protected: bool,
    n: int,
)
    requires
        0 <= n <= writes.len(),
    ensures
        match delta_recorded(writes, delta, owner, field, kind, is_protected) {
            Ok(after) => {
                &&& writes.is_prefix_of(after)
                &&& is_protected ==> after == writes && !is_said_to_change(delta, field)
                &&& is_said_to_change(delta, field) ==> records_change(after, n, delta, field, kind)
            },
            Err(_) => true,
        },
{
    if let Ok(after) = delta_recorded(writes, delta, owner, field, kind, is_protected) {
        assert(writes =~= after.take(writes.len() as int));
        if let Some(change) = delta.get(field) {
            texts_are_said(change, "beforeHash"@);
            texts_are_said(change, "afterHash"@);
            if is_said_to_change(delta, field) {
                assert(after[after.len() - 1].kind == kind);
            }
        }
    }
}

proof fn change_stays_recorded(
    writes: Seq<WriteFactModel>,
    after: Seq<WriteFactModel>,
    n: int,
    delta: JsonModel,
    field: Seq<char>,
    kind: Seq<char>,
)
    requires
        0 <= n,
        writes.is_prefix_of(after),
        records_change(writes, n, delta, field, kind),
    ensures
        records_change(after, n, delta, field, kind),
{
    let i = choose|i: int|
        n <= i < writes.len() && (#[trigger] writes[i]).kind == kind && writes[i].before_hash
            == text_in(value_in(delta, field), "beforeHash"@) && writes[i].after_hash == text_in(
            value_in(delta, field),
            "afterHash"@,
        );
    assert(after[i] == writes[i]);
}

proof fn all_deltas_are_recorded(
    writes: Seq<WriteFactModel>,
    delta: JsonModel,
    owner: Seq<char>,
    n: int,
)
    requires
        0 <= n <= writes.len(),
    ensures
        match deltas_recorded(writes, delta, owner) {
            Ok(after) => writes.is_prefix_of(after) && deltas_are_recorded(after, n, delta),
            Err(_) => true,
        },
{
    if deltas_recorded(writes, delta, owner) is Ok {
        let w1 = delta_recorded(writes, delta, owner, "body"@, "BODY"@, false)->Ok_0;
        let w2 = delta_recorded(w1, delta, owner, "signature"@, "SIGNATURE"@, true)->Ok_0;
        let w3 = delta_recorded(w2, delta, owner, "abi"@, "ABI"@, true)->Ok_0;
        let w4 = delta_recorded(w3, delta, owner, "summary"@, "SUMMARY"@, false)->Ok_0;
        let w5 = delta_recorded(w4, delta, owner, "effects"@, "EFFECTS"@, false)->Ok_0;
        delta_is_recorded(writes, delta, owner, "body"@, "BODY"@, false, n);
        delta_is_recorded(w1, delta, owner, "signature"@, "SIGNATURE"@, true, n);
        delta_is_recorded(w2, delta, owner, "abi"@, "ABI"@, true, n);
        delta_is_recorded(w3, delta, owner, "summary"@, "SUMMARY"@, false, n);
        delta_is_recorded(w4, delta, owner, "effects"@, "EFFECTS"@, false, n);
        assert(w1.is_prefix_of(w5)) by {
            assert(w1 =~= w5.take(w1.len() as int)) by {
                assert(w3 == w4.take(w3.len() as int) && w4 == w5.take(w4.len() as int));
            }
        }
        assert(writes.is_prefix_of(w5)) by {
            assert(writes =~= w5.take(writes.len() as int)) by {
                assert(writes == w1.take(writes.len() as int));
                assert(w1 == w5.take(w1.len() as int));
            }
        }
        if is_said_to_change(delta, "body"@) {
            change_stays_recorded(w1, w5, n, delta, "body"@, "BODY"@);
        }
        if is_said_to_change(delta, "summary"@) {
            change_stays_recorded(w4, w5, n, delta, "summary"@, "SUMMARY"@);
        }
    }
}

proof fn no_effect_is_forbidden(introduced: Seq<JsonModel>, forbidden: Seq<JsonModel>, i: int)
    requires
        0 <= i,
        forbidden_effect(introduced, forbidden, i) is None,
    ensures
        forall|j: int, k: int|
            i <= j < introduced.len() && 0 <= k < forbidden.len() && (
            #[trigger] introduced[j]) is Str ==> introduced[j] != #[trigger] forbidden[k],
    decreases introduced.len() - i,
{
    if i < introduced.len() {
        no_effect_is_forbidden(introduced, forbidden, i + 1);
        assert forall|j: int, k: int|
            i <= j < introduced.len() && 0 <= k < forbidden.len() && (
            #[trigger] introduced[j]) is Str implies introduced[j] != #[trigger] forbidden[k] by {
            if j == i {
                if introduced[j] == forbidden[k] {
                    assert(forbidden[k].as_str() == Some(introduced[i]->Str_0));
                    assert(has_text(forbidden, introduced[i]->Str_0));
                }
            }
        }
    }
}

/// Whether an operation edits an import.
pub open spec fn edits_import(op: EditOperationModel) -> bool {
    op.kind == "ADD_IMPORT"@ || op.kind == "REMOVE_IMPORT"@
}

/// Whether an operation edits a declaration.
pub open spec fn edits_declaration(op: EditOperationModel) -> bool {
    op.kind == "REPLACE_DECLARATION"@ || op.kind == "REWRITE_DECLARATION"@
}

/// Whether the writes behind the first `n` are those of an edit that was carried out.
pub open spec fn records_edit(
    writes: Seq<WriteFactModel>,
    n: int,
    op: EditOperationModel,
    current: Seq<char>,
    source: Seq<char>,
    response: JsonModel,
) -> bool {
    if edits_import(op) {
        &&& writes.len() == n + 1
        &&& writes[n].kind == "IMPORT"@
        &&& writes[n].before_hash == digest_of(vstd::utf8::encode_utf8(current))
        &&& writes[n].after_hash == digest_of(vstd::utf8::encode_utf8(source))
    } else if edits_declaration(op) {
        &&& writes.len() == n + 1
        &&& writes[n].kind == "DECLARATION"@
        &&& writes[n].before_hash == text_in(op.target, "exactTextHash"@)
        &&& writes[n].after_hash == digest_of(vstd::utf8::encode_utf8(op.replacement.kotlin))
    } else {
        &&& op.kind != "MAP_EDGE_WITH_CONTEXT"@ ==> {
            &&& writes.len() > n
            &&& writes[n].kind == "TARGET_ANCHOR"@
            &&& writes[n].before_hash == text_in(op.target, "exactTextHash"@)
            &&& writes[n].after_hash == digest_of(vstd::utf8::encode_utf8(op.replacement.kotlin))
        }
        &&& match response.get("semanticDelta"@) {
            Some(JsonModel::Obj(m)) => deltas_are_recorded(writes, n, JsonModel::Obj(m)),
            _ => true,
        }
    }
}

/// Once it is known what became of an edit, its source is what the file would have, whatever
/// was there before, and no other file would change; what it found is kept, it introduces no
/// effect that it must not, and what it changes is recorded; then the next question comes.
pub proof fn responses_become_candidates(
    st: PreviewStateModel,
    thread: ThreadIrModel,
    edit: EditIrModel,
    allowed: bool,
    response: JsonModel,
    next: PreviewStateModel,
    action: PreviewActionModel,
)
    requires
        st.phase == PreviewPhase::Response,
        is_table::<Candidate>(st.candidates),
        edit.operations.len() < usize::MAX,
        preview_stepped(st, thread, edit, allowed, PreviewEventModel::Response(response)) == Ok::<
            Step,
            ErrorModel,
        >((next, action)),
    ensures
        st.next < edit.operations.len(),
        said_in(response, "source"@) is Some,
        is_table::<Candidate>(next.candidates),
        sets_source(
            st.candidates,
            next.candidates,
            text_in(edit.operations[st.next as int].target, "fileId"@),
            text_in(response, "source"@),
        ),
        next.next == st.next + 1,
        next.diagnostics == st.diagnostics + list_in(response, "diagnostics"@),
        next.windows.len() == st.windows.len() + 1,
        next.windows.drop_last() == st.windows,
        next.windows.last().get("file"@) == edit.operations[st.next as int].target.get("fileId"@),
        next.windows.last().get("range"@) == Some(
            match edit.operations[st.next as int].target.get("rangeHint"@) {
                Some(range) => range,
                None => JsonModel::Arr(Seq::empty()),
            },
        ),
        forall|i: int, j: int|
            0 <= i < list_in(response, "introducedEffects"@).len() && 0 <= j < list_in(
                edit.operations[st.next as int].postconditions,
                "mustNotIntroduceEffects"@,
            ).len() && (#[trigger] list_in(response, "introducedEffects"@)[i]) is Str ==> list_in(
                response,
                "introducedEffects"@,
            )[i] != #[trigger] list_in(
                edit.operations[st.next as int].postconditions,
                "mustNotIntroduceEffects"@,
            )[j],
        st.writes.is_prefix_of(next.writes),
        records_edit(
            next.writes,
            st.writes.len() as int,
            edit.operations[st.next as int],
            st.current,
            text_in(response, "source"@),
            response,
        ),
        asks_next(thread, edit, next, action),
{
    let op = edit.operations[st.next as int];
    let file = operation_checked(op, allowed)->Ok_0;
    let told = response_told(st, op, file, response)->Ok_0;
    let source = text_in(response, "source"@);
    texts_are_said(response, "source"@);
    texts_are_said(response, "diagnostics"@);
    texts_are_said(response, "introducedEffects"@);
    texts_are_said(op.postconditions, "mustNotIntroduceEffects"@);
    texts_are_said(op.target, "exactTextHash"@);
    candidate_is_set(st.candidates, file, source);
    next_is_asked(
        PreviewStateModel { next: (told.next + 1) as usize, ..told },
        thread,
        edit,
        allowed,
    );
    no_effect_is_forbidden(
        list_in(response, "introducedEffects"@),
        list_in(op.postconditions, "mustNotIntroduceEffects"@),
        0,
    );
    let range = match op.target.get("rangeHint"@) {
        Some(range) => range,
        None => JsonModel::Arr(Seq::empty()),
    };
    window_keys_differ();
    let o = JsonModel::object();
    members_of_with(o, "file"@, JsonModel::Str(file));
    members_of_with(o.with("file"@, JsonModel::Str(file)), "range"@, range);
    assert(next.windows == told.windows && next.writes == told.writes);
    assert(told.windows.drop_last() =~= st.windows);
    let n = st.writes.len() as int;
    if !edits_import(op) && !edits_declaration(op) {
        let kept = PreviewStateModel {
            diagnostics: st.diagnostics + items_or_none(response, "diagnostics"@),
            windows: told.windows,
            candidates: told.candidates,
            ..st
        };
        let body = body_recorded(kept, op, file);
        assert(st.writes.is_prefix_of(body.writes)) by {
            assert(st.writes =~= body.writes.take(n));
        }
        if let Some(JsonModel::Obj(m)) = response.get("semanticDelta"@) {
            let owner = crate::transaction::owner_of(op, file);
            all_deltas_are_recorded(body.writes, JsonModel::Obj(m), owner, n);
            assert(told.writes == deltas_recorded(body.writes, JsonModel::Obj(m), owner)->Ok_0);
            assert(st.writes =~= told.writes.take(n)) by {
                assert(st.writes == body.writes.take(n));
                assert(body.writes == told.writes.take(body.writes.len() as int));
            }
            if op.kind != "MAP_EDGE_WITH_CONTEXT"@ {
                assert(told.writes[n] == body.writes[n]);
            }
        }
    } else {
        assert(st.writes =~= told.writes.take(n));
    }
}

/// An edit of a file that an earlier operation edits too starts from what became of that one,
/// whatever the file has.
pub proof fn later_edits_build_on_earlier_ones(
    st: PreviewStateModel,
    thread: ThreadIrModel,
    edit: EditIrModel,
    allowed: bool,
    response: JsonModel,
    mid: PreviewStateModel,
    original: Seq<char>,
    next: PreviewStateModel,
    action: PreviewActionModel,
)
    requires
        st.phase == PreviewPhase::Response,
        is_table::<Candidate>(st.candidates),
        edit.operations.len() < usize::MAX,
        preview_stepped(st, thread, edit, allowed, PreviewEventModel::Response(response)) == Ok::<
            Step,
            ErrorModel,
        >(
            (
                mid,
                PreviewActionModel::ReadSource(
                    text_in(edit.operations[st.next as int].target, "fileId"@),
                ),
            ),
        ),
        preview_stepped(mid, thread, edit, allowed, PreviewEventModel::Source(original)) == Ok::<
            Step,
            ErrorModel,
        >((next, action)),
    ensures
        action is ApplyEdit,
        action->ApplyEdit_0.get("source"@) == response.get("source"@),
        action->ApplyEdit_0.get("file"@) == edit.operations[st.next as int].target.get("fileId"@),
{
    let file = text_in(edit.operations[st.next as int].target, "fileId"@);
    let source = text_in(response, "source"@);
    responses_become_candidates(
        st,
        thread,
        edit,
        allowed,
        response,
        mid,
        PreviewActionModel::ReadSource(file),
    );
    edits_start_from_earlier_ones(mid, thread, edit, allowed, original, next, action);
    let c = CandidateModel { file, source };
    assert(mid.candidates.contains(c));
    let i = choose|i: int| 0 <= i < mid.candidates.len() && mid.candidates[i] == c;
    assert forall|j: int| 0 <= j < i implies (#[trigger] mid.candidates[j]).file != file by {
        if mid.candidates[j].file == file {
            assert(Candidate::key(mid.candidates[j]) == Candidate::key(mid.candidates[i]));
            key_stands_once::<Candidate>(mid.candidates, i, j);
        }
    }
    assert(mid.candidates[i].file == file);
}

/// Once a new file is found to be valid, it would have the replacement of its operation, and
/// this is recorded.
pub proof fn new_files_become_candidates(
    st: PreviewStateModel,
    thread: ThreadIrModel,
    edit: EditIrModel,
    allowed: bool,
    validation: JsonModel,
    next: PreviewStateModel,
    action: PreviewActionModel,
)
    requires
        st.phase == PreviewPhase::Validation,
        is_table::<Candidate>(st.candidates),
        edit.operations.len() < usize::MAX,
        preview_stepped(st, thread, edit, allowed, PreviewEventModel::Validation(validation))
            == Ok::<Step, ErrorModel>((next, action)),
    ensures
        st.next < edit.operations.len(),
        validation.get("valid"@) == Some(JsonModel::Bool(true)),
        is_table::<Candidate>(next.candidates),
        sets_source(
            st.candidates,
            next.candidates,
            text_in(edit.operations[st.next as int].target, "fileId"@),
            edit.operations[st.next as int].replacement.kotlin,
        ),
        next.next == st.next + 1,
        next.writes == st.writes.push(
            WriteFactModel {
                kind: "FILE"@,
                key: text_in(edit.operations[st.next as int].target, "fileId"@),
                before_hash: digest_of(Seq::empty()),
                after_hash: digest_of(
                    vstd::utf8::encode_utf8(edit.operations[st.next as int].replacement.kotlin),
                ),
            },
        ),
        asks_next(thread, edit, next, action),
{
    let op = edit.operations[st.next as int];
    let file = operation_checked(op, allowed)->Ok_0;
    let told = crate::transaction::validation_told(st, op, file, validation)->Ok_0;
    candidate_is_set(st.candidates, file, op.replacement.kotlin);
    next_is_asked(
        PreviewStateModel { next: (told.next + 1) as usize, ..told },
        thread,
        edit,
        allowed,
    );
}

/// Once the bytes of a model input are known, it would have the replacement of its operation.
/// The bytes are those that the operation was made on, and this is recorded.
pub proof fn model_inputs_become_candidates(
    st: PreviewStateModel,
    thread: ThreadIrModel,
    edit: EditIrModel,
    allowed: bool,
    bytes: Seq<u8>,
    next: PreviewStateModel,
    action: PreviewActionModel,
)
    requires
        st.phase == PreviewPhase::ModelBytes,
        is_table::<Candidate>(st.candidates),
        edit.operations.len() < usize::MAX,
        preview_stepped(st, thread, edit, allowed, PreviewEventModel::ModelBytes(bytes)) == Ok::<
            Step,
            ErrorModel,
        >((next, action)),
    ensures
        st.next < edit.operations.len(),
        vstd::utf8::valid_utf8(bytes),
        edit.operations[st.next as int].target.get("exactTextHash"@) == Some(
            JsonModel::Str(digest_of(bytes)),
        ),
        is_table::<Candidate>(next.candidates),
        sets_source(
            st.candidates,
            next.candidates,
            text_in(edit.operations[st.next as int].target, "fileId"@),
            edit.operations[st.next as int].replacement.kotlin,
        ),
        next.next == st.next + 1,
        next.writes == st.writes.push(
            WriteFactModel {
                kind: "MODEL_INPUT"@,
                key: text_in(edit.operations[st.next as int].target, "fileId"@),
                before_hash: digest_of(bytes),
                after_hash: digest_of(
                    vstd::utf8::encode_utf8(edit.operations[st.next as int].replacement.kotlin),
                ),
            },
        ),
        asks_next(thread, edit, next, action),
{
    let op = edit.operations[st.next as int];
    let file = operation_checked(op, allowed)->Ok_0;
    let told = crate::transaction::model_bytes_told(st, op, file, bytes)->Ok_0;
    texts_are_said(op.target, "exactTextHash"@);
    candidate_is_set(st.candidates, file, op.replacement.kotlin);
    next_is_asked(
        PreviewStateModel { next: (told.next + 1) as usize, ..told },
        thread,
        edit,
        allowed,
    );
}

/// Whether the file of a candidate has its source already.
pub open spec fn is_unchanged(
    candidates: Seq<CandidateModel>,
    originals: Seq<Option<Seq<char>>>,
    i: int,
) -> bool {
    i < originals.len() && originals[i] == Some(candidates[i].source)
}

/// The source that the file of a candidate has, or no characters.
pub open spec fn original_text(originals: Seq<Option<Seq<char>>>, i: int) -> Seq<char> {
    if i < originals.len() && originals[i] is Some {
        originals[i]->0
    } else {
        Seq::empty()
    }
}

proof fn changed_ones_are_kept(
    candidates: Seq<CandidateModel>,
    originals: Seq<Option<Seq<char>>>,
    before: Seq<CandidateModel>,
    n: int,
)
    requires
        0 <= n <= candidates.len(),
    ensures
        forall|c: CandidateModel| #[trigger]
            changed_from(candidates, originals, before, n).contains(c) <==> before.contains(c)
                || exists|i: int|
                n <= i < candidates.len() && #[trigger] candidates[i] == c && !is_unchanged(
                    candidates,
                    originals,
                    i,
                ),
    decreases candidates.len() - n,
{
    let all = changed_from(candidates, originals, before, n);
    if n < candidates.len() {
        let x = candidates[n];
        let then = if is_unchanged(candidates, originals, n) {
            before
        } else {
            before.push(x)
        };
        assert(original_at(originals, n) == Some(x.source) <==> is_unchanged(
            candidates,
            originals,
            n,
        ));
        changed_ones_are_kept(candidates, originals, then, n + 1);
        assert(all == changed_from(candidates, originals, then, n + 1));
        assert forall|c: CandidateModel| #[trigger] all.contains(c) <==> before.contains(c) || exists|
            i: int,
        |
            n <= i < candidates.len() && #[trigger] candidates[i] == c && !is_unchanged(
                candidates,
                originals,
                i,
            ) by {
            assert(then.contains(c) <==> before.contains(c) || (c == x && !is_unchanged(
                candidates,
                originals,
                n,
            ))) by {
                if before.contains(c) && !is_unchanged(candidates, originals, n) {
                    let k = choose|k: int| 0 <= k < before.len() && before[k] == c;
                    assert(then[k] == c);
                }
                if c == x && !is_unchanged(candidates, originals, n) {
                    assert(then[before.len() as int] == c);
                }
                if then.contains(c) {
                    let k = choose|k: int| 0 <= k < then.len() && then[k] == c;
                    if k < before.len() {
                        assert(before[k] == c);
                    }
                }
            }
            if exists|i: int|
                n <= i < candidates.len() && #[trigger] candidates[i] == c && !is_unchanged(
                    candidates,
                    originals,
                    i,
                ) {
                let i = choose|i: int|
                    n <= i < candidates.len() && #[trigger] candidates[i] == c && !is_unchanged(
                        candidates,
                        originals,
                        i,
                    );
                if i > n {
                    assert(n + 1 <= i < candidates.len() && candidates[i] == c);
                }
            }
            if c == x && !is_unchanged(candidates, originals, n) {
                assert(candidates[n] == c);
            }
        }
    }
}

proof fn sources_are_said(candidates: Seq<CandidateModel>, n: nat, file: Seq<char>)
    requires
        n <= candidates.len(),
    ensures
        sources_said(candidates, n) is Obj,
        (forall|i: int| 0 <= i < n ==> (#[trigger] candidates[i]).file != file) ==> sources_said(
            candidates,
            n,
        ).get(file) is None,
        forall|i: int|
            0 <= i < n && (#[trigger] candidates[i]).file == file && (forall|j: int|
                i < j < n ==> (#[trigger] candidates[j]).file != file) ==> sources_said(
                candidates,
                n,
            ).get(file) == Some(JsonModel::Str(candidates[i].source)),
    decreases n,
{
    if n > 0 {
        let before = sources_said(candidates, (n - 1) as nat);
        let last = candidates[n - 1];
        sources_are_said(candidates, (n - 1) as nat, file);
        members_of_with(before, last.file, JsonModel::Str(last.source));
    }
}

proof fn diffs_are_joined(
    candidates: Seq<CandidateModel>,
    originals: Seq<Option<Seq<char>>>,
    before: Seq<char>,
    n: int,
) -> (parts: Seq<Seq<char>>)
    requires
        0 <= n <= candidates.len(),
    ensures
        parts.len() == candidates.len() - n,
        diffs_from(candidates, originals, before, n) == before + parts.flatten(),
        forall|i: int|
            0 <= i < parts.len() ==> #[trigger] parts[i] == diff_of(
                candidates[n + i].file,
                original_text(originals, n + i),
                candidates[n + i].source,
            ),
    decreases candidates.len() - n,
{
    if n == candidates.len() {
        let parts: Seq<Seq<char>> = Seq::empty();
        assert(parts.flatten() =~= Seq::empty());
        assert(before + parts.flatten() =~= before);
        parts
    } else {
        let x = candidates[n];
        let d = diff_of(x.file, original_text(originals, n), x.source);
        let then = if original_at(originals, n) == Some(x.source) {
            before
        } else {
            before + d
        };
        if original_at(originals, n) == Some(x.source) {
            assert(d =~= Seq::empty());
        }
        assert(then =~= before + d);
        let rest = diffs_are_joined(candidates, originals, then, n + 1);
        let parts = seq![d] + rest;
        assert(parts.drop_first() =~= rest);
        assert(parts.first() == d);
        assert(parts.flatten() == d + rest.flatten());
        assert(then + rest.flatten() =~= before + parts.flatten());
        assert forall|i: int| 0 <= i < parts.len() implies #[trigger] parts[i] == diff_of(
            candidates[n + i].file,
            original_text(originals, n + i),
            candidates[n + i].source,
        ) by {
            if i > 0 {
                assert(parts[i] == rest[i - 1]);
            }
        }
        parts
    }
}

/// A report says just what differs from the files as they are: each candidate whose file does
/// not have its source is a changed file, with its source among the candidates, and no other
/// is; the difference is that of the candidates, one after another; and what changes
/// something, and nothing else, is among the writes.
pub proof fn reports_say_what_changes(
    st: PreviewStateModel,
    thread: ThreadIrModel,
    edit: EditIrModel,
    allowed: bool,
    originals: Seq<Option<Seq<char>>>,
    next: PreviewStateModel,
    report: PreviewReportModel,
)
    requires
        st.phase == PreviewPhase::Originals,
        is_table::<Candidate>(st.candidates),
        preview_stepped(st, thread, edit, allowed, PreviewEventModel::Originals(originals))
            == Ok::<Step, ErrorModel>((next, PreviewActionModel::Finish(report))),
    ensures
        report.valid,
        report.transaction_id == st.transaction_id,
        report.base_revision == st.head,
        report.diagnostics == st.diagnostics,
        forall|file: Seq<char>| #[trigger]
            report.changed_files.contains(file) <==> exists|i: int|
                0 <= i < st.candidates.len() && (#[trigger] st.candidates[i]).file == file
                    && !is_unchanged(st.candidates, originals, i),
        forall|i: int|
            0 <= i < st.candidates.len() ==> report.candidates.get(
                (#[trigger] st.candidates[i]).file,
            ) == if is_unchanged(st.candidates, originals, i) {
                None
            } else {
                Some(JsonModel::Str(st.candidates[i].source))
            },
        exists|parts: Seq<Seq<char>>|
            report.diff == #[trigger] parts.flatten() && parts.len() == st.candidates.len()
                && forall|i: int|
                0 <= i < parts.len() ==> #[trigger] parts[i] == {
                    let file = st.candidates[i].file;
                    let before = original_text(originals, i);
                    let after = st.candidates[i].source;
                    if before == after {
                        Seq::empty()
                    } else {
                        line_diff_of(before, after, "a/"@ + file, "b/"@ + file)
                    }
                },
        forall|w: WriteFactModel| #[trigger]
            report.actual_write_set.contains(w) <==> st.writes.contains(w) && w.before_hash
                != w.after_hash,
{
    broadcast use vstd::seq_lib::group_to_multiset_ensures;

    let candidates = st.candidates;
    let changed = changed_from(candidates, originals, Seq::empty(), 0);
    changed_ones_are_kept(candidates, originals, Seq::empty(), 0);
    assert forall|file: Seq<char>| #[trigger] report.changed_files.contains(file) <==> exists|
        i: int,
    |
        0 <= i < candidates.len() && (#[trigger] candidates[i]).file == file && !is_unchanged(
            candidates,
            originals,
            i,
        ) by {
        if report.changed_files.contains(file) {
            let k = choose|k: int|
                0 <= k < report.changed_files.len() && report.changed_files[k] == file;
            assert(changed.contains(changed[k]));
            let i = choose|i: int|
                0 <= i < candidates.len() && #[trigger] candidates[i] == changed[k]
                    && !is_unchanged(candidates, originals, i);
            assert(candidates[i].file == file);
        }
        if exists|i: int|
            0 <= i < candidates.len() && (#[trigger] candidates[i]).file == file && !is_unchanged(
                candidates,
                originals,
                i,
            ) {
            let i = choose|i: int|
                0 <= i < candidates.len() && (#[trigger] candidates[i]).file == file
                    && !is_unchanged(candidates, originals, i);
            assert(changed.contains(candidates[i]));
            let k = choose|k: int| 0 <= k < changed.len() && changed[k] == candidates[i];
            assert(report.changed_files[k] == file);
        }
    }
    assert forall|i: int| 0 <= i < candidates.len() implies report.candidates.get(
        (#[trigger] candidates[i]).file,
    ) == if is_unchanged(candidates, originals, i) {
        None
    } else {
        Some(JsonModel::Str(candidates[i].source))
    } by {
        let file = candidates[i].file;
        sources_are_said(changed, changed.len(), file);
        assert forall|k: int| 0 <= k < changed.len() && (#[trigger] changed[k]).file == file implies {
            &&& !is_unchanged(candidates, originals, i)
            &&& changed[k] == candidates[i]
        } by {
            assert(changed.contains(changed[k]));
            let j = choose|j: int|
                0 <= j < candidates.len() && #[trigger] candidates[j] == changed[k]
                    && !is_unchanged(candidates, originals, j);
            assert(Candidate::key(candidates[i]) == Candidate::key(candidates[j]));
            key_stands_once::<Candidate>(candidates, i, j);
        }
        if !is_unchanged(candidates, originals, i) {
            assert(changed.contains(candidates[i]));
            last_with_file(changed, file, candidates[i]);
            let k = choose|k: int|
                0 <= k < changed.len() && (#[trigger] changed[k]).file == file && forall|j: int|
                    k < j < changed.len() ==> (#[trigger] changed[j]).file != file;
            assert(changed[k] == candidates[i]);
        }
    }
    let parts = diffs_are_joined(candidates, originals, Seq::empty(), 0);
    assert(Seq::<char>::empty() + parts.flatten() =~= parts.flatten());
    assert(report.diff == parts.flatten());
    let writes = real_writes(st.writes);
    order::sorted_is_sorted::<WriteFact>(writes);
    assert forall|w: WriteFactModel| #[trigger] report.actual_write_set.contains(w)
        <==> st.writes.contains(w) && w.before_hash != w.after_hash by {
        let pred = |w: WriteFactModel| w.before_hash != w.after_hash;
        assert(report.actual_write_set.to_multiset().count(w) == writes.to_multiset().count(w));
        assert(report.actual_write_set.contains(w) == writes.contains(w));
        if writes.contains(w) {
            let k = choose|k: int| 0 <= k < writes.len() && writes[k] == w;
            st.writes.lemma_filter_pred(pred, k);
            st.writes.lemma_filter_contains_rev(pred, w);
        }
        if st.writes.contains(w) && w.before_hash != w.after_hash {
            let k = choose|k: int| 0 <= k < st.writes.len() && st.writes[k] == w;
            st.writes.lemma_filter_contains(pred, k);
        }
    }
}

proof fn last_with_file(changed: Seq<CandidateModel>, file: Seq<char>, c: CandidateModel)
    requires
        changed.contains(c),
        c.file == file,
    ensures
        exists|k: int|
            0 <= k < changed.len() && (#[trigger] changed[k]).file == file && forall|j: int|
                k < j < changed.len() ==> (#[trigger] changed[j]).file != file,
    decreases changed.len(),
{
    let n = changed.len() - 1;
    if changed[n].file == file {
        assert(changed[n].file == file);
    } else {
        let rest = changed.drop_last();
        let i = choose|i: int| 0 <= i < changed.len() && changed[i] == c;
        assert(rest[i] == c);
        last_with_file(rest, file, c);
        let k = choose|k: int|
            0 <= k < rest.len() && (#[trigger] rest[k]).file == file && forall|j: int|
                k < j < rest.len() ==> (#[trigger] rest[j]).file != file;
        assert(changed[k] == rest[k]);
        assert forall|j: int| k < j < changed.len() implies (#[trigger] changed[j]).file != file by {
            if j < n {
                assert(rest[j] == changed[j]);
            }
        }
    }
}

} // verus!
