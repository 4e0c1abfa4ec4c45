//! Previews of edits: what an edit would change, found by asking for one thing after
//! another.

use vstd::prelude::*;
use vstd::string::*;

use crate::canonical::{digest_of, hash_bytes};
use crate::edit::{
    EditIr, EditIrModel, EditOperation, EditOperationModel, ExpectedWriteFact,
    ExpectedWriteFactModel, PreviewReport, PreviewReportModel, SemanticOperation,
    SemanticOperationModel, ThreadIr, ThreadIrModel, WriteFact, WriteFactModel,
};
use crate::error::{failure, outcome, ClewError, ErrorCode, ErrorModel};
use crate::json::{encoded, list, Json, JsonModel};
use crate::model_input::{
    between, check_canonical_path, failed, framed, get_or_null, is_canonical_path, member_or_null,
    project_authorized, require_tracked_model_input, tracking_checked,
    validate_model_input_project_authority, PathKind,
};
use crate::order;
use crate::order::{Ordered, Part, PartModel};
use crate::owner_identity::{canonicalize_owner_symbol_query, owner_canonical, parsed_json};
use crate::record::Record;
use crate::retained::is_utf8;
use crate::table::{contains_key, find_record, has_key, record_at, replace, replaced, Keyed};
use crate::text::{is_lower_hex, 
    after_prefix, byte_len, has_prefix, joined, pieces, same_text, split, starts_with, strip_prefix,
};
use crate::words::{ends_with, has_suffix, trim, trimmed};

verus! {

/// The source that a file would have.
#[derive(Debug, PartialEq, Eq)]
pub struct Candidate {
    pub file: String,
    pub source: String,
}

/// The model of a [`Candidate`].
pub struct CandidateModel {
    pub file: Seq<char>,
    pub source: Seq<char>,
}

impl DeepView for Candidate {
    type V = CandidateModel;

    open spec fn deep_view(&self) -> CandidateModel {
        CandidateModel {
            file: self.file.deep_view(),
            source: self.source.deep_view(),
        }
    }
}

impl Record for Candidate {
    open spec fn json(v: CandidateModel) -> JsonModel {
        JsonModel::object()
            .with("file"@, <String as Record>::json(v.file))
            .with("source"@, <String as Record>::json(v.source))
    }

    fn copied(&self) -> (r: Candidate) {
        Candidate {
            file: self.file.copied(),
            source: self.source.copied(),
        }
    }

    fn same_as(&self, other: &Candidate) -> (r: bool) {
        self.file.same_as(&other.file)
            && self.source.same_as(&other.source)
    }

    fn to_json(&self) -> (r: Json) {
        Json::object()
            .with("file", self.file.to_json())
            .with("source", self.source.to_json())
    }
}

impl Keyed for Candidate {
    open spec fn key(v: CandidateModel) -> Seq<char> {
        v.file
    }

    fn key_text(&self) -> (r: &String) {
        &self.file
    }
}

impl Ordered for Json {
    open spec fn parts(v: JsonModel) -> Seq<PartModel> {
        seq![PartModel::Text(encoded(v))]
    }

    fn to_parts(&self) -> (r: Vec<Part>) {
        let r = vec![Part::Text(self.encode())];
        assert(r.deep_view() =~= seq![PartModel::Text(encoded(self.deep_view()))]);
        r
    }
}

/// The lines by which two texts differ, with three lines around them and a header, as
/// `similar` writes it.
pub uninterp spec fn line_diff_of(
    old_text: Seq<char>,
    new_text: Seq<char>,
    old_name: Seq<char>,
    new_name: Seq<char>,
) -> Seq<char>;

/// Writes the lines by which two texts differ. Claims that what the unified diff of
/// `similar::TextDiff::from_lines` with a context of three lines shows depends on the
/// two texts and the two names alone.
#[verifier::external_body]
fn line_diff(old_text: &str, new_text: &str, old_name: &str, new_name: &str) -> (r: String)
    ensures
        r@ == line_diff_of(old_text@, new_text@, old_name@, new_name@),
{
    similar::TextDiff::from_lines(old_text, new_text).unified_diff().context_radius(3).header(
        old_name,
        new_name,
    ).to_string()
}

/// Whether a text is that of a random identifier: five groups of lower-case hexadecimal
/// digits between hyphens, the third of which begins with the version, and the fourth with
/// the variant.
pub open spec fn is_random_id(s: Seq<char>) -> bool {
    &&& s.len() == 36
    &&& s[14] == '4'
    &&& s[19] == '8' || s[19] == '9' || s[19] == 'a' || s[19] == 'b'
    &&& forall|i: int|
        0 <= i < 36 ==> if i == 8 || i == 13 || i == 18 || i == 23 {
            #[trigger] s[i] == '-'
        } else {
            is_lower_hex(s[i])
        }
}

/// A random identifier. Claims that the text of `uuid::Uuid::new_v4` has thirty-six
/// characters: hyphens at their four places, the version and the variant at theirs, and
/// lower-case hexadecimal digits elsewhere. Which digits they are rests on chance.
#[verifier::external_body]
fn random_id() -> (r: String)
    ensures
        is_random_id(r@),
{
    uuid::Uuid::new_v4().to_string()
}

/// The identifier of a new transaction.
pub fn fresh_transaction_id() -> (r: String)
    ensures
        has_prefix(r@, "tx:"@),
        is_random_id(r@.skip("tx:"@.len() as int)),
{
    let id = random_id();
    let r = joined("tx:", id.as_str());
    assert(r@.skip("tx:"@.len() as int) =~= id@);
    assert(r@.take("tx:"@.len() as int) =~= "tx:"@);
    r
}

/// The lines by which the source of a file differs.
pub open spec fn diff_of(file: Seq<char>, old_text: Seq<char>, new_text: Seq<char>) -> Seq<char> {
    if old_text == new_text {
        Seq::empty()
    } else {
        line_diff_of(old_text, new_text, "a/"@ + file, "b/"@ + file)
    }
}

fn unified_diff(file: &str, old_text: &str, new_text: &str) -> (r: String)
    ensures
        r@ == diff_of(file@, old_text@, new_text@),
{
    if same_text(old_text, new_text) {
        let r = String::new();
        assert(r@ =~= Seq::empty());
        return r;
    }
    line_diff(
        old_text,
        new_text,
        joined("a/", file).as_str(),
        joined("b/", file).as_str(),
    )
}

/// The digest of a text.
pub open spec fn text_digest(s: Seq<char>) -> Seq<char> {
    digest_of(vstd::utf8::encode_utf8(s))
}

fn hash_text(s: &str) -> (r: String)
    ensures
        r@ == text_digest(s@),
{
    hash_bytes(s.as_bytes_vec().as_slice())
}

/// Whether a path stays in the repository.
pub open spec fn stays_inside(path: Seq<char>) -> bool {
    !has_prefix(path, "/"@) && forall|i: int|
        0 <= i < pieces(path, '/').len() ==> #[trigger] pieces(path, '/')[i] != ".."@
}

/// The outcome for a path in a repository.
pub open spec fn path_checked(path: Seq<char>) -> Result<(), ErrorModel> {
    if stays_inside(path) {
        Ok(())
    } else {
        failed(ErrorCode::InvalidInput, "path escapes repository"@)
    }
}

/// Checks that a path stays in the repository.
pub fn check_path(path: &str) -> (r: Result<(), ClewError>)
    ensures
        outcome(r) == path_checked(path@),
{
    let parts = split(path, '/');
    let ghost m = pieces(path@, '/');
    let mut i: usize = 0;
    let mut inside = !starts_with(path, "/");
    while i < parts.len()
        invariant
            i <= parts.len(),
            m == parts.deep_view(),
            inside == (!has_prefix(path@, "/"@) && forall|k: int|
                0 <= k < i ==> #[trigger] m[k] != ".."@),
        decreases parts.len() - i,
    {
        assert(m[i as int] == parts@[i as int]@);
        if same_text(parts[i].as_str(), "..") {
            inside = false;
        }
        i = i + 1;
    }
    if inside {
        Ok(())
    } else {
        Err(ClewError::new(ErrorCode::InvalidInput, "path escapes repository"))
    }
}

/// The text of a member, or another one.
pub open spec fn str_or(value: JsonModel, key: Seq<char>, other: Seq<char>) -> Seq<char> {
    match value.str_at(key) {
        Some(text) => text,
        None => other,
    }
}

fn text_or(value: &Json, key: &str, other: &str) -> (r: String)
    ensures
        r@ == str_or(value.deep_view(), key@, other@),
{
    match value.str_at(key) {
        Some(text) => text.clone(),
        None => other.to_owned(),
    }
}

/// The items of a member, or none.
pub open spec fn items_or_none(value: JsonModel, key: Seq<char>) -> Seq<JsonModel> {
    match value.array_at(key) {
        Some(items) => items,
        None => Seq::empty(),
    }
}

fn items_of(value: &Json, key: &str) -> (r: Vec<Json>)
    ensures
        r.deep_view() == items_or_none(value.deep_view(), key@),
{
    match value.array_at(key) {
        Some(items) => items.copied(),
        None => {
            let nothing: Vec<Json> = Vec::new();
            assert(nothing.deep_view() =~= Seq::empty());
            nothing
        },
    }
}

fn says(value: Option<&String>, text: &str) -> (r: bool)
    ensures
        r == (value.deep_view() == Some(text@)),
{
    match value {
        Some(value) => same_text(value.as_str(), text),
        None => false,
    }
}

/// Whether an operation is one of those that are known.
pub open spec fn is_known_kind(kind: Seq<char>) -> bool {
    kind == "REPLACE_EXPRESSION"@ || kind == "REPLACE_FUNCTION_BODY"@ || kind == "ADD_IMPORT"@
        || kind == "REMOVE_IMPORT"@ || kind == "REPLACE_DECLARATION"@ || kind
        == "REWRITE_DECLARATION"@ || kind == "CREATE_FILE"@ || kind == "REPLACE_MODEL_INPUT"@
        || kind == "MAP_EDGE_WITH_CONTEXT"@
}

fn known_kind(kind: &str) -> (r: bool)
    ensures
        r == is_known_kind(kind@),
{
    same_text(kind, "REPLACE_EXPRESSION") || same_text(kind, "REPLACE_FUNCTION_BODY") || same_text(
        kind,
        "ADD_IMPORT",
    ) || same_text(kind, "REMOVE_IMPORT") || same_text(kind, "REPLACE_DECLARATION") || same_text(
        kind,
        "REWRITE_DECLARATION",
    ) || same_text(kind, "CREATE_FILE") || same_text(kind, "REPLACE_MODEL_INPUT") || same_text(
        kind,
        "MAP_EDGE_WITH_CONTEXT",
    )
}

/// Whether an operation leaves the checking of meaning to a later step.
pub open spec fn is_deferring(kind: Seq<char>) -> bool {
    kind == "REPLACE_DECLARATION"@ || kind == "REWRITE_DECLARATION"@ || kind == "CREATE_FILE"@
}

/// Whether one of some operations leaves the checking of meaning to a later step.
pub open spec fn any_deferring(operations: Seq<EditOperationModel>) -> bool {
    exists|i: int| 0 <= i < operations.len() && is_deferring((#[trigger] operations[i]).kind)
}

fn defers(operations: &Vec<EditOperation>) -> (r: bool)
    ensures
        r == any_deferring(operations.deep_view()),
{
    let ghost m = operations.deep_view();
    let mut i: usize = 0;
    while i < operations.len()
        invariant
            i <= operations.len(),
            m == operations.deep_view(),
            forall|k: int| 0 <= k < i ==> !is_deferring((#[trigger] m[k]).kind),
        decreases operations.len() - i,
    {
        assert(m[i as int] == operations@[i as int].deep_view());
        let kind = operations[i].kind.as_str();
        if same_text(kind, "REPLACE_DECLARATION") || same_text(kind, "REWRITE_DECLARATION")
            || same_text(kind, "CREATE_FILE") {
            assert(is_deferring(m[i as int].kind));
            return true;
        }
        i = i + 1;
    }
    false
}

/// Whether an operation is said by what it does.
pub open spec fn is_semantic(op: EditOperationModel) -> bool {
    op.kind == "MAP_EDGE_WITH_CONTEXT"@
}

/// The file of an operation, where it may be carried out: it is known, it is allowed,
/// and it carries what its kind needs and no more.
pub open spec fn operation_checked(op: EditOperationModel, allowed: bool) -> Result<
    Seq<char>,
    ErrorModel,
> {
    if !is_known_kind(op.kind) {
        failed(ErrorCode::InvalidInput, "unsupported edit operation "@ + op.kind)
    } else if is_semantic(op) && !allowed {
        failed(
            ErrorCode::PreconditionFailed,
            "MAP_EDGE_WITH_CONTEXT can only be applied from a live authority proof receipt"@,
        )
    } else if is_semantic(op) && (op.replacement.kotlin.len() > 0 || op.semantic_operation
        is None) {
        failed(
            ErrorCode::InvalidInput,
            "MAP_EDGE_WITH_CONTEXT requires typed arguments and forbids replacement text"@,
        )
    } else if !is_semantic(op) && op.semantic_operation is Some {
        failed(
            ErrorCode::InvalidInput,
            "textual edit kinds cannot carry a semantic operation payload"@,
        )
    } else {
        match op.target {
            JsonModel::Obj(_) => match op.target.str_at("fileId"@) {
                Some(file) => Ok(file),
                None => failed(ErrorCode::InvalidInput, "target has no fileId"@),
            },
            _ => failed(ErrorCode::InvalidInput, "operation target must be an anchor object"@),
        }
    }
}

/// Checks an operation, and gives its file.
pub fn check_operation(op: &EditOperation, allowed: bool) -> (r: Result<String, ClewError>)
    ensures
        outcome(r) == operation_checked(op.deep_view(), allowed),
{
    if !known_kind(op.kind.as_str()) {
        return Err(
            ClewError::new(
                ErrorCode::InvalidInput,
                joined("unsupported edit operation ", op.kind.as_str()).as_str(),
            ),
        );
    }
    let semantic = same_text(op.kind.as_str(), "MAP_EDGE_WITH_CONTEXT");
    if semantic && !allowed {
        return Err(
            ClewError::new(
                ErrorCode::PreconditionFailed,
                "MAP_EDGE_WITH_CONTEXT can only be applied from a live authority proof receipt",
            ),
        );
    }
    if semantic && (op.replacement.kotlin.as_str().unicode_len() > 0
        || op.semantic_operation.is_none()) {
        return Err(
            ClewError::new(
                ErrorCode::InvalidInput,
                "MAP_EDGE_WITH_CONTEXT requires typed arguments and forbids replacement text",
            ),
        );
    }
    if !semantic && op.semantic_operation.is_some() {
        return Err(
            ClewError::new(
                ErrorCode::InvalidInput,
                "textual edit kinds cannot carry a semantic operation payload",
            ),
        );
    }
    match &op.target {
        Json::Obj(_) => {},
        _ => {
            return Err(
                ClewError::new(
                    ErrorCode::InvalidInput,
                    "operation target must be an anchor object",
                ),
            );
        },
    }
    match op.target.str_at("fileId") {
        Some(file) => Ok(file.clone()),
        None => Err(ClewError::new(ErrorCode::InvalidInput, "target has no fileId")),
    }
}

/// The target of an operation as it is handed on, from the value that the text of its
/// owner holds.
#[verifier::opaque]
pub open spec fn target_transported(target: JsonModel, owner: Option<JsonModel>) -> JsonModel {
    let original = str_or(target, "ownerSymbolId"@, Seq::empty());
    JsonModel::object().with(
        "ownerSymbolId"@,
        JsonModel::Str(
            match owner_canonical(owner) {
                Some(short) => short,
                None => original,
            },
        ),
    ).with(
        "exactTextHash"@,
        JsonModel::Str(str_or(target, "exactTextHash"@, Seq::empty())),
    ).with("syntaxKind"@, JsonModel::Str(str_or(target, "syntaxKind"@, Seq::empty()))).with(
        "normalizedTokenHash"@,
        JsonModel::Str(str_or(target, "normalizedTokenHash"@, Seq::empty())),
    ).with("ancestorPathHash"@, member_or_null(target, "ancestorPathHash"@)).with(
        "localOrdinal"@,
        member_or_null(target, "localOrdinal"@),
    ).with("leftContextHash"@, member_or_null(target, "leftContextHash"@)).with(
        "rightContextHash"@,
        member_or_null(target, "rightContextHash"@),
    )
}

/// The value that the text of the owner of a target holds.
pub open spec fn owner_value(target: JsonModel) -> Option<JsonModel> {
    parsed_json(str_or(target, "ownerSymbolId"@, Seq::empty()))
}

/// The target of an operation as it is handed on: its owner as a query has it, where it
/// is a complete identity, and otherwise as it is.
pub fn apply_edit_target_transport(target: &Json) -> (r: Json)
    ensures
        r.deep_view() == target_transported(target.deep_view(), owner_value(target.deep_view())),
{
    proof {
        reveal(target_transported);
        reveal_strlit("");
        assert(""@ =~= Seq::empty());
    }
    let original = text_or(target, "ownerSymbolId", "");
    let owner = match canonicalize_owner_symbol_query(original.as_str()) {
        Some(short) => short,
        None => original,
    };
    Json::object().with("ownerSymbolId", Json::Str(owner)).with(
        "exactTextHash",
        Json::Str(text_or(target, "exactTextHash", "")),
    ).with("syntaxKind", Json::Str(text_or(target, "syntaxKind", ""))).with(
        "normalizedTokenHash",
        Json::Str(text_or(target, "normalizedTokenHash", "")),
    ).with("ancestorPathHash", get_or_null(target, "ancestorPathHash")).with(
        "localOrdinal",
        get_or_null(target, "localOrdinal"),
    ).with("leftContextHash", get_or_null(target, "leftContextHash")).with(
        "rightContextHash",
        get_or_null(target, "rightContextHash"),
    )
}

/// The names of what a worker proves of a mapped edge.
pub open spec fn invariant_names() -> Seq<Seq<char>> {
    seq![
        "typeAssignable"@,
        "contextEvaluatedOnce"@,
        "placementDominatesUses"@,
        "orderPreserved"@,
        "cardinalityPreserved"@,
        "lazinessPreserved"@,
        "effectsPreserved"@,
        "nullabilityPreserved"@,
        "consumerContractPreserved"@,
        "abiPreserved"@,
        "behavioralOracleRequired"@,
        "noUnsupportedBoundary"@,
    ]
}

fn invariants() -> (r: Vec<String>)
    ensures
        r.deep_view() == invariant_names(),
{
    let r = vec![
        "typeAssignable".to_owned(),
        "contextEvaluatedOnce".to_owned(),
        "placementDominatesUses".to_owned(),
        "orderPreserved".to_owned(),
        "cardinalityPreserved".to_owned(),
        "lazinessPreserved".to_owned(),
        "effectsPreserved".to_owned(),
        "nullabilityPreserved".to_owned(),
        "consumerContractPreserved".to_owned(),
        "abiPreserved".to_owned(),
        "behavioralOracleRequired".to_owned(),
        "noUnsupportedBoundary".to_owned(),
    ];
    assert(r.deep_view() =~= invariant_names());
    r
}

/// The outcome for what a worker proves, from one name on.
pub open spec fn invariants_checked(proof_said: JsonModel, names: Seq<Seq<char>>, i: int) -> Result<
    (),
    ErrorModel,
>
    decreases names.len() - i,
{
    if i < 0 || i >= names.len() {
        Ok(())
    } else if proof_said.bool_at(names[i]) != Some(true) {
        failed(
            ErrorCode::IncompleteSemanticAnalysis,
            "semantic operation did not prove "@ + names[i],
        )
    } else {
        invariants_checked(proof_said, names, i + 1)
    }
}

/// The outcome for what a worker says that it did.
pub open spec fn proof_checked(proof_said: JsonModel, op: SemanticOperationModel) -> Result<
    (),
    ErrorModel,
> {
    match op {
        SemanticOperationModel::MapEdgeWithContext {
            workflow_symbol,
            context_producer_symbol,
            transformer_symbol,
            ..
        } => if proof_said.str_at("kind"@) != Some("MAP_EDGE_WITH_CONTEXT"@) {
            failed(ErrorCode::PreconditionFailed, "semantic operation proof has wrong kind"@)
        } else if proof_said.str_at("workflowSymbol"@) != Some(workflow_symbol) {
            failed(
                ErrorCode::PreconditionFailed,
                "semantic operation proof has wrong workflowSymbol"@,
            )
        } else if proof_said.str_at("contextProducerSymbol"@) != Some(context_producer_symbol) {
            failed(
                ErrorCode::PreconditionFailed,
                "semantic operation proof has wrong contextProducerSymbol"@,
            )
        } else if proof_said.str_at("transformerSymbol"@) != Some(transformer_symbol) {
            failed(
                ErrorCode::PreconditionFailed,
                "semantic operation proof has wrong transformerSymbol"@,
            )
        } else {
            invariants_checked(proof_said, invariant_names(), 0)
        },
    }
}

/// The outcome for the response to a mapped edge: it is clean, and proves all that it
/// has to for the operation.
pub open spec fn map_edge_checked(op: EditOperationModel, response: JsonModel) -> Result<
    (),
    ErrorModel,
> {
    match op.semantic_operation {
        None => failed(
            ErrorCode::InvalidInput,
            "map-edge edit has no typed operation payload"@,
        ),
        Some(semantic) => {
            let clean = match response.array_at("introducedEffects"@) {
                Some(effects) => effects.len() == 0,
                None => false,
            };
            if response.bool_at("k2Validated"@) != Some(true) || !clean {
                failed(
                    ErrorCode::IncompleteSemanticAnalysis,
                    "semantic map-edge candidate lacks clean K2/effect evidence"@,
                )
            } else {
                match response.get("semanticOperationProof"@) {
                    Some(JsonModel::Obj(m)) => proof_checked(JsonModel::Obj(m), semantic),
                    _ => failed(
                        ErrorCode::IncompleteSemanticAnalysis,
                        "worker returned no semantic operation proof"@,
                    ),
                }
            }
        },
    }
}

fn check_invariants(proof_said: &Json) -> (r: Result<(), ClewError>)
    ensures
        outcome(r) == invariants_checked(proof_said.deep_view(), invariant_names(), 0),
{
    let names = invariants();
    let ghost m = names.deep_view();
    let ghost p = proof_said.deep_view();
    let mut i: usize = 0;
    while i < names.len()
        invariant
            i <= names.len(),
            m == names.deep_view(),
            m == invariant_names(),
            p == proof_said.deep_view(),
            invariants_checked(p, m, 0) == invariants_checked(p, m, i as int),
        decreases names.len() - i,
    {
        assert(m[i as int] == names@[i as int]@);
        match proof_said.bool_at(names[i].as_str()) {
            Some(true) => {},
            _ => {
                return Err(
                    ClewError::new(
                        ErrorCode::IncompleteSemanticAnalysis,
                        joined("semantic operation did not prove ", names[i].as_str()).as_str(),
                    ),
                );
            },
        }
        i = i + 1;
    }
    Ok(())
}

fn check_proof(proof_said: &Json, op: &SemanticOperation) -> (r: Result<(), ClewError>)
    ensures
        outcome(r) == proof_checked(proof_said.deep_view(), op.deep_view()),
{
    match op {
        SemanticOperation::MapEdgeWithContext {
            workflow_symbol,
            context_producer_symbol,
            transformer_symbol,
            ..
        } => {
            if !says(proof_said.str_at("kind"), "MAP_EDGE_WITH_CONTEXT") {
                return Err(
                    ClewError::new(
                        ErrorCode::PreconditionFailed,
                        "semantic operation proof has wrong kind",
                    ),
                );
            }
            if !says(proof_said.str_at("workflowSymbol"), workflow_symbol.as_str()) {
                return Err(
                    ClewError::new(
                        ErrorCode::PreconditionFailed,
                        "semantic operation proof has wrong workflowSymbol",
                    ),
                );
            }
            if !says(proof_said.str_at("contextProducerSymbol"), context_producer_symbol.as_str()) {
                return Err(
                    ClewError::new(
                        ErrorCode::PreconditionFailed,
                        "semantic operation proof has wrong contextProducerSymbol",
                    ),
                );
            }
            if !says(proof_said.str_at("transformerSymbol"), transformer_symbol.as_str()) {
                return Err(
                    ClewError::new(
                        ErrorCode::PreconditionFailed,
                        "semantic operation proof has wrong transformerSymbol",
                    ),
                );
            }
            check_invariants(proof_said)
        },
    }
}

/// Checks the response to a mapped edge.
pub fn validate_map_edge_operation_response(op: &EditOperation, response: &Json) -> (r: Result<
    (),
    ClewError,
>)
    ensures
        outcome(r) == map_edge_checked(op.deep_view(), response.deep_view()),
{
    let semantic = match &op.semantic_operation {
        Some(semantic) => semantic,
        None => {
            return Err(
                ClewError::new(
                    ErrorCode::InvalidInput,
                    "map-edge edit has no typed operation payload",
                ),
            );
        },
    };
    let validated = match response.bool_at("k2Validated") {
        Some(validated) => validated,
        None => false,
    };
    let clean = match response.array_at("introducedEffects") {
        Some(effects) => effects.len() == 0,
        None => false,
    };
    if !validated || !clean {
        return Err(
            ClewError::new(
                ErrorCode::IncompleteSemanticAnalysis,
                "semantic map-edge candidate lacks clean K2/effect evidence",
            ),
        );
    }
    match response.get("semanticOperationProof") {
        Some(said) => match said {
            Json::Obj(_) => check_proof(said, semantic),
            _ => Err(
                ClewError::new(
                    ErrorCode::IncompleteSemanticAnalysis,
                    "worker returned no semantic operation proof",
                ),
            ),
        },
        None => Err(
            ClewError::new(
                ErrorCode::IncompleteSemanticAnalysis,
                "worker returned no semantic operation proof",
            ),
        ),
    }
}

/// What a preview has been asked for and has not got yet.
#[derive(Clone, Copy, Debug, PartialEq, Eq, Structural)]
pub enum PreviewPhase {
    Head,
    Project,
    ModelInput,
    ModelBytes,
    Existence,
    Validation,
    Signature,
    Source,
    Response,
    Originals,
}

/// How far a preview has come: the operation that it is at, what it waits for, what
/// the operations before would change, and the source that the edit at hand starts
/// from.
pub struct PreviewState {
    pub phase: PreviewPhase,
    pub next: usize,
    pub head: String,
    pub transaction_id: String,
    pub project: Option<Json>,
    pub current: String,
    pub candidates: Vec<Candidate>,
    pub writes: Vec<WriteFact>,
    pub expected_writes: Vec<ExpectedWriteFact>,
    pub windows: Vec<Json>,
    pub diagnostics: Vec<Json>,
}

/// The model of a [`PreviewState`].
pub struct PreviewStateModel {
    pub phase: PreviewPhase,
    pub next: usize,
    pub head: Seq<char>,
    pub transaction_id: Seq<char>,
    pub project: Option<JsonModel>,
    pub current: Seq<char>,
    pub candidates: Seq<CandidateModel>,
    pub writes: Seq<WriteFactModel>,
    pub expected_writes: Seq<ExpectedWriteFactModel>,
    pub windows: Seq<JsonModel>,
    pub diagnostics: Seq<JsonModel>,
}

impl DeepView for PreviewState {
    type V = PreviewStateModel;

    open spec fn deep_view(&self) -> PreviewStateModel {
        PreviewStateModel {
            phase: self.phase,
            next: self.next,
            head: self.head.deep_view(),
            transaction_id: self.transaction_id.deep_view(),
            project: self.project.deep_view(),
            current: self.current.deep_view(),
            candidates: self.candidates.deep_view(),
            writes: self.writes.deep_view(),
            expected_writes: self.expected_writes.deep_view(),
            windows: self.windows.deep_view(),
            diagnostics: self.diagnostics.deep_view(),
        }
    }
}

/// What a preview is told.
pub enum PreviewEvent {
    /// The revision that is checked out, and an identifier for the transaction.
    Head { head: String, transaction_id: String },
    /// The project as it was opened.
    Project(Json),
    /// What the index lists for a model input, and what stands at the parts of its path.
    ModelInput { listed: bool, listing: Vec<u8>, kinds: Vec<PathKind> },
    /// The bytes of a model input.
    ModelBytes(Vec<u8>),
    /// Whether a file is there.
    Existence(bool),
    /// What was found of a new file.
    Validation(Json),
    /// The declaration that a symbol stands for.
    Resolved(Json),
    /// The source of a file.
    Source(String),
    /// What became of an edit.
    Response(Json),
    /// The sources that the changed files have, where they have one.
    Originals(Vec<Option<String>>),
}

/// The model of a [`PreviewEvent`].
pub enum PreviewEventModel {
    Head { head: Seq<char>, transaction_id: Seq<char> },
    Project(JsonModel),
    ModelInput { listed: bool, listing: Seq<u8>, kinds: Seq<PathKind> },
    ModelBytes(Seq<u8>),
    Existence(bool),
    Validation(JsonModel),
    Resolved(JsonModel),
    Source(Seq<char>),
    Response(JsonModel),
    Originals(Seq<Option<Seq<char>>>),
}

impl DeepView for PreviewEvent {
    type V = PreviewEventModel;

    open spec fn deep_view(&self) -> PreviewEventModel {
        match self {
            PreviewEvent::Head { head, transaction_id } => PreviewEventModel::Head {
                head: head@,
                transaction_id: transaction_id@,
            },
            PreviewEvent::Project(v) => PreviewEventModel::Project(v.deep_view()),
            PreviewEvent::ModelInput { listed, listing, kinds } => PreviewEventModel::ModelInput {
                listed: *listed,
                listing: listing@,
                kinds: kinds@,
            },
            PreviewEvent::ModelBytes(v) => PreviewEventModel::ModelBytes(v@),
            PreviewEvent::Existence(v) => PreviewEventModel::Existence(*v),
            PreviewEvent::Validation(v) => PreviewEventModel::Validation(v.deep_view()),
            PreviewEvent::Resolved(v) => PreviewEventModel::Resolved(v.deep_view()),
            PreviewEvent::Source(v) => PreviewEventModel::Source(v@),
            PreviewEvent::Response(v) => PreviewEventModel::Response(v.deep_view()),
            PreviewEvent::Originals(v) => PreviewEventModel::Originals(v.deep_view()),
        }
    }
}

/// What a preview asks for. A request to a worker comes without the repository.
pub enum PreviewAction {
    OpenProject(Json),
    InspectModelInput(String),
    ReadModelInput(String),
    FindFile(String),
    ValidateCandidate(Json),
    ResolveSymbol(Json),
    ReadSource(String),
    ApplyEdit(Json),
    ReadOriginals(Vec<String>),
    Finish(PreviewReport),
}

/// The model of a [`PreviewAction`].
pub enum PreviewActionModel {
    OpenProject(JsonModel),
    InspectModelInput(Seq<char>),
    ReadModelInput(Seq<char>),
    FindFile(Seq<char>),
    ValidateCandidate(JsonModel),
    ResolveSymbol(JsonModel),
    ReadSource(Seq<char>),
    ApplyEdit(JsonModel),
    ReadOriginals(Seq<Seq<char>>),
    Finish(PreviewReportModel),
}

impl DeepView for PreviewAction {
    type V = PreviewActionModel;

    open spec fn deep_view(&self) -> PreviewActionModel {
        match self {
            PreviewAction::OpenProject(v) => PreviewActionModel::OpenProject(v.deep_view()),
            PreviewAction::InspectModelInput(v) => PreviewActionModel::InspectModelInput(v@),
            PreviewAction::ReadModelInput(v) => PreviewActionModel::ReadModelInput(v@),
            PreviewAction::FindFile(v) => PreviewActionModel::FindFile(v@),
            PreviewAction::ValidateCandidate(v) => PreviewActionModel::ValidateCandidate(
                v.deep_view(),
            ),
            PreviewAction::ResolveSymbol(v) => PreviewActionModel::ResolveSymbol(v.deep_view()),
            PreviewAction::ReadSource(v) => PreviewActionModel::ReadSource(v@),
            PreviewAction::ApplyEdit(v) => PreviewActionModel::ApplyEdit(v.deep_view()),
            PreviewAction::ReadOriginals(v) => PreviewActionModel::ReadOriginals(v.deep_view()),
            PreviewAction::Finish(v) => PreviewActionModel::Finish(v.deep_view()),
        }
    }
}

/// A step of a preview: how far it has come, and what it asks for next.
pub type Step = (PreviewStateModel, PreviewActionModel);

impl PreviewState {
    /// The start of a preview.
    pub fn start() -> (r: PreviewState)
        ensures
            r.deep_view() == preview_started(),
    {
        let r = PreviewState {
            phase: PreviewPhase::Head,
            next: 0,
            head: String::new(),
            transaction_id: String::new(),
            project: None,
            current: String::new(),
            candidates: Vec::new(),
            writes: Vec::new(),
            expected_writes: Vec::new(),
            windows: Vec::new(),
            diagnostics: Vec::new(),
        };
        assert(r.head@ =~= Seq::empty());
        assert(r.candidates.deep_view() =~= Seq::empty());
        assert(r.writes.deep_view() =~= Seq::empty());
        assert(r.expected_writes.deep_view() =~= Seq::empty());
        assert(r.windows.deep_view() =~= Seq::empty());
        r
    }
}

/// The start of a preview.
pub open spec fn preview_started() -> PreviewStateModel {
    PreviewStateModel {
        phase: PreviewPhase::Head,
        next: 0,
        head: Seq::empty(),
        transaction_id: Seq::empty(),
        project: None,
        current: Seq::empty(),
        candidates: Seq::empty(),
        writes: Seq::empty(),
        expected_writes: Seq::empty(),
        windows: Seq::empty(),
        diagnostics: Seq::empty(),
    }
}

/// The files of candidates.
pub open spec fn candidate_files(candidates: Seq<CandidateModel>) -> Seq<Seq<char>> {
    Seq::new(candidates.len(), |i: int| candidates[i].file)
}

/// A request to open a project.
pub open spec fn project_request(thread: ThreadIrModel) -> JsonModel {
    JsonModel::object().with("compilation"@, JsonModel::Str(thread.snapshot.compilation))
}

/// The next question about a model input.
pub open spec fn model_input_asked(
    st: PreviewStateModel,
    op: EditOperationModel,
    file: Seq<char>,
) -> Result<Step, ErrorModel> {
    if op.target.str_at("syntaxKind"@) != Some("MODEL_INPUT_FILE"@) {
        failed(
            ErrorCode::InvalidInput,
            "REPLACE_MODEL_INPUT requires an emitted model-input target"@,
        )
    } else if has_key::<Candidate>(st.candidates, file) {
        failed(ErrorCode::InvalidInput, "model input may be replaced only once: "@ + file)
    } else if !is_canonical_path(file) {
        failed(ErrorCode::InvalidInput, "model input path is not canonical: "@ + file)
    } else {
        Ok(
            (
                PreviewStateModel { phase: PreviewPhase::ModelInput, ..st },
                PreviewActionModel::InspectModelInput(file),
            ),
        )
    }
}

/// Whether a model input has been replaced.
pub open spec fn is_model_input(writes: Seq<WriteFactModel>, file: Seq<char>) -> bool {
    exists|i: int|
        0 <= i < writes.len() && (#[trigger] writes[i]).kind == "MODEL_INPUT"@ && writes[i].key
            == file
}

/// The next question about the source of a file.
pub open spec fn source_asked(st: PreviewStateModel, file: Seq<char>) -> Result<Step, ErrorModel> {
    match path_checked(file) {
        Err(e) => Err(e),
        Ok(_) => Ok(
            (
                PreviewStateModel { phase: PreviewPhase::Source, ..st },
                PreviewActionModel::ReadSource(file),
            ),
        ),
    }
}

/// A request to find what a symbol stands for.
pub open spec fn symbol_request(thread: ThreadIrModel, symbol: Seq<char>) -> JsonModel {
    JsonModel::object().with("symbol"@, JsonModel::Str(symbol)).with(
        "compilation"@,
        JsonModel::Str(thread.snapshot.compilation),
    )
}

/// The first question about an operation.
pub open spec fn operation_asked(
    st: PreviewStateModel,
    thread: ThreadIrModel,
    op: EditOperationModel,
    file: Seq<char>,
) -> Result<Step, ErrorModel> {
    if op.kind == "REPLACE_MODEL_INPUT"@ {
        if st.project is None {
            Ok(
                (
                    PreviewStateModel { phase: PreviewPhase::Project, ..st },
                    PreviewActionModel::OpenProject(project_request(thread)),
                ),
            )
        } else {
            model_input_asked(st, op, file)
        }
    } else if is_model_input(st.writes, file) {
        failed(
            ErrorCode::InvalidInput,
            "model input cannot be combined with another edit kind: "@ + file,
        )
    } else if op.kind == "CREATE_FILE"@ {
        if !has_suffix(file, ".kt"@) {
            failed(ErrorCode::InvalidInput, "CREATE_FILE only supports Kotlin .kt files"@)
        } else {
            match path_checked(file) {
                Err(e) => Err(e),
                Ok(_) => Ok(
                    (
                        PreviewStateModel { phase: PreviewPhase::Existence, ..st },
                        PreviewActionModel::FindFile(file),
                    ),
                ),
            }
        }
    } else if op.preconditions.str_at("nodeTextHash"@) is Some && op.target.str_at(
        "exactTextHash"@,
    ) != op.preconditions.str_at("nodeTextHash"@) {
        failed(
            ErrorCode::PreconditionFailed,
            "nodeTextHash precondition does not match the target anchor"@,
        )
    } else if op.preconditions.str_at("ownerSignatureHash"@) is Some {
        Ok(
            (
                PreviewStateModel { phase: PreviewPhase::Signature, ..st },
                PreviewActionModel::ResolveSymbol(
                    symbol_request(thread, str_or(op.target, "ownerSymbolId"@, Seq::empty())),
                ),
            ),
        )
    } else {
        source_asked(st, file)
    }
}

/// The next question of a preview: about the operation at hand, or about the files that
/// all of them change.
pub open spec fn preview_asked(
    st: PreviewStateModel,
    thread: ThreadIrModel,
    edit: EditIrModel,
    allowed: bool,
) -> Result<Step, ErrorModel> {
    if st.next >= edit.operations.len() {
        Ok(
            (
                PreviewStateModel { phase: PreviewPhase::Originals, ..st },
                PreviewActionModel::ReadOriginals(candidate_files(st.candidates)),
            ),
        )
    } else {
        let op = edit.operations[st.next as int];
        match operation_checked(op, allowed) {
            Err(e) => Err(e),
            Ok(file) => operation_asked(st, thread, op, file),
        }
    }
}

fn files_of(candidates: &Vec<Candidate>) -> (r: Vec<String>)
    ensures
        r.deep_view() == candidate_files(candidates.deep_view()),
{
    let ghost m = candidates.deep_view();
    let mut r: Vec<String> = Vec::new();
    let mut i: usize = 0;
    while i < candidates.len()
        invariant
            i <= candidates.len(),
            m == candidates.deep_view(),
            r.deep_view() =~= candidate_files(m).take(i as int),
        decreases candidates.len() - i,
    {
        assert(m[i as int] == candidates@[i as int].deep_view());
        let ghost before = r.deep_view();
        r.push(candidates[i].file.clone());
        assert(r.deep_view() =~= before.push(m[i as int].file));
        i = i + 1;
    }
    assert(r.deep_view() =~= candidate_files(m));
    r
}

fn writes_model_input(writes: &Vec<WriteFact>, file: &str) -> (r: bool)
    ensures
        r == is_model_input(writes.deep_view(), file@),
{
    let ghost m = writes.deep_view();
    let mut i: usize = 0;
    while i < writes.len()
        invariant
            i <= writes.len(),
            m == writes.deep_view(),
            forall|k: int|
                0 <= k < i ==> !((#[trigger] m[k]).kind == "MODEL_INPUT"@ && m[k].key == file@),
        decreases writes.len() - i,
    {
        assert(m[i as int] == writes@[i as int].deep_view());
        if same_text(writes[i].kind.as_str(), "MODEL_INPUT") && same_text(
            writes[i].key.as_str(),
            file,
        ) {
            return true;
        }
        i = i + 1;
    }
    false
}

fn with_phase(st: PreviewState, phase: PreviewPhase) -> (r: PreviewState)
    ensures
        r.deep_view() == (PreviewStateModel { phase, ..st.deep_view() }),
{
    let mut r = st;
    r.phase = phase;
    r
}

fn ask_model_input(st: PreviewState, op: &EditOperation, file: &str) -> (r: Result<
    (PreviewState, PreviewAction),
    ClewError,
>)
    ensures
        outcome(r) == model_input_asked(st.deep_view(), op.deep_view(), file@),
{
    if !says(op.target.str_at("syntaxKind"), "MODEL_INPUT_FILE") {
        return Err(
            ClewError::new(
                ErrorCode::InvalidInput,
                "REPLACE_MODEL_INPUT requires an emitted model-input target",
            ),
        );
    }
    if contains_key(&st.candidates, file) {
        return Err(
            ClewError::new(
                ErrorCode::InvalidInput,
                joined("model input may be replaced only once: ", file).as_str(),
            ),
        );
    }
    check_canonical_path(file)?;
    Ok(
        (
            with_phase(st, PreviewPhase::ModelInput),
            PreviewAction::InspectModelInput(file.to_owned()),
        ),
    )
}

fn ask_source(st: PreviewState, file: &str) -> (r: Result<(PreviewState, PreviewAction), ClewError>)
    ensures
        outcome(r) == source_asked(st.deep_view(), file@),
{
    check_path(file)?;
    Ok((with_phase(st, PreviewPhase::Source), PreviewAction::ReadSource(file.to_owned())))
}

fn ask_operation(st: PreviewState, thread: &ThreadIr, op: &EditOperation, file: &str) -> (r: Result<
    (PreviewState, PreviewAction),
    ClewError,
>)
    ensures
        outcome(r) == operation_asked(
            st.deep_view(),
            thread.deep_view(),
            op.deep_view(),
            file@,
        ),
{
    let kind = op.kind.as_str();
    if same_text(kind, "REPLACE_MODEL_INPUT") {
        if st.project.is_none() {
            return Ok(
                (
                    with_phase(st, PreviewPhase::Project),
                    PreviewAction::OpenProject(
                        Json::object().with(
                            "compilation",
                            Json::Str(thread.snapshot.compilation.clone()),
                        ),
                    ),
                ),
            );
        }
        return ask_model_input(st, op, file);
    }
    if writes_model_input(&st.writes, file) {
        return Err(
            ClewError::new(
                ErrorCode::InvalidInput,
                joined("model input cannot be combined with another edit kind: ", file).as_str(),
            ),
        );
    }
    if same_text(kind, "CREATE_FILE") {
        if !ends_with(file, ".kt") {
            return Err(
                ClewError::new(
                    ErrorCode::InvalidInput,
                    "CREATE_FILE only supports Kotlin .kt files",
                ),
            );
        }
        check_path(file)?;
        return Ok(
            (
                with_phase(st, PreviewPhase::Existence),
                PreviewAction::FindFile(file.to_owned()),
            ),
        );
    }
    match op.preconditions.str_at("nodeTextHash") {
        Some(expected) => {
            if !says(op.target.str_at("exactTextHash"), expected.as_str()) {
                return Err(
                    ClewError::new(
                        ErrorCode::PreconditionFailed,
                        "nodeTextHash precondition does not match the target anchor",
                    ),
                );
            }
        },
        None => {},
    }
    if op.preconditions.str_at("ownerSignatureHash").is_some() {
        proof {
            reveal_strlit("");
            assert(""@ =~= Seq::empty());
        }
        let symbol = text_or(&op.target, "ownerSymbolId", "");
        return Ok(
            (
                with_phase(st, PreviewPhase::Signature),
                PreviewAction::ResolveSymbol(
                    Json::object().with("symbol", Json::Str(symbol)).with(
                        "compilation",
                        Json::Str(thread.snapshot.compilation.clone()),
                    ),
                ),
            ),
        );
    }
    ask_source(st, file)
}

fn ask_preview(st: PreviewState, thread: &ThreadIr, edit: &EditIr, allowed: bool) -> (r: Result<
    (PreviewState, PreviewAction),
    ClewError,
>)
    ensures
        outcome(r) == preview_asked(
            st.deep_view(),
            thread.deep_view(),
            edit.deep_view(),
            allowed,
        ),
{
    if st.next >= edit.operations.len() {
        let files = files_of(&st.candidates);
        return Ok((with_phase(st, PreviewPhase::Originals), PreviewAction::ReadOriginals(files)));
    }
    let next: usize = st.next;
    let op = &edit.operations[next];
    assert(edit.deep_view().operations[next as int] == op.deep_view());
    let file = check_operation(op, allowed)?;
    ask_operation(st, thread, op, file.as_str())
}

/// The start of a preview at a revision.
pub open spec fn head_told(
    st: PreviewStateModel,
    thread: ThreadIrModel,
    edit: EditIrModel,
    allowed: bool,
    head: Seq<char>,
    transaction_id: Seq<char>,
) -> Result<Step, ErrorModel> {
    if head != edit.base_revision || head != thread.snapshot.base_revision {
        failed(
            ErrorCode::ProjectModelChanged,
            between("snapshot base "@, edit.base_revision, " does not match HEAD "@) + head,
        )
    } else if edit.thread_id != thread.thread_id {
        failed(
            ErrorCode::PreconditionFailed,
            "Edit IR threadId does not match Thread IR"@,
        )
    } else if edit.operations.len() == 0 {
        failed(ErrorCode::InvalidInput, "Edit IR has no operations"@)
    } else {
        preview_asked(
            PreviewStateModel { head, transaction_id, next: 0, ..st },
            thread,
            edit,
            allowed,
        )
    }
}

fn tell_head(
    st: PreviewState,
    thread: &ThreadIr,
    edit: &EditIr,
    allowed: bool,
    head: String,
    transaction_id: String,
) -> (r: Result<(PreviewState, PreviewAction), ClewError>)
    ensures
        outcome(r) == head_told(
            st.deep_view(),
            thread.deep_view(),
            edit.deep_view(),
            allowed,
            head@,
            transaction_id@,
        ),
{
    if !head.same_as(&edit.base_revision) || !head.same_as(&thread.snapshot.base_revision) {
        let message = joined(
            framed(
                "snapshot base ",
                edit.base_revision.as_str(),
                " does not match HEAD ",
            ).as_str(),
            head.as_str(),
        );
        return Err(ClewError::new(ErrorCode::ProjectModelChanged, message.as_str()));
    }
    if !edit.thread_id.same_as(&thread.thread_id) {
        return Err(
            ClewError::new(
                ErrorCode::PreconditionFailed,
                "Edit IR threadId does not match Thread IR",
            ),
        );
    }
    if edit.operations.len() == 0 {
        return Err(ClewError::new(ErrorCode::InvalidInput, "Edit IR has no operations"));
    }
    let mut started = st;
    started.head = head;
    started.transaction_id = transaction_id;
    started.next = 0;
    ask_preview(started, thread, edit, allowed)
}

/// What becomes of an operation that is at hand: the next question comes after it.
pub open spec fn operation_done(
    st: PreviewStateModel,
    thread: ThreadIrModel,
    edit: EditIrModel,
    allowed: bool,
) -> Result<Step, ErrorModel> {
    preview_asked(
        PreviewStateModel { next: (st.next + 1) as usize, ..st },
        thread,
        edit,
        allowed,
    )
}

fn finish_operation(st: PreviewState, thread: &ThreadIr, edit: &EditIr, allowed: bool) -> (r: Result<
    (PreviewState, PreviewAction),
    ClewError,
>)
    requires
        st.next < edit.operations@.len(),
    ensures
        outcome(r) == operation_done(
            st.deep_view(),
            thread.deep_view(),
            edit.deep_view(),
            allowed,
        ),
{
    let count: usize = edit.operations.len();
    let mut done = st;
    assert(done.next < count);
    done.next = done.next + 1;
    ask_preview(done, thread, edit, allowed)
}

/// What is asked once it is known what stands at a model input.
pub open spec fn model_input_told(
    st: PreviewStateModel,
    thread: ThreadIrModel,
    op: EditOperationModel,
    file: Seq<char>,
    listed: bool,
    listing: Seq<u8>,
    kinds: Seq<PathKind>,
) -> Result<Step, ErrorModel> {
    match tracking_checked(listed, listing, kinds, file) {
        Err(e) => Err(e),
        Ok(_) => match op.target.str_at("exactTextHash"@) {
            None => failed(ErrorCode::InvalidInput, "model-input target has no exactTextHash"@),
            Some(expected) => match project_authorized(
                match st.project {
                    Some(project) => project,
                    None => JsonModel::Null,
                },
                thread.snapshot.project_model_hash,
                op.target.str_at("semanticInputManifestHash"@),
                file,
                expected,
            ) {
                Err(e) => Err(e),
                Ok(_) => match path_checked(file) {
                    Err(e) => Err(e),
                    Ok(_) => Ok(
                        (
                            PreviewStateModel { phase: PreviewPhase::ModelBytes, ..st },
                            PreviewActionModel::ReadModelInput(file),
                        ),
                    ),
                },
            },
        },
    }
}

fn tell_model_input(
    st: PreviewState,
    thread: &ThreadIr,
    op: &EditOperation,
    file: &str,
    listed: bool,
    listing: &Vec<u8>,
    kinds: &Vec<PathKind>,
) -> (r: Result<(PreviewState, PreviewAction), ClewError>)
    ensures
        outcome(r) == model_input_told(
            st.deep_view(),
            thread.deep_view(),
            op.deep_view(),
            file@,
            listed,
            listing@,
            kinds@,
        ),
{
    require_tracked_model_input(listed, listing, kinds, file)?;
    let expected = match op.target.str_at("exactTextHash") {
        Some(expected) => expected,
        None => {
            return Err(
                ClewError::new(
                    ErrorCode::InvalidInput,
                    "model-input target has no exactTextHash",
                ),
            );
        },
    };
    let nothing = Json::Null;
    let project = match &st.project {
        Some(project) => project,
        None => &nothing,
    };
    validate_model_input_project_authority(
        project,
        thread.snapshot.project_model_hash.as_str(),
        op.target.str_at("semanticInputManifestHash"),
        file,
        expected.as_str(),
    )?;
    check_path(file)?;
    Ok(
        (
            with_phase(st, PreviewPhase::ModelBytes),
            PreviewAction::ReadModelInput(file.to_owned()),
        ),
    )
}

/// What is written down of a model input that is replaced.
#[verifier::opaque]
pub open spec fn model_window(file: Seq<char>, before: nat, after: nat) -> JsonModel {
    JsonModel::object().with("file"@, JsonModel::Str(file)).with(
        "range"@,
        JsonModel::Str("WHOLE_FILE"@),
    ).with("beforeBytes"@, JsonModel::Uint(before as u64)).with(
        "afterBytes"@,
        JsonModel::Uint(after as u64),
    )
}

/// What a model input would change, from its bytes: they are those of the task.
pub open spec fn model_bytes_told(
    st: PreviewStateModel,
    op: EditOperationModel,
    file: Seq<char>,
    bytes: Seq<u8>,
) -> Result<PreviewStateModel, ErrorModel> {
    let source = op.replacement.kotlin;
    if !vstd::utf8::valid_utf8(bytes) {
        failed(ErrorCode::InvalidInput, "model input is not UTF-8: "@ + file)
    } else if op.target.str_at("exactTextHash"@) != Some(digest_of(bytes)) {
        failed(ErrorCode::WwConflict, "model input changed after context capture: "@ + file)
    } else {
        Ok(
            PreviewStateModel {
                candidates: replaced::<Candidate>(st.candidates, CandidateModel { file, source }),
                expected_writes: st.expected_writes.push(
                    ExpectedWriteFactModel { kind: "MODEL_INPUT"@, key: file },
                ),
                writes: st.writes.push(
                    WriteFactModel {
                        kind: "MODEL_INPUT"@,
                        key: file,
                        before_hash: digest_of(bytes),
                        after_hash: text_digest(source),
                    },
                ),
                windows: st.windows.push(
                    model_window(
                        file,
                        bytes.len(),
                        vstd::utf8::encode_utf8(source).len(),
                    ),
                ),
                ..st
            },
        )
    }
}

fn push_write(st: &mut PreviewState, kind: &str, key: &str, before_hash: String, after_hash: String)
    ensures
        final(st).deep_view() == (PreviewStateModel {
            writes: old(st).deep_view().writes.push(
                WriteFactModel {
                    kind: kind@,
                    key: key@,
                    before_hash: before_hash@,
                    after_hash: after_hash@,
                },
            ),
            ..old(st).deep_view()
        }),
{
    let ghost before = st.writes.deep_view();
    let fact = WriteFact {
        kind: kind.to_owned(),
        key: key.to_owned(),
        before_hash,
        after_hash,
    };
    st.writes.push(fact);
    assert(st.writes.deep_view() =~= before.push(fact.deep_view()));
}

fn push_expected(st: &mut PreviewState, kind: &str, key: &str)
    ensures
        final(st).deep_view() == (PreviewStateModel {
            expected_writes: old(st).deep_view().expected_writes.push(
                ExpectedWriteFactModel { kind: kind@, key: key@ },
            ),
            ..old(st).deep_view()
        }),
{
    let ghost before = st.expected_writes.deep_view();
    let fact = ExpectedWriteFact { kind: kind.to_owned(), key: key.to_owned() };
    st.expected_writes.push(fact);
    assert(st.expected_writes.deep_view() =~= before.push(fact.deep_view()));
}

fn push_window(st: &mut PreviewState, window: Json)
    ensures
        final(st).deep_view() == (PreviewStateModel {
            windows: old(st).deep_view().windows.push(window.deep_view()),
            ..old(st).deep_view()
        }),
{
    let ghost before = st.windows.deep_view();
    st.windows.push(window);
    assert(st.windows.deep_view() =~= before.push(window.deep_view()));
}

fn set_candidate(st: &mut PreviewState, file: &str, source: &str)
    ensures
        final(st).deep_view() == (PreviewStateModel {
            candidates: replaced::<Candidate>(
                old(st).deep_view().candidates,
                CandidateModel { file: file@, source: source@ },
            ),
            ..old(st).deep_view()
        }),
{
    replace(
        &mut st.candidates,
        Candidate { file: file.to_owned(), source: source.to_owned() },
    );
}

fn tell_model_bytes(st: PreviewState, op: &EditOperation, file: &str, bytes: &Vec<u8>) -> (r: Result<
    PreviewState,
    ClewError,
>)
    ensures
        outcome(r) == model_bytes_told(st.deep_view(), op.deep_view(), file@, bytes@),
{
    if !is_utf8(bytes.as_slice()) {
        return Err(
            ClewError::new(
                ErrorCode::InvalidInput,
                joined("model input is not UTF-8: ", file).as_str(),
            ),
        );
    }
    let digest = hash_bytes(bytes.as_slice());
    if !says(op.target.str_at("exactTextHash"), digest.as_str()) {
        return Err(
            ClewError::new(
                ErrorCode::WwConflict,
                joined("model input changed after context capture: ", file).as_str(),
            ),
        );
    }
    proof {
        reveal(model_window);
    }
    let source = op.replacement.kotlin.as_str();
    let mut told = st;
    set_candidate(&mut told, file, source);
    push_expected(&mut told, "MODEL_INPUT", file);
    push_write(&mut told, "MODEL_INPUT", file, digest, hash_text(source));
    push_window(
        &mut told,
        Json::object().with("file", Json::Str(file.to_owned())).with(
            "range",
            Json::Str("WHOLE_FILE".to_owned()),
        ).with("beforeBytes", Json::Uint(bytes.len() as u64)).with(
            "afterBytes",
            Json::Uint(byte_len(source) as u64),
        ),
    );
    Ok(told)
}

/// What is asked once it is known whether a new file is there.
pub open spec fn existence_told(
    st: PreviewStateModel,
    op: EditOperationModel,
    file: Seq<char>,
    exists_already: bool,
) -> Result<Step, ErrorModel> {
    if exists_already || has_key::<Candidate>(st.candidates, file) {
        failed(
            ErrorCode::PreconditionFailed,
            "CREATE_FILE target already exists: "@ + file,
        )
    } else if trimmed(op.replacement.kotlin).len() == 0 {
        failed(ErrorCode::InvalidInput, "CREATE_FILE replacement must not be empty"@)
    } else {
        Ok(
            (
                PreviewStateModel { phase: PreviewPhase::Validation, ..st },
                PreviewActionModel::ValidateCandidate(
                    JsonModel::object().with("file"@, JsonModel::Str(file)).with(
                        "source"@,
                        JsonModel::Str(op.replacement.kotlin),
                    ),
                ),
            ),
        )
    }
}

fn tell_existence(st: PreviewState, op: &EditOperation, file: &str, exists_already: bool) -> (r: Result<
    (PreviewState, PreviewAction),
    ClewError,
>)
    ensures
        outcome(r) == existence_told(st.deep_view(), op.deep_view(), file@, exists_already),
{
    if exists_already || contains_key(&st.candidates, file) {
        return Err(
            ClewError::new(
                ErrorCode::PreconditionFailed,
                joined("CREATE_FILE target already exists: ", file).as_str(),
            ),
        );
    }
    if trim(op.replacement.kotlin.as_str()).as_str().unicode_len() == 0 {
        return Err(
            ClewError::new(
                ErrorCode::InvalidInput,
                "CREATE_FILE replacement must not be empty",
            ),
        );
    }
    Ok(
        (
            with_phase(st, PreviewPhase::Validation),
            PreviewAction::ValidateCandidate(
                Json::object().with("file", Json::Str(file.to_owned())).with(
                    "source",
                    Json::Str(op.replacement.kotlin.clone()),
                ),
            ),
        ),
    )
}

/// What a new file would change, from what was found of it.
pub open spec fn validation_told(
    st: PreviewStateModel,
    op: EditOperationModel,
    file: Seq<char>,
    validation: JsonModel,
) -> Result<PreviewStateModel, ErrorModel> {
    let source = op.replacement.kotlin;
    if validation.bool_at("valid"@) != Some(true) {
        failed(
            ErrorCode::ReplacementParseError,
            "CREATE_FILE Kotlin syntax is invalid: "@ + encoded(
                member_or_null(validation, "diagnostics"@),
            ),
        )
    } else {
        Ok(
            PreviewStateModel {
                candidates: replaced::<Candidate>(st.candidates, CandidateModel { file, source }),
                expected_writes: st.expected_writes.push(
                    ExpectedWriteFactModel { kind: "FILE"@, key: file },
                ),
                writes: st.writes.push(
                    WriteFactModel {
                        kind: "FILE"@,
                        key: file,
                        before_hash: digest_of(Seq::empty()),
                        after_hash: text_digest(source),
                    },
                ),
                ..st
            },
        )
    }
}

fn tell_validation(st: PreviewState, op: &EditOperation, file: &str, validation: &Json) -> (r: Result<
    PreviewState,
    ClewError,
>)
    ensures
        outcome(r) == validation_told(
            st.deep_view(),
            op.deep_view(),
            file@,
            validation.deep_view(),
        ),
{
    match validation.bool_at("valid") {
        Some(true) => {},
        _ => {
            let found = get_or_null(validation, "diagnostics").encode();
            return Err(
                ClewError::new(
                    ErrorCode::ReplacementParseError,
                    joined("CREATE_FILE Kotlin syntax is invalid: ", found.as_str()).as_str(),
                ),
            );
        },
    }
    let source = op.replacement.kotlin.as_str();
    let nothing: Vec<u8> = Vec::new();
    assert(nothing@ =~= Seq::empty());
    let mut told = st;
    set_candidate(&mut told, file, source);
    push_expected(&mut told, "FILE", file);
    push_write(&mut told, "FILE", file, hash_bytes(nothing.as_slice()), hash_text(source));
    Ok(told)
}

/// What is asked once it is known what the owner of a target is.
pub open spec fn signature_told(
    st: PreviewStateModel,
    op: EditOperationModel,
    file: Seq<char>,
    resolved: JsonModel,
) -> Result<Step, ErrorModel> {
    let declaration = member_or_null(resolved, "declaration"@);
    if declaration.str_at("signatureHash"@) != op.preconditions.str_at("ownerSignatureHash"@) {
        failed(ErrorCode::PreconditionFailed, "ownerSignatureHash precondition failed"@)
    } else {
        source_asked(st, file)
    }
}

fn same_texts(a: Option<&String>, b: Option<&String>) -> (r: bool)
    ensures
        r == (a.deep_view() == b.deep_view()),
{
    match (a, b) {
        (Some(a), Some(b)) => a.same_as(b),
        (None, None) => true,
        _ => false,
    }
}

fn tell_signature(st: PreviewState, op: &EditOperation, file: &str, resolved: &Json) -> (r: Result<
    (PreviewState, PreviewAction),
    ClewError,
>)
    ensures
        outcome(r) == signature_told(
            st.deep_view(),
            op.deep_view(),
            file@,
            resolved.deep_view(),
        ),
{
    let declaration = get_or_null(resolved, "declaration");
    if !same_texts(
        declaration.str_at("signatureHash"),
        op.preconditions.str_at("ownerSignatureHash"),
    ) {
        return Err(
            ClewError::new(
                ErrorCode::PreconditionFailed,
                "ownerSignatureHash precondition failed",
            ),
        );
    }
    ask_source(st, file)
}

/// A request to carry out an edit on a source.
#[verifier::opaque]
pub open spec fn edit_request(
    thread: ThreadIrModel,
    op: EditOperationModel,
    target: JsonModel,
    file: Seq<char>,
    current: Seq<char>,
    defer: bool,
) -> JsonModel {
    JsonModel::object().with("file"@, JsonModel::Str(file)).with(
        "source"@,
        JsonModel::Str(current),
    ).with("ownerSymbolId"@, member_or_null(target, "ownerSymbolId"@)).with(
        "exactTextHash"@,
        member_or_null(target, "exactTextHash"@),
    ).with("syntaxKind"@, member_or_null(target, "syntaxKind"@)).with(
        "normalizedTokenHash"@,
        member_or_null(target, "normalizedTokenHash"@),
    ).with("ancestorPathHash"@, member_or_null(target, "ancestorPathHash"@)).with(
        "localOrdinal"@,
        member_or_null(target, "localOrdinal"@),
    ).with("leftContextHash"@, member_or_null(target, "leftContextHash"@)).with(
        "rightContextHash"@,
        member_or_null(target, "rightContextHash"@),
    ).with("kind"@, JsonModel::Str(op.kind)).with(
        "replacement"@,
        JsonModel::Str(op.replacement.kotlin),
    ).with(
        "semanticOperation"@,
        <Option<SemanticOperation> as Record>::json(op.semantic_operation),
    ).with("compilation"@, JsonModel::Str(thread.snapshot.compilation)).with(
        "deferSemanticValidation"@,
        JsonModel::Bool(defer),
    ).with("preconditions"@, op.preconditions).with("postconditions"@, op.postconditions)
}

/// The source that an edit of a file starts from: what earlier operations made of it, or
/// what it is.
pub open spec fn current_source(
    candidates: Seq<CandidateModel>,
    file: Seq<char>,
    original: Seq<char>,
) -> Seq<char> {
    match record_at::<Candidate>(candidates, file) {
        Some(candidate) => candidate.source,
        None => original,
    }
}

fn request_of_edit(
    thread: &ThreadIr,
    op: &EditOperation,
    target: &Json,
    file: &str,
    current: &str,
    defer: bool,
) -> (r: Json)
    ensures
        r.deep_view() == edit_request(
            thread.deep_view(),
            op.deep_view(),
            target.deep_view(),
            file@,
            current@,
            defer,
        ),
{
    proof {
        reveal(edit_request);
    }
    Json::object().with("file", Json::Str(file.to_owned())).with(
        "source",
        Json::Str(current.to_owned()),
    ).with("ownerSymbolId", get_or_null(target, "ownerSymbolId")).with(
        "exactTextHash",
        get_or_null(target, "exactTextHash"),
    ).with("syntaxKind", get_or_null(target, "syntaxKind")).with(
        "normalizedTokenHash",
        get_or_null(target, "normalizedTokenHash"),
    ).with("ancestorPathHash", get_or_null(target, "ancestorPathHash")).with(
        "localOrdinal",
        get_or_null(target, "localOrdinal"),
    ).with("leftContextHash", get_or_null(target, "leftContextHash")).with(
        "rightContextHash",
        get_or_null(target, "rightContextHash"),
    ).with("kind", Json::Str(op.kind.clone())).with(
        "replacement",
        Json::Str(op.replacement.kotlin.clone()),
    ).with("semanticOperation", op.semantic_operation.to_json()).with(
        "compilation",
        Json::Str(thread.snapshot.compilation.clone()),
    ).with("deferSemanticValidation", Json::Bool(defer)).with(
        "preconditions",
        op.preconditions.copied(),
    ).with("postconditions", op.postconditions.copied())
}

/// What is asked once the source of a file is known.
pub open spec fn source_told(
    st: PreviewStateModel,
    thread: ThreadIrModel,
    edit: EditIrModel,
    op: EditOperationModel,
    file: Seq<char>,
    original: Seq<char>,
) -> Step {
    let current = current_source(st.candidates, file, original);
    (
        PreviewStateModel { phase: PreviewPhase::Response, current, ..st },
        PreviewActionModel::ApplyEdit(
            edit_request(
                thread,
                op,
                target_transported(op.target, owner_value(op.target)),
                file,
                current,
                any_deferring(edit.operations),
            ),
        ),
    )
}

fn tell_source(
    st: PreviewState,
    thread: &ThreadIr,
    edit: &EditIr,
    op: &EditOperation,
    file: &str,
    original: String,
) -> (r: (PreviewState, PreviewAction))
    ensures
        r.deep_view() == source_told(
            st.deep_view(),
            thread.deep_view(),
            edit.deep_view(),
            op.deep_view(),
            file@,
            original@,
        ),
{
    let current = match find_record(&st.candidates, file) {
        Some(candidate) => candidate.source.clone(),
        None => original,
    };
    let target = apply_edit_target_transport(&op.target);
    let request = request_of_edit(
        thread,
        op,
        &target,
        file,
        current.as_str(),
        defers(&edit.operations),
    );
    let mut told = st;
    told.phase = PreviewPhase::Response;
    told.current = current;
    (told, PreviewAction::ApplyEdit(request))
}

/// Whether a list of values has a text.
pub open spec fn has_text(items: Seq<JsonModel>, text: Seq<char>) -> bool {
    exists|i: int| 0 <= i < items.len() && (#[trigger] items[i]).as_str() == Some(text)
}

fn contains_text_item(items: &Vec<Json>, text: &str) -> (r: bool)
    ensures
        r == has_text(items.deep_view(), text@),
{
    let ghost m = items.deep_view();
    let mut i: usize = 0;
    while i < items.len()
        invariant
            i <= items.len(),
            m == items.deep_view(),
            forall|k: int| 0 <= k < i ==> (#[trigger] m[k]).as_str() != Some(text@),
        decreases items.len() - i,
    {
        assert(m[i as int] == items@[i as int].deep_view());
        if says(items[i].as_str(), text) {
            return true;
        }
        i = i + 1;
    }
    false
}

/// The first effect from one on that is forbidden.
pub open spec fn forbidden_effect(
    introduced: Seq<JsonModel>,
    forbidden: Seq<JsonModel>,
    i: int,
) -> Option<Seq<char>>
    decreases introduced.len() - i,
{
    if i < 0 || i >= introduced.len() {
        None
    } else {
        match introduced[i].as_str() {
            Some(effect) => if has_text(forbidden, effect) {
                Some(effect)
            } else {
                forbidden_effect(introduced, forbidden, i + 1)
            },
            None => forbidden_effect(introduced, forbidden, i + 1),
        }
    }
}

fn find_forbidden_effect(introduced: &Vec<Json>, forbidden: &Vec<Json>) -> (r: Option<String>)
    ensures
        r.deep_view() == forbidden_effect(introduced.deep_view(), forbidden.deep_view(), 0),
{
    let ghost m = introduced.deep_view();
    let ghost f = forbidden.deep_view();
    let mut i: usize = 0;
    while i < introduced.len()
        invariant
            i <= introduced.len(),
            m == introduced.deep_view(),
            f == forbidden.deep_view(),
            forbidden_effect(m, f, 0) == forbidden_effect(m, f, i as int),
        decreases introduced.len() - i,
    {
        assert(m[i as int] == introduced@[i as int].deep_view());
        match introduced[i].as_str() {
            Some(effect) => {
                if contains_text_item(forbidden, effect.as_str()) {
                    return Some(effect.clone());
                }
            },
            None => {},
        }
        i = i + 1;
    }
    None
}

/// A text without a prefix, however often it stands there.
pub open spec fn without_prefixes(s: Seq<char>, p: Seq<char>) -> Seq<char>
    decreases s.len(),
{
    if p.len() > 0 && has_prefix(s, p) {
        without_prefixes(after_prefix(s, p), p)
    } else {
        s
    }
}

fn strip_prefixes(s: String, p: &str) -> (r: String)
    ensures
        r@ == without_prefixes(s@, p@),
{
    let ghost whole = s@;
    let mut rest = s;
    if p.unicode_len() == 0 {
        return rest;
    }
    loop
        invariant
            p@.len() > 0,
            whole == s@,
            without_prefixes(whole, p@) == without_prefixes(rest@, p@),
        decreases rest@.len(),
    {
        match strip_prefix(rest.as_str(), p) {
            Some(shorter) => {
                rest = shorter;
            },
            None => {
                return rest;
            },
        }
    }
}

/// The key of an import.
pub open spec fn import_key(file: Seq<char>, kotlin: Seq<char>) -> Seq<char> {
    between(file, ":import:"@, without_prefixes(trimmed(kotlin), "import "@))
}

/// What an edit of an import would change.
pub open spec fn import_recorded(
    st: PreviewStateModel,
    op: EditOperationModel,
    file: Seq<char>,
    source: Seq<char>,
) -> PreviewStateModel {
    let key = import_key(file, op.replacement.kotlin);
    PreviewStateModel {
        expected_writes: st.expected_writes.push(
            ExpectedWriteFactModel { kind: "IMPORT"@, key },
        ),
        writes: st.writes.push(
            WriteFactModel {
                kind: "IMPORT"@,
                key,
                before_hash: text_digest(st.current),
                after_hash: text_digest(source),
            },
        ),
        ..st
    }
}

fn record_import(st: &mut PreviewState, op: &EditOperation, file: &str, source: &str)
    ensures
        final(st).deep_view() == import_recorded(
            old(st).deep_view(),
            op.deep_view(),
            file@,
            source@,
        ),
{
    let key = framed(
        file,
        ":import:",
        strip_prefixes(trim(op.replacement.kotlin.as_str()), "import ").as_str(),
    );
    let before_hash = hash_text(st.current.as_str());
    push_expected(st, "IMPORT", key.as_str());
    push_write(st, "IMPORT", key.as_str(), before_hash, hash_text(source));
}

/// What an edit of a declaration would change.
pub open spec fn declaration_recorded(
    st: PreviewStateModel,
    op: EditOperationModel,
    file: Seq<char>,
) -> Result<PreviewStateModel, ErrorModel> {
    match op.target.str_at("ownerSymbolId"@) {
        None => failed(
            ErrorCode::InvalidInput,
            "declaration edit target has no ownerSymbolId"@,
        ),
        Some(owner) => {
            let key = between(file, ":"@, owner);
            Ok(
                PreviewStateModel {
                    expected_writes: st.expected_writes.push(
                        ExpectedWriteFactModel { kind: "DECLARATION"@, key },
                    ).push(ExpectedWriteFactModel { kind: "SUMMARY"@, key: owner }),
                    writes: st.writes.push(
                        WriteFactModel {
                            kind: "DECLARATION"@,
                            key,
                            before_hash: str_or(op.target, "exactTextHash"@, Seq::empty()),
                            after_hash: text_digest(op.replacement.kotlin),
                        },
                    ),
                    ..st
                },
            )
        },
    }
}

fn record_declaration(st: &mut PreviewState, op: &EditOperation, file: &str) -> (r: Result<
    (),
    ClewError,
>)
    ensures
        match declaration_recorded(old(st).deep_view(), op.deep_view(), file@) {
            Ok(after) => r is Ok && final(st).deep_view() == after,
            Err(e) => r is Err && r->Err_0.deep_view() == e,
        },
{
    let owner = match op.target.str_at("ownerSymbolId") {
        Some(owner) => owner,
        None => {
            return Err(
                ClewError::new(
                    ErrorCode::InvalidInput,
                    "declaration edit target has no ownerSymbolId",
                ),
            );
        },
    };
    proof {
        reveal_strlit("");
        assert(""@ =~= Seq::empty());
    }
    let key = framed(file, ":", owner.as_str());
    push_expected(st, "DECLARATION", key.as_str());
    push_expected(st, "SUMMARY", owner.as_str());
    push_write(
        st,
        "DECLARATION",
        key.as_str(),
        text_or(&op.target, "exactTextHash", ""),
        hash_text(op.replacement.kotlin.as_str()),
    );
    Ok(())
}

/// The owner of a target, or its file.
pub open spec fn owner_of(op: EditOperationModel, file: Seq<char>) -> Seq<char> {
    str_or(op.target, "ownerSymbolId"@, file)
}

/// What an edit of a body may change, and what it is known to change.
pub open spec fn body_recorded(
    st: PreviewStateModel,
    op: EditOperationModel,
    file: Seq<char>,
) -> PreviewStateModel {
    let owner = owner_of(op, file);
    if is_semantic(op) {
        PreviewStateModel {
            expected_writes: st.expected_writes.push(
                ExpectedWriteFactModel { kind: "BODY"@, key: owner },
            ).push(ExpectedWriteFactModel { kind: "SUMMARY"@, key: owner }),
            ..st
        }
    } else {
        let anchor = str_or(op.target, "anchorId"@, owner);
        let expected = st.expected_writes.push(
            ExpectedWriteFactModel { kind: "TARGET_ANCHOR"@, key: anchor },
        ).push(ExpectedWriteFactModel { kind: "BODY"@, key: owner }).push(
            ExpectedWriteFactModel { kind: "SUMMARY"@, key: owner },
        );
        PreviewStateModel {
            expected_writes: if op.postconditions.get("allowedEffectChanges"@) is Some {
                expected.push(ExpectedWriteFactModel { kind: "EFFECTS"@, key: owner })
            } else {
                expected
            },
            writes: st.writes.push(
                WriteFactModel {
                    kind: "TARGET_ANCHOR"@,
                    key: anchor,
                    before_hash: str_or(op.target, "exactTextHash"@, Seq::empty()),
                    after_hash: text_digest(op.replacement.kotlin),
                },
            ),
            ..st
        }
    }
}

fn record_body(st: &mut PreviewState, op: &EditOperation, file: &str)
    ensures
        final(st).deep_view() == body_recorded(old(st).deep_view(), op.deep_view(), file@),
{
    let owner = text_or(&op.target, "ownerSymbolId", file);
    if same_text(op.kind.as_str(), "MAP_EDGE_WITH_CONTEXT") {
        push_expected(st, "BODY", owner.as_str());
        push_expected(st, "SUMMARY", owner.as_str());
        return;
    }
    proof {
        reveal_strlit("");
        assert(""@ =~= Seq::empty());
    }
    let anchor = text_or(&op.target, "anchorId", owner.as_str());
    push_expected(st, "TARGET_ANCHOR", anchor.as_str());
    push_expected(st, "BODY", owner.as_str());
    push_expected(st, "SUMMARY", owner.as_str());
    if op.postconditions.get("allowedEffectChanges").is_some() {
        push_expected(st, "EFFECTS", owner.as_str());
    }
    push_write(
        st,
        "TARGET_ANCHOR",
        anchor.as_str(),
        text_or(&op.target, "exactTextHash", ""),
        hash_text(op.replacement.kotlin.as_str()),
    );
}

/// What one part of the meaning of a declaration would change. Its signature and its
/// binary interface may not.
pub open spec fn delta_recorded(
    writes: Seq<WriteFactModel>,
    delta: JsonModel,
    owner: Seq<char>,
    field: Seq<char>,
    kind: Seq<char>,
    is_protected: bool,
) -> Result<Seq<WriteFactModel>, ErrorModel> {
    match delta.get(field) {
        None => Ok(writes),
        Some(change) => {
            let before = str_or(change, "beforeHash"@, Seq::empty());
            let after = str_or(change, "afterHash"@, Seq::empty());
            if before == after {
                Ok(writes)
            } else if is_protected {
                failed(
                    ErrorCode::AbiChanged,
                    between("edit changes protected "@, kind, " for "@) + owner,
                )
            } else {
                Ok(
                    writes.push(
                        WriteFactModel {
                            kind,
                            key: str_or(change, "key"@, owner),
                            before_hash: before,
                            after_hash: after,
                        },
                    ),
                )
            }
        },
    }
}

/// What the parts of the meaning of a declaration would change.
pub open spec fn deltas_recorded(
    writes: Seq<WriteFactModel>,
    delta: JsonModel,
    owner: Seq<char>,
) -> Result<Seq<WriteFactModel>, ErrorModel> {
    match delta_recorded(writes, delta, owner, "body"@, "BODY"@, false) {
        Err(e) => Err(e),
        Ok(w) => match delta_recorded(w, delta, owner, "signature"@, "SIGNATURE"@, true) {
            Err(e) => Err(e),
            Ok(w) => match delta_recorded(w, delta, owner, "abi"@, "ABI"@, true) {
                Err(e) => Err(e),
                Ok(w) => match delta_recorded(w, delta, owner, "summary"@, "SUMMARY"@, false) {
                    Err(e) => Err(e),
                    Ok(w) => delta_recorded(w, delta, owner, "effects"@, "EFFECTS"@, false),
                },
            },
        },
    }
}

fn record_delta(
    st: &mut PreviewState,
    delta: &Json,
    owner: &str,
    field: &str,
    kind: &str,
    is_protected: bool,
) -> (r: Result<(), ClewError>)
    ensures
        match delta_recorded(
            old(st).deep_view().writes,
            delta.deep_view(),
            owner@,
            field@,
            kind@,
            is_protected,
        ) {
            Ok(writes) => r is Ok && final(st).deep_view() == (PreviewStateModel {
                writes,
                ..old(st).deep_view()
            }),
            Err(e) => r is Err && r->Err_0.deep_view() == e,
        },
{
    let change = match delta.get(field) {
        Some(change) => change,
        None => {
            return Ok(());
        },
    };
    proof {
        reveal_strlit("");
        assert(""@ =~= Seq::empty());
    }
    let before = text_or(change, "beforeHash", "");
    let after = text_or(change, "afterHash", "");
    if before.same_as(&after) {
        return Ok(());
    }
    if is_protected {
        let message = joined(framed("edit changes protected ", kind, " for ").as_str(), owner);
        return Err(ClewError::new(ErrorCode::AbiChanged, message.as_str()));
    }
    let key = text_or(change, "key", owner);
    push_write(st, kind, key.as_str(), before, after);
    Ok(())
}

fn record_deltas(st: &mut PreviewState, delta: &Json, owner: &str) -> (r: Result<(), ClewError>)
    ensures
        match deltas_recorded(old(st).deep_view().writes, delta.deep_view(), owner@) {
            Ok(writes) => r is Ok && final(st).deep_view() == (PreviewStateModel {
                writes,
                ..old(st).deep_view()
            }),
            Err(e) => r is Err && r->Err_0.deep_view() == e,
        },
{
    record_delta(st, delta, owner, "body", "BODY", false)?;
    record_delta(st, delta, owner, "signature", "SIGNATURE", true)?;
    record_delta(st, delta, owner, "abi", "ABI", true)?;
    record_delta(st, delta, owner, "summary", "SUMMARY", false)?;
    record_delta(st, delta, owner, "effects", "EFFECTS", false)
}

/// What an edit would change, by its kind.
pub open spec fn edit_recorded(
    st: PreviewStateModel,
    op: EditOperationModel,
    file: Seq<char>,
    source: Seq<char>,
    response: JsonModel,
) -> Result<PreviewStateModel, ErrorModel> {
    if op.kind == "ADD_IMPORT"@ || op.kind == "REMOVE_IMPORT"@ {
        Ok(import_recorded(st, op, file, source))
    } else if op.kind == "REPLACE_DECLARATION"@ || op.kind == "REWRITE_DECLARATION"@ {
        declaration_recorded(st, op, file)
    } else {
        let body = body_recorded(st, op, file);
        match response.get("semanticDelta"@) {
            Some(JsonModel::Obj(m)) => match deltas_recorded(
                body.writes,
                JsonModel::Obj(m),
                owner_of(op, file),
            ) {
                Err(e) => Err(e),
                Ok(writes) => Ok(PreviewStateModel { writes, ..body }),
            },
            _ => Ok(body),
        }
    }
}

fn record_edit(
    st: &mut PreviewState,
    op: &EditOperation,
    file: &str,
    source: &str,
    response: &Json,
) -> (r: Result<(), ClewError>)
    ensures
        match edit_recorded(
            old(st).deep_view(),
            op.deep_view(),
            file@,
            source@,
            response.deep_view(),
        ) {
            Ok(after) => r is Ok && final(st).deep_view() == after,
            Err(e) => r is Err && r->Err_0.deep_view() == e,
        },
{
    let kind = op.kind.as_str();
    if same_text(kind, "ADD_IMPORT") || same_text(kind, "REMOVE_IMPORT") {
        record_import(st, op, file, source);
        return Ok(());
    }
    if same_text(kind, "REPLACE_DECLARATION") || same_text(kind, "REWRITE_DECLARATION") {
        return record_declaration(st, op, file);
    }
    record_body(st, op, file);
    match response.get("semanticDelta") {
        Some(delta) => match delta {
            Json::Obj(_) => {
                let owner = text_or(&op.target, "ownerSymbolId", file);
                record_deltas(st, delta, owner.as_str())
            },
            _ => Ok(()),
        },
        None => Ok(()),
    }
}

/// The place of an edit, as it is shown.
pub open spec fn edit_window(op: EditOperationModel, file: Seq<char>) -> JsonModel {
    JsonModel::object().with("file"@, JsonModel::Str(file)).with(
        "range"@,
        match op.target.get("rangeHint"@) {
            Some(range) => range,
            None => JsonModel::Arr(Seq::empty()),
        },
    )
}

fn window_of_edit(op: &EditOperation, file: &str) -> (r: Json)
    ensures
        r.deep_view() == edit_window(op.deep_view(), file@),
{
    let range = match op.target.get("rangeHint") {
        Some(range) => range.copied(),
        None => {
            let nothing: Vec<Json> = Vec::new();
            assert(nothing.deep_view() =~= Seq::empty());
            list(nothing)
        },
    };
    Json::object().with("file", Json::Str(file.to_owned())).with("range", range)
}

/// What an edit would change, from what became of it.
pub open spec fn response_told(
    st: PreviewStateModel,
    op: EditOperationModel,
    file: Seq<char>,
    response: JsonModel,
) -> Result<PreviewStateModel, ErrorModel> {
    let proved = if is_semantic(op) {
        map_edge_checked(op, response)
    } else {
        Ok(())
    };
    match proved {
        Err(e) => Err(e),
        Ok(_) => match response.str_at("source"@) {
            None => failed(
                ErrorCode::WorkerProtocolMismatch,
                "candidate response has no source"@,
            ),
            Some(source) => match forbidden_effect(
                items_or_none(response, "introducedEffects"@),
                items_or_none(op.postconditions, "mustNotIntroduceEffects"@),
                0,
            ) {
                Some(effect) => failed(
                    ErrorCode::EffectChanged,
                    "replacement introduces forbidden effect "@ + effect,
                ),
                None => edit_recorded(
                    PreviewStateModel {
                        diagnostics: st.diagnostics + items_or_none(response, "diagnostics"@),
                        windows: st.windows.push(edit_window(op, file)),
                        candidates: replaced::<Candidate>(
                            st.candidates,
                            CandidateModel { file, source },
                        ),
                        ..st
                    },
                    op,
                    file,
                    source,
                    response,
                ),
            },
        },
    }
}

fn tell_response(st: PreviewState, op: &EditOperation, file: &str, response: &Json) -> (r: Result<
    PreviewState,
    ClewError,
>)
    ensures
        outcome(r) == response_told(
            st.deep_view(),
            op.deep_view(),
            file@,
            response.deep_view(),
        ),
{
    if same_text(op.kind.as_str(), "MAP_EDGE_WITH_CONTEXT") {
        validate_map_edge_operation_response(op, response)?;
    }
    let source = match response.str_at("source") {
        Some(source) => source,
        None => {
            return Err(
                ClewError::new(
                    ErrorCode::WorkerProtocolMismatch,
                    "candidate response has no source",
                ),
            );
        },
    };
    match find_forbidden_effect(
        &items_of(response, "introducedEffects"),
        &items_of(&op.postconditions, "mustNotIntroduceEffects"),
    ) {
        Some(effect) => {
            return Err(
                ClewError::new(
                    ErrorCode::EffectChanged,
                    joined(
                        "replacement introduces forbidden effect ",
                        effect.as_str(),
                    ).as_str(),
                ),
            );
        },
        None => {},
    }
    let mut told = st;
    let ghost start = told.deep_view();
    let mut more = items_of(response, "diagnostics");
    let ghost found = more.deep_view();
    told.diagnostics.append(&mut more);
    assert(told.diagnostics.deep_view() =~= start.diagnostics + found);
    push_window(&mut told, window_of_edit(op, file));
    set_candidate(&mut told, file, source.as_str());
    record_edit(&mut told, op, file, source.as_str(), response)?;
    Ok(told)
}

/// The text at a place, or none.
pub open spec fn original_at(originals: Seq<Option<Seq<char>>>, i: int) -> Option<Seq<char>> {
    if 0 <= i < originals.len() {
        originals[i]
    } else {
        None
    }
}

/// The candidates from one on that differ from the files as they are, behind some.
pub open spec fn changed_from(
    candidates: Seq<CandidateModel>,
    originals: Seq<Option<Seq<char>>>,
    before: Seq<CandidateModel>,
    i: int,
) -> Seq<CandidateModel>
    decreases candidates.len() - i,
{
    if i < 0 || i >= candidates.len() {
        before
    } else if original_at(originals, i) == Some(candidates[i].source) {
        changed_from(candidates, originals, before, i + 1)
    } else {
        changed_from(candidates, originals, before.push(candidates[i]), i + 1)
    }
}

/// The lines by which the candidates from one on differ from the files as they are,
/// behind some.
pub open spec fn diffs_from(
    candidates: Seq<CandidateModel>,
    originals: Seq<Option<Seq<char>>>,
    before: Seq<char>,
    i: int,
) -> Seq<char>
    decreases candidates.len() - i,
{
    if i < 0 || i >= candidates.len() {
        before
    } else if original_at(originals, i) == Some(candidates[i].source) {
        diffs_from(candidates, originals, before, i + 1)
    } else {
        let original = match original_at(originals, i) {
            Some(text) => text,
            None => Seq::empty(),
        };
        diffs_from(
            candidates,
            originals,
            before + diff_of(candidates[i].file, original, candidates[i].source),
            i + 1,
        )
    }
}

fn keep_changed(candidates: &Vec<Candidate>, originals: &Vec<Option<String>>) -> (r: (
    Vec<Candidate>,
    String,
))
    ensures
        r.0.deep_view() == changed_from(
            candidates.deep_view(),
            originals.deep_view(),
            Seq::empty(),
            0,
        ),
        r.1@ == diffs_from(candidates.deep_view(), originals.deep_view(), Seq::empty(), 0),
{
    let ghost m = candidates.deep_view();
    let ghost o = originals.deep_view();
    let mut changed: Vec<Candidate> = Vec::new();
    let mut diff = String::new();
    let mut i: usize = 0;
    assert(changed.deep_view() =~= Seq::empty());
    assert(diff@ =~= Seq::empty());
    while i < candidates.len()
        invariant
            i <= candidates.len(),
            m == candidates.deep_view(),
            o == originals.deep_view(),
            changed_from(m, o, Seq::empty(), 0) == changed_from(
                m,
                o,
                changed.deep_view(),
                i as int,
            ),
            diffs_from(m, o, Seq::empty(), 0) == diffs_from(m, o, diff@, i as int),
        decreases candidates.len() - i,
    {
        assert(m[i as int] == candidates@[i as int].deep_view());
        let mut original = String::new();
        let mut same = false;
        assert(original@ =~= Seq::empty());
        if i < originals.len() {
            assert(o[i as int] == originals@[i as int].deep_view());
            match &originals[i] {
                Some(text) => {
                    same = text.same_as(&candidates[i].source);
                    original = text.clone();
                },
                None => {},
            }
        }
        if !same {
            let ghost before = changed.deep_view();
            changed.push(candidates[i].copied());
            assert(changed.deep_view() =~= before.push(m[i as int]));
            let lines = unified_diff(
                candidates[i].file.as_str(),
                original.as_str(),
                candidates[i].source.as_str(),
            );
            diff.append(lines.as_str());
        }
        i = i + 1;
    }
    (changed, diff)
}

/// The writes that change something.
pub open spec fn real_writes(writes: Seq<WriteFactModel>) -> Seq<WriteFactModel> {
    writes.filter(|w: WriteFactModel| w.before_hash != w.after_hash)
}

fn keep_real_writes(writes: &Vec<WriteFact>) -> (r: Vec<WriteFact>)
    ensures
        r.deep_view() == real_writes(writes.deep_view()),
{
    let ghost m = writes.deep_view();
    let ghost wanted = |w: WriteFactModel| w.before_hash != w.after_hash;
    let mut r: Vec<WriteFact> = Vec::new();
    let mut i: usize = 0;
    proof {
        reveal(Seq::filter);
    }
    assert(r.deep_view() =~= m.take(0).filter(wanted));
    while i < writes.len()
        invariant
            i <= writes.len(),
            m == writes.deep_view(),
            wanted == (|w: WriteFactModel| w.before_hash != w.after_hash),
            r.deep_view() == m.take(i as int).filter(wanted),
        decreases writes.len() - i,
    {
        assert(m[i as int] == writes@[i as int].deep_view());
        assert(m.take(i as int + 1).drop_last() =~= m.take(i as int));
        proof {
            reveal(Seq::filter);
        }
        if !writes[i].before_hash.same_as(&writes[i].after_hash) {
            let ghost before = r.deep_view();
            r.push(writes[i].copied());
            assert(r.deep_view() =~= before.push(m[i as int]));
        }
        i = i + 1;
    }
    assert(m.take(m.len() as int) =~= m);
    r
}

/// What an edit may change: what it says itself, or what its operations have.
pub open spec fn write_scope(
    edit: EditIrModel,
    expected: Seq<ExpectedWriteFactModel>,
) -> Seq<ExpectedWriteFactModel> {
    order::first_table::<ExpectedWriteFact>(
        if edit.expected_write_set.len() > 0 {
            edit.expected_write_set
        } else {
            expected
        },
    )
}

/// Whether a write is one of those that are expected.
pub open spec fn is_expected(scope: Seq<ExpectedWriteFactModel>, w: WriteFactModel) -> bool {
    scope.contains(ExpectedWriteFactModel { kind: w.kind, key: w.key })
}

/// The outcome for the writes from one on: each is expected.
pub open spec fn scope_checked(
    scope: Seq<ExpectedWriteFactModel>,
    writes: Seq<WriteFactModel>,
    i: int,
) -> Result<(), ErrorModel>
    decreases writes.len() - i,
{
    if i < 0 || i >= writes.len() {
        Ok(())
    } else if !is_expected(scope, writes[i]) {
        failed(
            ErrorCode::WritesetExceeded,
            between("actual write "@, writes[i].kind, ":"@) + writes[i].key
                + " is outside ExpectedWriteSet"@,
        )
    } else {
        scope_checked(scope, writes, i + 1)
    }
}

fn expects(scope: &Vec<ExpectedWriteFact>, w: &WriteFact) -> (r: bool)
    ensures
        r == is_expected(scope.deep_view(), w.deep_view()),
{
    let ghost m = scope.deep_view();
    let ghost wanted = ExpectedWriteFactModel { kind: w.kind@, key: w.key@ };
    let mut i: usize = 0;
    while i < scope.len()
        invariant
            i <= scope.len(),
            m == scope.deep_view(),
            wanted == (ExpectedWriteFactModel { kind: w.kind@, key: w.key@ }),
            forall|k: int| 0 <= k < i ==> #[trigger] m[k] != wanted,
        decreases scope.len() - i,
    {
        assert(m[i as int] == scope@[i as int].deep_view());
        if scope[i].kind.same_as(&w.kind) && scope[i].key.same_as(&w.key) {
            assert(m[i as int] == wanted);
            return true;
        }
        i = i + 1;
    }
    false
}

fn check_scope(scope: &Vec<ExpectedWriteFact>, writes: &Vec<WriteFact>) -> (r: Result<
    (),
    ClewError,
>)
    ensures
        outcome(r) == scope_checked(scope.deep_view(), writes.deep_view(), 0),
{
    let ghost s = scope.deep_view();
    let ghost m = writes.deep_view();
    let mut i: usize = 0;
    while i < writes.len()
        invariant
            i <= writes.len(),
            s == scope.deep_view(),
            m == writes.deep_view(),
            scope_checked(s, m, 0) == scope_checked(s, m, i as int),
        decreases writes.len() - i,
    {
        assert(m[i as int] == writes@[i as int].deep_view());
        if !expects(scope, &writes[i]) {
            let message = framed(
                framed("actual write ", writes[i].kind.as_str(), ":").as_str(),
                writes[i].key.as_str(),
                " is outside ExpectedWriteSet",
            );
            return Err(ClewError::new(ErrorCode::WritesetExceeded, message.as_str()));
        }
        i = i + 1;
    }
    Ok(())
}

/// The sources of the first `n` candidates under their paths.
pub open spec fn sources_said(candidates: Seq<CandidateModel>, n: nat) -> JsonModel
    decreases n,
{
    if n == 0 || n > candidates.len() {
        JsonModel::object()
    } else {
        sources_said(candidates, (n - 1) as nat).with(
            candidates[n - 1].file,
            JsonModel::Str(candidates[n - 1].source),
        )
    }
}

fn say_sources(candidates: &Vec<Candidate>) -> (r: Json)
    ensures
        r.deep_view() == sources_said(candidates.deep_view(), candidates@.len()),
{
    let ghost m = candidates.deep_view();
    let mut r = Json::object();
    let mut i: usize = 0;
    while i < candidates.len()
        invariant
            i <= candidates.len(),
            m == candidates.deep_view(),
            r.deep_view() == sources_said(m, i as nat),
        decreases candidates.len() - i,
    {
        assert(m[i as int] == candidates@[i as int].deep_view());
        r = r.with(candidates[i].file.as_str(), Json::Str(candidates[i].source.clone()));
        i = i + 1;
    }
    r
}

/// The report of a preview.
pub open spec fn preview_reported(
    st: PreviewStateModel,
    edit: EditIrModel,
    originals: Seq<Option<Seq<char>>>,
) -> Result<PreviewReportModel, ErrorModel> {
    let changed = changed_from(st.candidates, originals, Seq::empty(), 0);
    let writes = real_writes(st.writes);
    let scope = write_scope(edit, st.expected_writes);
    match scope_checked(scope, writes, 0) {
        Err(e) => Err(e),
        Ok(_) => Ok(
            PreviewReportModel {
                schema: "semantic-preview/0.1"@,
                transaction_id: st.transaction_id,
                base_revision: st.head,
                valid: true,
                changed_files: candidate_files(changed),
                diff: diffs_from(st.candidates, originals, Seq::empty(), 0),
                candidates: sources_said(changed, changed.len()),
                actual_write_set: order::sorted::<WriteFact>(writes),
                expected_write_set: scope,
                diagnostics: st.diagnostics,
                formatting_windows: order::sorted::<Json>(st.windows),
            },
        ),
    }
}

fn report_preview(st: &PreviewState, edit: &EditIr, originals: &Vec<Option<String>>) -> (r: Result<
    PreviewReport,
    ClewError,
>)
    ensures
        outcome(r) == preview_reported(
            st.deep_view(),
            edit.deep_view(),
            originals.deep_view(),
        ),
{
    let (changed, diff) = keep_changed(&st.candidates, originals);
    let writes = keep_real_writes(&st.writes);
    let scope = if edit.expected_write_set.len() > 0 {
        order::table_of(&edit.expected_write_set)
    } else {
        order::table_of(&st.expected_writes)
    };
    check_scope(&scope, &writes)?;
    Ok(
        PreviewReport {
            schema: "semantic-preview/0.1".to_owned(),
            transaction_id: st.transaction_id.clone(),
            base_revision: st.head.clone(),
            valid: true,
            changed_files: files_of(&changed),
            diff,
            candidates: say_sources(&changed),
            actual_write_set: order::sort(&writes),
            expected_write_set: scope,
            diagnostics: st.diagnostics.copied(),
            formatting_windows: order::sort(&st.windows),
        },
    )
}

/// The refusal of something that was not asked for.
pub open spec fn unasked<T>() -> Result<T, ErrorModel> {
    failed(ErrorCode::Internal, "preview was told what it did not ask for"@)
}

fn not_asked() -> (r: ClewError)
    ensures
        r.deep_view() == failure(
            ErrorCode::Internal,
            "preview was told what it did not ask for"@,
        ),
{
    ClewError::new(ErrorCode::Internal, "preview was told what it did not ask for")
}

/// A step of a preview that is at an operation.
pub open spec fn operation_stepped(
    st: PreviewStateModel,
    thread: ThreadIrModel,
    edit: EditIrModel,
    allowed: bool,
    event: PreviewEventModel,
) -> Result<Step, ErrorModel> {
    let op = edit.operations[st.next as int];
    match operation_checked(op, allowed) {
        Err(e) => Err(e),
        Ok(file) => match (st.phase, event) {
            (PreviewPhase::Project, PreviewEventModel::Project(project)) => model_input_asked(
                PreviewStateModel { project: Some(project), ..st },
                op,
                file,
            ),
            (
                PreviewPhase::ModelInput,
                PreviewEventModel::ModelInput { listed, listing, kinds },
            ) => model_input_told(st, thread, op, file, listed, listing, kinds),
            (PreviewPhase::ModelBytes, PreviewEventModel::ModelBytes(bytes)) => {
                match model_bytes_told(st, op, file, bytes) {
                    Err(e) => Err(e),
                    Ok(told) => operation_done(told, thread, edit, allowed),
                }
            },
            (PreviewPhase::Existence, PreviewEventModel::Existence(there)) => existence_told(
                st,
                op,
                file,
                there,
            ),
            (PreviewPhase::Validation, PreviewEventModel::Validation(validation)) => {
                match validation_told(st, op, file, validation) {
                    Err(e) => Err(e),
                    Ok(told) => operation_done(told, thread, edit, allowed),
                }
            },
            (PreviewPhase::Signature, PreviewEventModel::Resolved(resolved)) => signature_told(
                st,
                op,
                file,
                resolved,
            ),
            (PreviewPhase::Source, PreviewEventModel::Source(original)) => Ok(
                source_told(st, thread, edit, op, file, original),
            ),
            (PreviewPhase::Response, PreviewEventModel::Response(response)) => {
                match response_told(st, op, file, response) {
                    Err(e) => Err(e),
                    Ok(told) => operation_done(told, thread, edit, allowed),
                }
            },
            _ => unasked(),
        },
    }
}

/// A step of a preview: what it has come to, once it is told what it asked for.
pub open spec fn preview_stepped(
    st: PreviewStateModel,
    thread: ThreadIrModel,
    edit: EditIrModel,
    allowed: bool,
    event: PreviewEventModel,
) -> Result<Step, ErrorModel> {
    match (st.phase, event) {
        (PreviewPhase::Head, PreviewEventModel::Head { head, transaction_id }) => head_told(
            st,
            thread,
            edit,
            allowed,
            head,
            transaction_id,
        ),
        (PreviewPhase::Originals, PreviewEventModel::Originals(originals)) => {
            match preview_reported(st, edit, originals) {
                Err(e) => Err(e),
                Ok(report) => Ok((st, PreviewActionModel::Finish(report))),
            }
        },
        _ => if st.next < edit.operations.len() {
            operation_stepped(st, thread, edit, allowed, event)
        } else {
            unasked()
        },
    }
}

fn step_operation(
    st: PreviewState,
    thread: &ThreadIr,
    edit: &EditIr,
    allowed: bool,
    event: PreviewEvent,
) -> (r: Result<(PreviewState, PreviewAction), ClewError>)
    requires
        st.next < edit.operations@.len(),
    ensures
        outcome(r) == operation_stepped(
            st.deep_view(),
            thread.deep_view(),
            edit.deep_view(),
            allowed,
            event.deep_view(),
        ),
{
    let next: usize = st.next;
    let op = &edit.operations[next];
    assert(edit.deep_view().operations[next as int] == op.deep_view());
    let file = check_operation(op, allowed)?;
    match (st.phase, event) {
        (PreviewPhase::Project, PreviewEvent::Project(project)) => {
            let mut told = st;
            told.project = Some(project);
            ask_model_input(told, op, file.as_str())
        },
        (PreviewPhase::ModelInput, PreviewEvent::ModelInput { listed, listing, kinds }) => {
            tell_model_input(st, thread, op, file.as_str(), listed, &listing, &kinds)
        },
        (PreviewPhase::ModelBytes, PreviewEvent::ModelBytes(bytes)) => {
            let told = tell_model_bytes(st, op, file.as_str(), &bytes)?;
            finish_operation(told, thread, edit, allowed)
        },
        (PreviewPhase::Existence, PreviewEvent::Existence(there)) => {
            tell_existence(st, op, file.as_str(), there)
        },
        (PreviewPhase::Validation, PreviewEvent::Validation(validation)) => {
            let told = tell_validation(st, op, file.as_str(), &validation)?;
            finish_operation(told, thread, edit, allowed)
        },
        (PreviewPhase::Signature, PreviewEvent::Resolved(resolved)) => {
            tell_signature(st, op, file.as_str(), &resolved)
        },
        (PreviewPhase::Source, PreviewEvent::Source(original)) => {
            Ok(tell_source(st, thread, edit, op, file.as_str(), original))
        },
        (PreviewPhase::Response, PreviewEvent::Response(response)) => {
            let told = tell_response(st, op, file.as_str(), &response)?;
            finish_operation(told, thread, edit, allowed)
        },
        _ => Err(not_asked()),
    }
}

/// Takes a preview one step further: it is told what it asked for, and says what it asks
/// for next, or what the edit would change.
pub fn preview(
    st: PreviewState,
    thread: &ThreadIr,
    edit: &EditIr,
    allowed: bool,
    event: PreviewEvent,
) -> (r: Result<(PreviewState, PreviewAction), ClewError>)
    ensures
        outcome(r) == preview_stepped(
            st.deep_view(),
            thread.deep_view(),
            edit.deep_view(),
            allowed,
            event.deep_view(),
        ),
{
    match (st.phase, event) {
        (PreviewPhase::Head, PreviewEvent::Head { head, transaction_id }) => {
            tell_head(st, thread, edit, allowed, head, transaction_id)
        },
        (PreviewPhase::Originals, PreviewEvent::Originals(originals)) => {
            let report = report_preview(&st, edit, &originals)?;
            Ok((st, PreviewAction::Finish(report)))
        },
        (_, event) => if st.next < edit.operations.len() {
            step_operation(st, thread, edit, allowed, event)
        } else {
            Err(not_asked())
        },
    }
}

/// Whether a preview has come past operations that may be carried out only, and asks
/// for the files as they are only behind the last one.
pub open spec fn is_sound(st: PreviewStateModel, edit: EditIrModel, allowed: bool) -> bool {
    &&& forall|i: int|
        0 <= i < st.next && i < edit.operations.len() ==> operation_checked(
            #[trigger] edit.operations[i],
            allowed,
        ) is Ok
    &&& st.phase == PreviewPhase::Originals ==> st.next >= edit.operations.len()
}

proof fn asking_is_sound(
    st: PreviewStateModel,
    thread: ThreadIrModel,
    edit: EditIrModel,
    allowed: bool,
)
    requires
        forall|i: int|
            0 <= i < st.next && i < edit.operations.len() ==> operation_checked(
                #[trigger] edit.operations[i],
                allowed,
            ) is Ok,
    ensures
        match preview_asked(st, thread, edit, allowed) {
            Ok((next, action)) => is_sound(next, edit, allowed) && !(action is Finish),
            Err(_) => true,
        },
{
}

/// A preview starts soundly, stays sound at every step, and ends only where every
/// operation of the edit may be carried out: so an operation that is said by what it
/// does is never previewed without the authority for it.
pub proof fn previews_stay_sound(
    st: PreviewStateModel,
    thread: ThreadIrModel,
    edit: EditIrModel,
    allowed: bool,
    event: PreviewEventModel,
)
    requires
        is_sound(st, edit, allowed),
        edit.operations.len() < usize::MAX,
    ensures
        is_sound(preview_started(), edit, allowed),
        match preview_stepped(st, thread, edit, allowed, event) {
            Ok((next, action)) => is_sound(next, edit, allowed) && (action is Finish
                ==> forall|i: int|
                0 <= i < edit.operations.len() ==> operation_checked(
                    #[trigger] edit.operations[i],
                    allowed,
                ) is Ok && (is_semantic(edit.operations[i]) ==> allowed)),
            Err(_) => true,
        },
{
    match (st.phase, event) {
        (PreviewPhase::Head, PreviewEventModel::Head { head, transaction_id }) => {
            asking_is_sound(
                PreviewStateModel { head, transaction_id, next: 0, ..st },
                thread,
                edit,
                allowed,
            );
        },
        (PreviewPhase::Originals, PreviewEventModel::Originals(originals)) => {},
        _ => {
            if st.next < edit.operations.len() {
                step_is_sound(st, thread, edit, allowed, event);
            }
        },
    }
}

proof fn step_is_sound(
    st: PreviewStateModel,
    thread: ThreadIrModel,
    edit: EditIrModel,
    allowed: bool,
    event: PreviewEventModel,
)
    requires
        is_sound(st, edit, allowed),
        st.next < edit.operations.len() < usize::MAX,
    ensures
        match operation_stepped(st, thread, edit, allowed, event) {
            Ok((next, action)) => is_sound(next, edit, allowed) && !(action is Finish),
            Err(_) => true,
        },
{
    let op = edit.operations[st.next as int];
    if let Ok(file) = operation_checked(op, allowed) {
        match (st.phase, event) {
            (PreviewPhase::ModelBytes, PreviewEventModel::ModelBytes(bytes)) => {
                if let Ok(told) = model_bytes_told(st, op, file, bytes) {
                    asking_is_sound(
                        PreviewStateModel { next: (told.next + 1) as usize, ..told },
                        thread,
                        edit,
                        allowed,
                    );
                }
            },
            (PreviewPhase::Validation, PreviewEventModel::Validation(validation)) => {
                if let Ok(told) = validation_told(st, op, file, validation) {
                    asking_is_sound(
                        PreviewStateModel { next: (told.next + 1) as usize, ..told },
                        thread,
                        edit,
                        allowed,
                    );
                }
            },
            (PreviewPhase::Response, PreviewEventModel::Response(response)) => {
                if let Ok(told) = response_told(st, op, file, response) {
                    asking_is_sound(
                        PreviewStateModel { next: (told.next + 1) as usize, ..told },
                        thread,
                        edit,
                        allowed,
                    );
                }
            },
            _ => {},
        }
    }
}

proof fn scope_holds(
    scope: Seq<ExpectedWriteFactModel>,
    writes: Seq<WriteFactModel>,
    i: int,
)
    requires
        0 <= i,
        scope_checked(scope, writes, i) is Ok,
    ensures
        forall|k: int| i <= k < writes.len() ==> is_expected(scope, #[trigger] writes[k]),
    decreases writes.len() - i,
{
    if i < writes.len() {
        scope_holds(scope, writes, i + 1);
    }
}

/// What a report says that an edit changes is within what it may change, each in its
/// order, and nothing of it stays as it is.
pub proof fn reported_writes_are_expected(
    st: PreviewStateModel,
    edit: EditIrModel,
    originals: Seq<Option<Seq<char>>>,
    report: PreviewReportModel,
)
    requires
        preview_reported(st, edit, originals) == Ok::<PreviewReportModel, ErrorModel>(report),
    ensures
        order::is_sorted::<WriteFact>(report.actual_write_set),
        order::is_table::<ExpectedWriteFact>(report.expected_write_set),
        forall|i: int|
            0 <= i < report.actual_write_set.len() ==> is_expected(
                report.expected_write_set,
                #[trigger] report.actual_write_set[i],
            ) && report.actual_write_set[i].before_hash != report.actual_write_set[i].after_hash,
{
    broadcast use vstd::seq_lib::group_to_multiset_ensures;

    let writes = real_writes(st.writes);
    let shown = order::sorted::<WriteFact>(writes);
    order::sorted_is_sorted::<WriteFact>(writes);
    order::first_table_is_table::<ExpectedWriteFact>(
        if edit.expected_write_set.len() > 0 {
            edit.expected_write_set
        } else {
            st.expected_writes
        },
    );
    scope_holds(report.expected_write_set, writes, 0);
    assert forall|i: int| 0 <= i < shown.len() implies is_expected(
        report.expected_write_set,
        #[trigger] shown[i],
    ) && shown[i].before_hash != shown[i].after_hash by {
        assert(shown.to_multiset().count(shown[i]) > 0);
        assert(writes.contains(shown[i]));
        let k = choose|k: int| 0 <= k < writes.len() && writes[k] == shown[i];
        assert(is_expected(report.expected_write_set, writes[k]));
        st.writes.lemma_filter_pred(|w: WriteFactModel| w.before_hash != w.after_hash, k);
    }
}

/// An edit that changes the signature or the binary interface of its owner is refused.
pub proof fn protected_parts_do_not_change(
    writes: Seq<WriteFactModel>,
    delta: JsonModel,
    owner: Seq<char>,
    field: Seq<char>,
    change: JsonModel,
)
    requires
        field == "signature"@ || field == "abi"@,
        delta.get(field) == Some(change),
        str_or(change, "beforeHash"@, Seq::empty()) != str_or(change, "afterHash"@, Seq::empty()),
    ensures
        deltas_recorded(writes, delta, owner) is Err,
{
}

/// A model input is replaced as a whole only where it still is what the edit was asked on,
/// and what is recorded of it is what it was and what it becomes.
pub proof fn model_inputs_are_compared(
    st: PreviewStateModel,
    op: EditOperationModel,
    file: Seq<char>,
    bytes: Seq<u8>,
    next: PreviewStateModel,
)
    requires
        model_bytes_told(st, op, file, bytes) == Ok::<PreviewStateModel, ErrorModel>(next),
    ensures
        op.target.str_at("exactTextHash"@) == Some(digest_of(bytes)),
        next.writes.last() == (WriteFactModel {
            kind: "MODEL_INPUT"@,
            key: file,
            before_hash: digest_of(bytes),
            after_hash: text_digest(op.replacement.kotlin),
        }),
        next.writes.drop_last() == st.writes,
{
    assert(next.writes.drop_last() =~= st.writes);
}

} // verus!
