//! Transactions in the history of a repository: they are known by the trailers of their
//! commits.

use vstd::prelude::*;
use vstd::string::*;

use crate::error::{outcome, ClewError, ErrorCode, ErrorModel};
use crate::model_input::{between, failed, framed};
use crate::text::{after_prefix, has_prefix, joined, pieces, same_text, split, strip_prefix};
use crate::words::{halves, split_once, trim, trimmed};

verus! {

/// The separator of the records of a history.
pub const RECORD_SEPARATOR: char = '\u{1e}';

/// The separator of a commit and its message.
pub const FIELD_SEPARATOR: char = '\u{1f}';

/// Whether one of the lines of a message is a text, white space around it left out.
pub open spec fn has_line(message: Seq<char>, line: Seq<char>) -> bool {
    exists|i: int|
        0 <= i < pieces(message, '\n').len() && trimmed(#[trigger] pieces(message, '\n')[i])
            == line
}

/// Whether one of the lines of a message is a text, white space around it left out.
pub fn contains_line(message: &str, line: &str) -> (r: bool)
    ensures
        r == has_line(message@, line@),
{
    let lines = split(message, '\n');
    let ghost m = pieces(message@, '\n');
    let mut i: usize = 0;
    while i < lines.len()
        invariant
            i <= lines.len(),
            m == lines.deep_view(),
            m == pieces(message@, '\n'),
            forall|k: int| 0 <= k < i ==> trimmed(#[trigger] m[k]) != line@,
        decreases lines.len() - i,
    {
        assert(m[i as int] == lines@[i as int]@);
        if same_text(trim(lines[i].as_str()).as_str(), line) {
            return true;
        }
        i = i + 1;
    }
    false
}

/// The trailer that names a transaction.
pub open spec fn id_trailer(id: Seq<char>) -> Seq<char> {
    "Semantic-Transaction-Id: "@ + id
}

/// The trailer that names an edit.
pub open spec fn edit_trailer(edit_hash: Seq<char>) -> Seq<char> {
    "Semantic-Edit-Hash: "@ + edit_hash
}

/// Whether a message has the trailer of a transaction.
pub open spec fn names_transaction(message: Seq<char>, id: Seq<char>) -> bool {
    has_line(message, id_trailer(id))
}

/// The text behind a prefix in the first line from one on that has it, white space
/// around the line left out.
pub open spec fn line_value(lines: Seq<Seq<char>>, prefix: Seq<char>, i: int) -> Option<Seq<char>>
    decreases lines.len() - i,
{
    if i < 0 || i >= lines.len() {
        None
    } else if has_prefix(trimmed(lines[i]), prefix) {
        Some(after_prefix(trimmed(lines[i]), prefix))
    } else {
        line_value(lines, prefix, i + 1)
    }
}

/// The edit that a message names.
pub open spec fn edit_named(message: Seq<char>) -> Option<Seq<char>> {
    line_value(pieces(message, '\n'), "Semantic-Edit-Hash: "@, 0)
}

fn named_edit(message: &str) -> (r: Option<String>)
    ensures
        r.deep_view() == edit_named(message@),
{
    let lines = split(message, '\n');
    let ghost m = pieces(message@, '\n');
    let ghost p = "Semantic-Edit-Hash: "@;
    let mut i: usize = 0;
    while i < lines.len()
        invariant
            i <= lines.len(),
            m == lines.deep_view(),
            m == pieces(message@, '\n'),
            p == "Semantic-Edit-Hash: "@,
            line_value(m, p, 0) == line_value(m, p, i as int),
        decreases lines.len() - i,
    {
        assert(m[i as int] == lines@[i as int]@);
        match strip_prefix(trim(lines[i].as_str()).as_str(), "Semantic-Edit-Hash: ") {
            Some(value) => {
                return Some(value);
            },
            None => {},
        }
        i = i + 1;
    }
    None
}

/// The first commit from a record on whose message names a transaction.
pub open spec fn commit_from(records: Seq<Seq<char>>, id: Seq<char>, i: int) -> Option<Seq<char>>
    decreases records.len() - i,
{
    if i < 0 || i >= records.len() {
        None
    } else {
        match halves(trimmed(records[i]), FIELD_SEPARATOR) {
            Some((commit, message)) => if names_transaction(message, id) {
                Some(commit)
            } else {
                commit_from(records, id, i + 1)
            },
            None => commit_from(records, id, i + 1),
        }
    }
}

/// The first commit of a history whose message names a transaction.
pub open spec fn transaction_commit(history: Seq<char>, id: Seq<char>) -> Option<Seq<char>> {
    commit_from(pieces(history, RECORD_SEPARATOR), id, 0)
}

/// Finds the first commit of a history whose message names a transaction.
pub fn find_transaction_commit(history: &str, id: &str) -> (r: Option<String>)
    ensures
        r.deep_view() == transaction_commit(history@, id@),
{
    let records = split(history, RECORD_SEPARATOR);
    let ghost m = pieces(history@, RECORD_SEPARATOR);
    let trailer = joined("Semantic-Transaction-Id: ", id);
    let mut i: usize = 0;
    while i < records.len()
        invariant
            i <= records.len(),
            m == records.deep_view(),
            m == pieces(history@, RECORD_SEPARATOR),
            trailer@ == id_trailer(id@),
            commit_from(m, id@, 0) == commit_from(m, id@, i as int),
        decreases records.len() - i,
    {
        assert(m[i as int] == records@[i as int]@);
        match split_once(trim(records[i].as_str()).as_str(), FIELD_SEPARATOR) {
            Some((commit, message)) => {
                if contains_line(message.as_str(), trailer.as_str()) {
                    return Some(commit);
                }
            },
            None => {},
        }
        i = i + 1;
    }
    None
}

/// The first commit from a record on whose message names a transaction, where it names
/// the edit too.
pub open spec fn matching_from(
    records: Seq<Seq<char>>,
    id: Seq<char>,
    edit_hash: Seq<char>,
    i: int,
) -> Result<Option<Seq<char>>, ErrorModel>
    decreases records.len() - i,
{
    if i < 0 || i >= records.len() {
        Ok(None)
    } else {
        match halves(trimmed(records[i]), FIELD_SEPARATOR) {
            Some((commit, message)) => if !names_transaction(message, id) {
                matching_from(records, id, edit_hash, i + 1)
            } else if edit_named(message) != Some(edit_hash) {
                failed(
                    ErrorCode::InvalidInput,
                    between("transaction id "@, id, " is already associated with a different edit"@),
                )
            } else {
                Ok(Some(commit))
            },
            None => matching_from(records, id, edit_hash, i + 1),
        }
    }
}

/// The first commit of a history whose message names a transaction, where it names the
/// edit too.
pub open spec fn matching_commit(
    history: Seq<char>,
    id: Seq<char>,
    edit_hash: Seq<char>,
) -> Result<Option<Seq<char>>, ErrorModel> {
    matching_from(pieces(history, RECORD_SEPARATOR), id, edit_hash, 0)
}

/// Finds the commit of a transaction in a history; one of another edit is refused.
pub fn find_matching_transaction_commit(history: &str, id: &str, edit_hash: &str) -> (r: Result<
    Option<String>,
    ClewError,
>)
    ensures
        outcome(r) == matching_commit(history@, id@, edit_hash@),
{
    let records = split(history, RECORD_SEPARATOR);
    let ghost m = pieces(history@, RECORD_SEPARATOR);
    let trailer = joined("Semantic-Transaction-Id: ", id);
    let mut i: usize = 0;
    while i < records.len()
        invariant
            i <= records.len(),
            m == records.deep_view(),
            m == pieces(history@, RECORD_SEPARATOR),
            trailer@ == id_trailer(id@),
            matching_from(m, id@, edit_hash@, 0) == matching_from(m, id@, edit_hash@, i as int),
        decreases records.len() - i,
    {
        assert(m[i as int] == records@[i as int]@);
        match split_once(trim(records[i].as_str()).as_str(), FIELD_SEPARATOR) {
            Some((commit, message)) => {
                if contains_line(message.as_str(), trailer.as_str()) {
                    let same = match named_edit(message.as_str()) {
                        Some(recorded) => same_text(recorded.as_str(), edit_hash),
                        None => false,
                    };
                    if !same {
                        return Err(
                            ClewError::new(
                                ErrorCode::InvalidInput,
                                framed(
                                    "transaction id ",
                                    id,
                                    " is already associated with a different edit",
                                ).as_str(),
                            ),
                        );
                    }
                    return Ok(Some(commit));
                }
            },
            None => {},
        }
        i = i + 1;
    }
    Ok(None)
}

/// The message of the commit of a transaction.
pub open spec fn commit_message(
    intent: Seq<char>,
    id: Seq<char>,
    base_revision: Seq<char>,
    edit_hash: Seq<char>,
) -> Seq<char> {
    "semantic transaction "@ + intent + "\n\n"@ + id_trailer(id) + "\n"@
        + "Semantic-Base-Revision: "@ + base_revision + "\n"@ + edit_trailer(edit_hash)
}

/// Writes the message of the commit of a transaction.
pub fn write_commit_message(intent: &str, id: &str, base_revision: &str, edit_hash: &str) -> (r:
    String)
    ensures
        r@ == commit_message(intent@, id@, base_revision@, edit_hash@),
{
    let mut r = "semantic transaction ".to_owned();
    r.append(intent);
    r.append("\n\n");
    r.append(joined("Semantic-Transaction-Id: ", id).as_str());
    r.append("\n");
    r.append("Semantic-Base-Revision: ");
    r.append(base_revision);
    r.append("\n");
    r.append(joined("Semantic-Edit-Hash: ", edit_hash).as_str());
    r
}

/// A commit that is found for a transaction and an edit is the one that is found for the
/// transaction alone.
pub proof fn matching_commit_is_the_commit(
    history: Seq<char>,
    id: Seq<char>,
    edit_hash: Seq<char>,
)
    ensures
        match matching_commit(history, id, edit_hash) {
            Ok(found) => found == transaction_commit(history, id),
            Err(_) => transaction_commit(history, id) is Some,
        },
{
    matching_agrees(pieces(history, RECORD_SEPARATOR), id, edit_hash, 0);
}

proof fn matching_agrees(records: Seq<Seq<char>>, id: Seq<char>, edit_hash: Seq<char>, i: int)
    requires
        0 <= i,
    ensures
        match matching_from(records, id, edit_hash, i) {
            Ok(found) => found == commit_from(records, id, i),
            Err(_) => commit_from(records, id, i) is Some,
        },
    decreases records.len() - i,
{
    if i < records.len() {
        matching_agrees(records, id, edit_hash, i + 1);
    }
}

} // verus!
