//! What is written into the message of a commit is found in it: the transaction, the edit, and
//! no other.

use vstd::prelude::*;
use vstd::string::*;

use crate::history::{
    commit_message, edit_named, edit_trailer, id_trailer, line_value, names_transaction,
};
use crate::text::{after_prefix, has_prefix, pieces, pieces_not_empty};
use crate::words::{is_white, trimmed, trimmed_end};

verus! {

/// Whether a text has characters, and no white space among them.
pub open spec fn is_word(s: Seq<char>) -> bool {
    s.len() > 0 && forall|k: int| 0 <= k < s.len() ==> !is_white(#[trigger] s[k])
}

/// Whether a text is one line.
pub open spec fn is_line(s: Seq<char>) -> bool {
    forall|k: int| 0 <= k < s.len() ==> #[trigger] s[k] != '\n'
}

proof fn joined_pieces(a: Seq<char>, c: char, b: Seq<char>)
    ensures
        pieces(a.push(c) + b, c) == pieces(a, c) + pieces(b, c),
    decreases b.len(),
{
    let s = a.push(c) + b;
    if b.len() == 0 {
        assert(s =~= a.push(c));
        assert(s.drop_last() =~= a);
        assert(b =~= Seq::empty());
        assert(pieces(a, c).push(Seq::empty()) =~= pieces(a, c) + pieces(b, c));
    } else {
        let rest = b.drop_last();
        joined_pieces(a, c, rest);
        pieces_not_empty(rest, c);
        assert(s.drop_last() =~= a.push(c) + rest);
        assert(s.last() == b.last());
        let x = pieces(a, c);
        let y = pieces(rest, c);
        assert((x + y).last() == y.last());
        assert((x + y).drop_last() =~= x + y.drop_last());
        if b.last() == c {
            assert((x + y).push(Seq::empty()) =~= x + y.push(Seq::empty()));
        } else {
            let z = y.last().push(b.last());
            assert((x + y.drop_last()).push(z) =~= x + y.drop_last().push(z));
        }
    }
}

proof fn line_is_one_piece(s: Seq<char>)
    requires
        is_line(s),
    ensures
        pieces(s, '\n') == seq![s],
    decreases s.len(),
{
    if s.len() > 0 {
        let rest = s.drop_last();
        assert forall|k: int| 0 <= k < rest.len() implies #[trigger] rest[k] != '\n' by {
            assert(rest[k] == s[k]);
        }
        line_is_one_piece(rest);
        assert(rest.push(s.last()) =~= s);
        assert(pieces(s, '\n') =~= seq![s]);
    } else {
        assert(s =~= Seq::empty());
    }
}

proof fn nothing_to_trim(s: Seq<char>)
    requires
        s.len() > 0,
        !is_white(s[0]),
        !is_white(s.last()),
    ensures
        trimmed(s) == s,
{
}

proof fn start_stays(s: Seq<char>)
    requires
        s.len() > 0,
        !is_white(s[0]),
    ensures
        trimmed_end(s).len() > 0,
        trimmed_end(s)[0] == s[0],
    decreases s.len(),
{
    if is_white(s.last()) {
        start_stays(s.drop_last());
    }
}

spec fn base_trailer(base_revision: Seq<char>) -> Seq<char> {
    "Semantic-Base-Revision: "@ + base_revision
}

spec fn head(intent: Seq<char>) -> Seq<char> {
    "semantic transaction "@ + intent
}

proof fn trailers_are_lines(id: Seq<char>, base_revision: Seq<char>, edit_hash: Seq<char>)
    requires
        is_word(id),
        is_word(base_revision),
        is_word(edit_hash),
    ensures
        is_line(id_trailer(id)),
        is_line(base_trailer(base_revision)),
        is_line(edit_trailer(edit_hash)),
        trimmed(id_trailer(id)) == id_trailer(id),
        trimmed(base_trailer(base_revision)) == base_trailer(base_revision),
        trimmed(edit_trailer(edit_hash)) == edit_trailer(edit_hash),
{
    reveal_strlit("Semantic-Transaction-Id: ");
    reveal_strlit("Semantic-Base-Revision: ");
    reveal_strlit("Semantic-Edit-Hash: ");
    nothing_to_trim(id_trailer(id));
    nothing_to_trim(base_trailer(base_revision));
    nothing_to_trim(edit_trailer(edit_hash));
}

proof fn lines_of_message(
    intent: Seq<char>,
    id: Seq<char>,
    base_revision: Seq<char>,
    edit_hash: Seq<char>,
)
    requires
        is_word(id),
        is_word(base_revision),
        is_word(edit_hash),
    ensures
        pieces(commit_message(intent, id, base_revision, edit_hash), '\n') == pieces(
            head(intent),
            '\n',
        ) + seq![
            Seq::<char>::empty(),
            id_trailer(id),
            base_trailer(base_revision),
            edit_trailer(edit_hash),
        ],
{
    reveal_strlit("\n");
    reveal_strlit("\n\n");
    trailers_are_lines(id, base_revision, edit_hash);
    let h = head(intent);
    let i = id_trailer(id);
    let b = base_trailer(base_revision);
    let e = edit_trailer(edit_hash);
    let end = b.push('\n') + e;
    let rest = i.push('\n') + end;
    let tail = Seq::<char>::empty().push('\n') + rest;
    let m = commit_message(intent, id, base_revision, edit_hash);
    assert(m =~= h.push('\n') + tail);
    line_is_one_piece(i);
    line_is_one_piece(b);
    line_is_one_piece(e);
    line_is_one_piece(Seq::empty());
    joined_pieces(b, '\n', e);
    joined_pieces(i, '\n', end);
    joined_pieces(Seq::empty(), '\n', rest);
    joined_pieces(h, '\n', tail);
    assert(pieces(m, '\n') =~= pieces(h, '\n') + seq![Seq::<char>::empty(), i, b, e]);
}

proof fn only_line_of_edit(
    lines: Seq<Seq<char>>,
    intent: Seq<char>,
    id: Seq<char>,
    base_revision: Seq<char>,
    edit_hash: Seq<char>,
)
    requires
        is_word(id),
        is_word(base_revision),
        is_word(edit_hash),
        lines == seq![
            head(intent),
            Seq::<char>::empty(),
            id_trailer(id),
            base_trailer(base_revision),
            edit_trailer(edit_hash),
        ],
    ensures
        line_value(lines, "Semantic-Edit-Hash: "@, 0) == Some(edit_hash),
        forall|i: int, other: Seq<char>|
            0 <= i < lines.len() && #[trigger] trimmed(lines[i]) == #[trigger] id_trailer(other)
                ==> other == id,
{
    reveal_strlit("semantic transaction ");
    reveal_strlit("Semantic-Transaction-Id: ");
    reveal_strlit("Semantic-Base-Revision: ");
    reveal_strlit("Semantic-Edit-Hash: ");
    trailers_are_lines(id, base_revision, edit_hash);
    let p = "Semantic-Edit-Hash: "@;
    let h = head(intent);
    assert(h[0] == 's');
    start_stays(h);
    assert(trimmed(h)[0] == 's');
    assert(p[0] == 'S' && p[9] == 'E');
    assert(id_trailer(id)[9] == 'T');
    assert(base_trailer(base_revision)[9] == 'B');
    assert(edit_trailer(edit_hash)[9] == 'E');
    assert(!has_prefix(trimmed(h), p)) by {
        if has_prefix(trimmed(h), p) {
            assert(trimmed(h).take(p.len() as int)[0] == trimmed(h)[0]);
        }
    }
    assert(trimmed(Seq::<char>::empty()).len() == 0);
    assert(!has_prefix(id_trailer(id), p)) by {
        if has_prefix(id_trailer(id), p) {
            assert(id_trailer(id).take(p.len() as int)[9] == id_trailer(id)[9]);
        }
    }
    assert(!has_prefix(base_trailer(base_revision), p)) by {
        if has_prefix(base_trailer(base_revision), p) {
            assert(base_trailer(base_revision).take(p.len() as int)[9] == base_trailer(
                base_revision,
            )[9]);
        }
    }
    assert(edit_trailer(edit_hash).take(p.len() as int) =~= p);
    assert(after_prefix(edit_trailer(edit_hash), p) =~= edit_hash);
    assert(line_value(lines, p, 4) == Some(edit_hash));
    assert(line_value(lines, p, 3) == line_value(lines, p, 4));
    assert(line_value(lines, p, 2) == line_value(lines, p, 3));
    assert(line_value(lines, p, 1) == line_value(lines, p, 2));
    assert forall|i: int, other: Seq<char>|
        0 <= i < lines.len() && #[trigger] trimmed(lines[i]) == #[trigger] id_trailer(
            other,
        ) implies other == id by {
        let t = id_trailer(other);
        assert(t[0] == 'S' && t[9] == 'T');
        if i == 2 {
            let k = "Semantic-Transaction-Id: "@.len() as int;
            assert(other =~= t.skip(k));
            assert(id =~= id_trailer(id).skip(k));
        } else if i == 0 {
            assert(trimmed(lines[0])[0] == 's');
        } else if i == 1 {
            assert(trimmed(lines[1]).len() == 0);
        } else if i == 3 {
            assert(trimmed(lines[3])[9] == 'B');
        } else {
            assert(trimmed(lines[4])[9] == 'E');
        }
    }
}

/// The message of a commit names its transaction, whatever its intent is. Where the intent is
/// one line, it names no other transaction, and names its edit.
pub proof fn messages_name_what_is_written(
    intent: Seq<char>,
    id: Seq<char>,
    base_revision: Seq<char>,
    edit_hash: Seq<char>,
)
    requires
        is_word(id),
        is_word(base_revision),
        is_word(edit_hash),
    ensures
        ({
            let message = commit_message(intent, id, base_revision, edit_hash);
            &&& names_transaction(message, id)
            &&& is_line(intent) ==> edit_named(message) == Some(edit_hash)
            &&& is_line(intent) ==> forall|other: Seq<char>| #[trigger]
                names_transaction(message, other) ==> other == id
        }),
{
    let message = commit_message(intent, id, base_revision, edit_hash);
    let lines = pieces(message, '\n');
    let h = head(intent);
    let n = pieces(h, '\n').len() as int;
    lines_of_message(intent, id, base_revision, edit_hash);
    trailers_are_lines(id, base_revision, edit_hash);
    assert(lines[n + 1] == id_trailer(id));
    assert(trimmed(lines[n + 1]) == id_trailer(id));
    if is_line(intent) {
        reveal_strlit("semantic transaction ");
        assert(is_line(h));
        line_is_one_piece(h);
        assert(lines =~= seq![
            h,
            Seq::<char>::empty(),
            id_trailer(id),
            base_trailer(base_revision),
            edit_trailer(edit_hash),
        ]);
        only_line_of_edit(lines, intent, id, base_revision, edit_hash);
        assert forall|other: Seq<char>| #[trigger] names_transaction(message, other) implies other
            == id by {
            let i = choose|i: int|
                0 <= i < lines.len() && trimmed(#[trigger] lines[i]) == id_trailer(other);
            assert(trimmed(lines[i]) == id_trailer(other));
        }
    }
}

} // verus!
