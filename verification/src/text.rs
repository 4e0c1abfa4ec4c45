//! Text as sequences of characters: equality, the order of strings, and the
//! small pieces from which identifiers are made.

use vstd::prelude::*;
use vstd::string::*;
use vstd::utf8::*;

verus! {

/// The lexicographic order of byte strings.
pub open spec fn bytes_less(a: Seq<u8>, b: Seq<u8>) -> bool
    decreases a.len(),
{
    if b.len() == 0 {
        false
    } else if a.len() == 0 {
        true
    } else if a[0] != b[0] {
        a[0] < b[0]
    } else {
        bytes_less(a.drop_first(), b.drop_first())
    }
}

/// The order of strings: that of their UTF-8 encodings.
pub open spec fn text_less(a: Seq<char>, b: Seq<char>) -> bool {
    bytes_less(encode_utf8(a), encode_utf8(b))
}

/// A digit of a lowercase hexadecimal number.
pub open spec fn is_lower_hex(c: char) -> bool {
    ('0' <= c && c <= '9') || ('a' <= c && c <= 'f')
}

/// A text made of sixty-four lowercase hexadecimal digits.
pub open spec fn is_hex64(s: Seq<char>) -> bool {
    s.len() == 64 && forall|i: int| 0 <= i < 64 ==> is_lower_hex(#[trigger] s[i])
}

/// `sha256:` followed by sixty-four lowercase hexadecimal digits.
pub open spec fn is_digest(s: Seq<char>) -> bool {
    has_prefix(s, "sha256:"@) && is_hex64(after_prefix(s, "sha256:"@))
}

/// Whether a text starts with another one.
pub open spec fn has_prefix(s: Seq<char>, p: Seq<char>) -> bool {
    p.len() <= s.len() && s.take(p.len() as int) == p
}

/// What follows a prefix.
pub open spec fn after_prefix(s: Seq<char>, p: Seq<char>) -> Seq<char> {
    s.skip(p.len() as int)
}

/// No byte string comes before itself.
pub proof fn bytes_less_irreflexive(a: Seq<u8>)
    ensures
        !bytes_less(a, a),
    decreases a.len(),
{
    if a.len() > 0 {
        bytes_less_irreflexive(a.drop_first());
    }
}

/// The order of byte strings is transitive.
pub proof fn bytes_less_transitive(a: Seq<u8>, b: Seq<u8>, c: Seq<u8>)
    requires
        bytes_less(a, b),
        bytes_less(b, c),
    ensures
        bytes_less(a, c),
    decreases a.len(),
{
    if a.len() > 0 && a[0] == b[0] && b[0] == c[0] {
        bytes_less_transitive(a.drop_first(), b.drop_first(), c.drop_first());
    }
}

/// Two different byte strings are ordered one way or the other.
pub proof fn bytes_less_total(a: Seq<u8>, b: Seq<u8>)
    requires
        a != b,
    ensures
        bytes_less(a, b) || bytes_less(b, a),
    decreases a.len(),
{
    if a.len() == 0 {
        assert(b.len() > 0) by {
            if b.len() == 0 {
                assert(a =~= b);
            }
        }
    } else if b.len() > 0 && a[0] == b[0] {
        assert(a.drop_first() != b.drop_first()) by {
            if a.drop_first() == b.drop_first() {
                assert(a =~= seq![a[0]] + a.drop_first());
                assert(b =~= seq![b[0]] + b.drop_first());
            }
        }
        bytes_less_total(a.drop_first(), b.drop_first());
    }
}

/// Two texts with one encoding are the same text.
pub proof fn encode_utf8_injective(a: Seq<char>, b: Seq<char>)
    requires
        encode_utf8(a) == encode_utf8(b),
    ensures
        a == b,
{
    encode_utf8_decode_utf8(a);
    encode_utf8_decode_utf8(b);
}

/// No text comes before itself.
pub proof fn text_less_irreflexive(a: Seq<char>)
    ensures
        !text_less(a, a),
{
    bytes_less_irreflexive(encode_utf8(a));
}

/// The order of texts is transitive.
pub proof fn text_less_transitive(a: Seq<char>, b: Seq<char>, c: Seq<char>)
    requires
        text_less(a, b),
        text_less(b, c),
    ensures
        text_less(a, c),
{
    bytes_less_transitive(encode_utf8(a), encode_utf8(b), encode_utf8(c));
}

/// Two different texts are ordered one way or the other.
pub proof fn text_less_total(a: Seq<char>, b: Seq<char>)
    requires
        a != b,
    ensures
        text_less(a, b) || text_less(b, a),
{
    if encode_utf8(a) == encode_utf8(b) {
        encode_utf8_injective(a, b);
    }
    bytes_less_total(encode_utf8(a), encode_utf8(b));
}

/// Whether two byte strings are equal.
pub fn same_bytes(a: &[u8], b: &[u8]) -> (r: bool)
    ensures
        r == (a@ == b@),
{
    if a.len() != b.len() {
        return false;
    }
    let mut i: usize = 0;
    while i < a.len()
        invariant
            i <= a.len(),
            a.len() == b.len(),
            forall|k: int| 0 <= k < i ==> a@[k] == b@[k],
        decreases a.len() - i,
    {
        if a[i] != b[i] {
            return false;
        }
        i = i + 1;
    }
    assert(a@ =~= b@);
    true
}

/// Another list of the same bytes.
pub fn copy_bytes(v: &Vec<u8>) -> (r: Vec<u8>)
    ensures
        r@ == v@,
{
    let mut r: Vec<u8> = Vec::new();
    let mut i: usize = 0;
    while i < v.len()
        invariant
            i <= v.len(),
            r@ == v@.take(i as int),
        decreases v.len() - i,
    {
        r.push(v[i]);
        assert(v@.take(i + 1) =~= v@.take(i as int).push(v@[i as int]));
        i = i + 1;
    }
    assert(v@.take(v@.len() as int) =~= v@);
    r
}

/// Whether two texts are equal.
pub fn same_text(a: &str, b: &str) -> (r: bool)
    ensures
        r == (a@ == b@),
{
    let r = same_bytes(a.as_bytes(), b.as_bytes());
    proof {
        if encode_utf8(a@) == encode_utf8(b@) {
            encode_utf8_injective(a@, b@);
        }
    }
    r
}

/// Whether one byte string comes before another.
pub fn bytes_before(a: &[u8], b: &[u8]) -> (r: bool)
    ensures
        r == bytes_less(a@, b@),
{
    let mut i: usize = 0;
    proof {
        assert(a@.skip(0) =~= a@);
        assert(b@.skip(0) =~= b@);
    }
    while i < a.len() && i < b.len()
        invariant
            i <= a.len(),
            i <= b.len(),
            bytes_less(a@, b@) == bytes_less(a@.skip(i as int), b@.skip(i as int)),
        decreases a.len() - i,
    {
        proof {
            assert(a@.skip(i as int).drop_first() =~= a@.skip(i + 1));
            assert(b@.skip(i as int).drop_first() =~= b@.skip(i + 1));
        }
        if a[i] != b[i] {
            return a[i] < b[i];
        }
        i = i + 1;
    }
    i < b.len()
}

/// Whether one text comes before another.
pub fn text_before(a: &str, b: &str) -> (r: bool)
    ensures
        r == text_less(a@, b@),
{
    bytes_before(a.as_bytes(), b.as_bytes())
}

/// The characters of a text.
pub fn chars_of(s: &str) -> (v: Vec<char>)
    ensures
        v@ == s@,
{
    let mut v: Vec<char> = Vec::new();
    for c in it: s.chars()
        invariant
            it.seq() == s@,
            v@ == s@.take(it.index()),
    {
        v.push(c);
        assert(s@.take(it.index()).push(c) =~= s@.take(it.index() + 1));
    }
    assert(s@.take(s@.len() as int) =~= s@);
    v
}

/// Appends one character. `String::push` puts the character behind the text.
#[verifier::external_body]
fn push_char(s: &mut String, c: char)
    ensures
        final(s)@ == old(s)@.push(c),
{
    s.push(c)
}

/// The text that some characters make.
pub fn text_of(v: &[char]) -> (s: String)
    ensures
        s@ == v@,
{
    let mut s = String::new();
    let mut i: usize = 0;
    while i < v.len()
        invariant
            i <= v.len(),
            s@ == v@.take(i as int),
        decreases v.len() - i,
    {
        push_char(&mut s, v[i]);
        assert(v@.take(i as int).push(v@[i as int]) =~= v@.take(i + 1));
        i = i + 1;
    }
    assert(v@.take(v@.len() as int) =~= v@);
    s
}

/// One text behind another.
pub fn joined(a: &str, b: &str) -> (s: String)
    ensures
        s@ == a@ + b@,
{
    let mut s = a.to_owned();
    s.append(b);
    s
}

/// Whether a text starts with another one.
pub fn starts_with(s: &str, p: &str) -> (r: bool)
    ensures
        r == has_prefix(s@, p@),
{
    let v = chars_of(s);
    let q = chars_of(p);
    if q.len() > v.len() {
        return false;
    }
    let mut i: usize = 0;
    while i < q.len()
        invariant
            i <= q.len() <= v.len(),
            v@ == s@,
            q@ == p@,
            forall|k: int| 0 <= k < i ==> v@[k] == q@[k],
        decreases q.len() - i,
    {
        if v[i] != q[i] {
            assert(s@.take(p@.len() as int)[i as int] != p@[i as int]);
            return false;
        }
        i = i + 1;
    }
    assert(s@.take(p@.len() as int) =~= p@);
    true
}

/// What follows a prefix, where the text starts with it.
pub fn strip_prefix(s: &str, p: &str) -> (r: Option<String>)
    ensures
        match r {
            Some(rest) => has_prefix(s@, p@) && rest@ == after_prefix(s@, p@),
            None => !has_prefix(s@, p@),
        },
{
    if !starts_with(s, p) {
        return None;
    }
    let n: usize = p.unicode_len();
    let m: usize = s.unicode_len();
    let rest = s.substring_char(n, m);
    assert(rest@ =~= after_prefix(s@, p@));
    Some(rest.to_owned())
}

/// Whether a text is sixty-four lowercase hexadecimal digits.
pub fn hex64(s: &str) -> (r: bool)
    ensures
        r == is_hex64(s@),
{
    let v = chars_of(s);
    if v.len() != 64 {
        return false;
    }
    let mut i: usize = 0;
    while i < v.len()
        invariant
            i <= v.len() == 64,
            v@ == s@,
            forall|k: int| 0 <= k < i ==> is_lower_hex(#[trigger] s@[k]),
        decreases v.len() - i,
    {
        let c = v[i];
        if !(('0' <= c && c <= '9') || ('a' <= c && c <= 'f')) {
            assert(!is_lower_hex(s@[i as int]));
            return false;
        }
        i = i + 1;
    }
    true
}

/// Whether a text is a SHA-256 digest: `sha256:` and its hexadecimal digits.
pub fn sha256_digest(s: &str) -> (r: bool)
    ensures
        r == is_digest(s@),
{
    match strip_prefix(s, "sha256:") {
        Some(rest) => hex64(rest.as_str()),
        None => false,
    }
}


/// A control character: the general category `Cc`.
pub open spec fn is_control(c: char) -> bool {
    c <= '\u{1f}' || ('\u{7f}' <= c && c <= '\u{9f}')
}

/// The Unicode normalization form C of a text.
pub uninterp spec fn nfc_of(s: Seq<char>) -> Seq<char>;

/// The Unicode normalization form C of a text. Claims that what
/// `unicode_normalization::UnicodeNormalization::nfc` yields depends on the
/// characters alone.
#[verifier::external_body]
fn nfc(s: &str) -> (r: String)
    ensures
        r@ == nfc_of(s@),
{
    unicode_normalization::UnicodeNormalization::nfc(s.chars()).collect::<String>()
}

/// Whether a text is in normalization form C.
pub fn is_nfc(s: &str) -> (r: bool)
    ensures
        r == (nfc_of(s@) == s@),
{
    same_text(nfc(s).as_str(), s)
}

/// Whether a text holds a control character.
pub open spec fn holds_control(s: Seq<char>) -> bool {
    exists|i: int| 0 <= i < s.len() && is_control(#[trigger] s[i])
}

/// Whether a text holds a control character.
pub fn has_control(s: &str) -> (r: bool)
    ensures
        r == holds_control(s@),
{
    let v = chars_of(s);
    let mut i: usize = 0;
    while i < v.len()
        invariant
            i <= v.len(),
            v@ == s@,
            forall|k: int| 0 <= k < i ==> !is_control(#[trigger] s@[k]),
        decreases v.len() - i,
    {
        let c = v[i];
        if c <= '\u{1f}' || ('\u{7f}' <= c && c <= '\u{9f}') {
            assert(is_control(s@[i as int]));
            return true;
        }
        i = i + 1;
    }
    false
}

/// Whether a text is fit for a name: not empty, at most `max` bytes long, without
/// control characters and in normalization form C.
pub open spec fn is_plain(s: Seq<char>, max: usize) -> bool {
    &&& s.len() > 0
    &&& encode_utf8(s).len() <= max
    &&& !holds_control(s)
    &&& nfc_of(s) == s
}

/// The number of bytes of a text.
pub fn byte_len(s: &str) -> (r: usize)
    ensures
        r == encode_utf8(s@).len(),
{
    s.as_bytes().len()
}

/// Whether a text is fit for a name.
pub fn plain(s: &str, max: usize) -> (r: bool)
    ensures
        r == is_plain(s@, max),
{
    !s.is_empty() && byte_len(s) <= max && !has_control(s) && is_nfc(s)
}

/// The pieces of a text between the places where a character stands.
pub open spec fn pieces(s: Seq<char>, separator: char) -> Seq<Seq<char>>
    decreases s.len(),
{
    if s.len() == 0 {
        seq![Seq::empty()]
    } else {
        let before = pieces(s.drop_last(), separator);
        if s.last() == separator {
            before.push(Seq::empty())
        } else {
            before.drop_last().push(before.last().push(s.last()))
        }
    }
}

/// There is at least one piece.
pub proof fn pieces_not_empty(s: Seq<char>, separator: char)
    ensures
        pieces(s, separator).len() > 0,
    decreases s.len(),
{
    if s.len() > 0 {
        pieces_not_empty(s.drop_last(), separator);
    }
}

/// The pieces of a text between the places where a character stands.
pub fn split(s: &str, separator: char) -> (r: Vec<String>)
    ensures
        r.deep_view() == pieces(s@, separator),
{
    let v = chars_of(s);
    let mut done: Vec<String> = Vec::new();
    let mut current: Vec<char> = Vec::new();
    let mut i: usize = 0;
    assert(v@.take(0) =~= Seq::empty());
    assert(done.deep_view() =~= Seq::empty());
    assert(done.deep_view().push(current@) =~= pieces(v@.take(0), separator));
    while i < v.len()
        invariant
            i <= v.len(),
            v@ == s@,
            done.deep_view().push(current@) == pieces(s@.take(i as int), separator),
        decreases v.len() - i,
    {
        let c = v[i];
        let ghost before = done.deep_view();
        proof {
            assert(s@.take(i + 1).drop_last() =~= s@.take(i as int));
        }
        if c == separator {
            done.push(text_of(current.as_slice()));
            assert(done.deep_view() =~= before.push(current@));
            current = Vec::new();
            assert(current@ =~= Seq::empty());
        } else {
            let ghost old_current = current@;
            current.push(c);
            assert(before.push(old_current).drop_last() =~= before);
        }
        i = i + 1;
    }
    let ghost before = done.deep_view();
    done.push(text_of(current.as_slice()));
    assert(done.deep_view() =~= before.push(current@));
    assert(s@.take(s@.len() as int) =~= s@);
    done
}

/// A part of a path that names a file or directory below another.
pub open spec fn is_path_part(p: Seq<char>) -> bool {
    p.len() > 0 && p != "."@ && p != ".."@
}

/// A path whose parts, between slashes, all name something below a root.
pub open spec fn is_relative_path(s: Seq<char>) -> bool {
    forall|i: int|
        0 <= i < pieces(s, '/').len() ==> is_path_part(#[trigger] pieces(s, '/')[i])
}

/// Whether the parts of a path all name something below a root.
pub fn relative_path(s: &str) -> (r: bool)
    ensures
        r == is_relative_path(s@),
{
    let parts = split(s, '/');
    let mut i: usize = 0;
    while i < parts.len()
        invariant
            i <= parts.len(),
            parts.deep_view() == pieces(s@, '/'),
            forall|k: int| 0 <= k < i ==> is_path_part(#[trigger] pieces(s@, '/')[k]),
        decreases parts.len() - i,
    {
        let part = parts[i].as_str();
        assert(part@ == pieces(s@, '/')[i as int]);
        if part.is_empty() || same_text(part, ".") || same_text(part, "..") {
            assert(!is_path_part(pieces(s@, '/')[i as int]));
            return false;
        }
        i = i + 1;
    }
    true
}

/// Whether a character stands in a text.
pub fn contains_char(s: &str, c: char) -> (r: bool)
    ensures
        r == s@.contains(c),
{
    let v = chars_of(s);
    let mut i: usize = 0;
    while i < v.len()
        invariant
            i <= v.len(),
            v@ == s@,
            forall|k: int| 0 <= k < i ==> s@[k] != c,
        decreases v.len() - i,
    {
        if v[i] == c {
            assert(s@[i as int] == c);
            return true;
        }
        i = i + 1;
    }
    false
}

/// Where a text that does not start with a slash has only parts that name
/// something, it needs no test for the slash: an absolute path has an empty part.
pub proof fn relative_path_is_not_absolute(s: Seq<char>)
    requires
        is_relative_path(s),
    ensures
        s.len() > 0,
        s[0] != '/',
{
    if s.len() == 0 {
        assert(pieces(s, '/')[0].len() == 0);
        assert(!is_path_part(pieces(s, '/')[0]));
    } else if s[0] == '/' {
        first_piece_of_absolute(s);
        assert(!is_path_part(pieces(s, '/')[0]));
    }
}

proof fn first_piece_of_absolute(s: Seq<char>)
    requires
        s.len() > 0,
        s[0] == '/',
    ensures
        pieces(s, '/').len() > 1,
        pieces(s, '/')[0].len() == 0,
    decreases s.len(),
{
    if s.len() == 1 {
        assert(s.drop_last() =~= Seq::empty());
        assert(pieces(s.drop_last(), '/') =~= seq![Seq::<char>::empty()]);
    } else {
        first_piece_of_absolute(s.drop_last());
    }
}


/// The first place from `i` on where a text stands in another one.
pub open spec fn found_from(s: Seq<char>, p: Seq<char>, i: int) -> Option<int>
    decreases s.len() - i + 1,
{
    if i < 0 || i + p.len() > s.len() {
        None
    } else if s.subrange(i, i + p.len()) == p {
        Some(i)
    } else {
        found_from(s, p, i + 1)
    }
}

/// The first place where a text stands in another one.
pub open spec fn found(s: Seq<char>, p: Seq<char>) -> Option<int> {
    found_from(s, p, 0)
}

/// A text that stands somewhere is found.
pub proof fn found_where_it_stands(s: Seq<char>, p: Seq<char>, i: int)
    requires
        0 <= i <= s.len() - p.len(),
        s.subrange(i, i + p.len()) == p,
    ensures
        found(s, p) is Some,
{
    found_from_where_it_stands(s, p, 0, i);
}

proof fn found_from_where_it_stands(s: Seq<char>, p: Seq<char>, from: int, i: int)
    requires
        0 <= from <= i <= s.len() - p.len(),
        s.subrange(i, i + p.len()) == p,
    ensures
        found_from(s, p, from) is Some,
    decreases i - from,
{
    if from < i {
        found_from_where_it_stands(s, p, from + 1, i);
    }
}

/// The place that is found is the first one where the text stands.
pub proof fn found_is_first(s: Seq<char>, p: Seq<char>)
    ensures
        match found(s, p) {
            Some(k) => {
                &&& 0 <= k && k + p.len() <= s.len() && s.subrange(k, k + p.len()) == p
                &&& forall|j: int| 0 <= j < k ==> #[trigger] s.subrange(j, j + p.len()) != p
            },
            None => forall|j: int|
                0 <= j <= s.len() - p.len() ==> #[trigger] s.subrange(j, j + p.len()) != p,
        },
{
    found_from_is_first(s, p, 0);
}

proof fn found_from_is_first(s: Seq<char>, p: Seq<char>, i: int)
    requires
        0 <= i,
    ensures
        match found_from(s, p, i) {
            Some(k) => {
                &&& i <= k && k + p.len() <= s.len() && s.subrange(k, k + p.len()) == p
                &&& forall|j: int| i <= j < k ==> #[trigger] s.subrange(j, j + p.len()) != p
            },
            None => forall|j: int|
                i <= j <= s.len() - p.len() ==> #[trigger] s.subrange(j, j + p.len()) != p,
        },
    decreases s.len() - i + 1,
{
    if i + p.len() <= s.len() && s.subrange(i, i + p.len()) != p {
        found_from_is_first(s, p, i + 1);
    }
}

/// A place that is found lies in the text.
pub proof fn found_from_in_range(s: Seq<char>, p: Seq<char>, i: int)
    requires
        0 <= i,
    ensures
        match found_from(s, p, i) {
            Some(k) => i <= k && k + p.len() <= s.len() && s.subrange(k, k + p.len()) == p,
            None => true,
        },
    decreases s.len() - i + 1,
{
    if i + p.len() <= s.len() && s.subrange(i, i + p.len()) != p {
        found_from_in_range(s, p, i + 1);
    }
}

/// Whether a text stands at a place of another one.
fn stands_at(s: &[char], p: &[char], at: usize) -> (r: bool)
    requires
        at + p@.len() <= s@.len(),
    ensures
        r == (s@.subrange(at as int, at + p@.len()) == p@),
{
    let mut k: usize = 0;
    while k < p.len()
        invariant
            k <= p.len(),
            at + p.len() <= s.len(),
            forall|m: int| 0 <= m < k ==> s@[at + m] == p@[m],
        decreases p.len() - k,
    {
        if s[at + k] != p[k] {
            assert(s@.subrange(at as int, at + p@.len())[k as int] != p@[k as int]);
            return false;
        }
        k = k + 1;
    }
    assert(s@.subrange(at as int, at + p@.len()) =~= p@);
    true
}

/// The first place from `start` on where a text stands in another one.
pub fn find_from(s: &[char], p: &[char], start: usize) -> (r: Option<usize>)
    ensures
        match r {
            Some(k) => found_from(s@, p@, start as int) == Some(k as int) && start <= k && k
                + p@.len() <= s@.len(),
            None => found_from(s@, p@, start as int) is None,
        },
{
    let mut i: usize = start;
    while i <= s.len() && p.len() <= s.len() - i
        invariant
            start <= i,
            found_from(s@, p@, start as int) == found_from(s@, p@, i as int),
        decreases s.len() + 1 - i,
    {
        if stands_at(s, p, i) {
            return Some(i);
        }
        if i == s.len() {
            assert(found_from(s@, p@, i + 1) is None);
            return None;
        }
        i = i + 1;
    }
    None
}

/// The first place where a text stands in another one.
pub fn find(s: &[char], p: &[char]) -> (r: Option<usize>)
    ensures
        match r {
            Some(k) => found(s@, p@) == Some(k as int) && k + p@.len() <= s@.len(),
            None => found(s@, p@) is None,
        },
{
    find_from(s, p, 0)
}

/// Whether a text stands somewhere in another one.
pub fn contains_text(s: &str, p: &str) -> (r: bool)
    ensures
        r == (found(s@, p@) is Some),
{
    let v = chars_of(s);
    let q = chars_of(p);
    find(v.as_slice(), q.as_slice()).is_some()
}

} // verus!
