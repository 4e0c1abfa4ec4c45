//! Words and lines of texts.

use vstd::prelude::*;
use vstd::string::*;

use crate::text::{chars_of, find_from, found_from, text_of};

verus! {

/// Whether a character is white space, as Unicode has it.
pub open spec fn is_white(c: char) -> bool {
    let n = c as u32;
    (0x9 <= n <= 0xD) || n == 0x20 || n == 0x85 || n == 0xA0 || n == 0x1680 || (0x2000 <= n
        <= 0x200A) || n == 0x2028 || n == 0x2029 || n == 0x202F || n == 0x205F || n == 0x3000
}

fn white(c: char) -> (r: bool)
    ensures
        r == is_white(c),
{
    let n: u32 = c as u32;
    (0x9 <= n && n <= 0xD) || n == 0x20 || n == 0x85 || n == 0xA0 || n == 0x1680 || (0x2000 <= n
        && n <= 0x200A) || n == 0x2028 || n == 0x2029 || n == 0x202F || n == 0x205F || n == 0x3000
}

/// A text without the white space at its start.
pub open spec fn trimmed_start(s: Seq<char>) -> Seq<char>
    decreases s.len(),
{
    if s.len() > 0 && is_white(s[0]) {
        trimmed_start(s.drop_first())
    } else {
        s
    }
}

/// A text without the white space at its end.
pub open spec fn trimmed_end(s: Seq<char>) -> Seq<char>
    decreases s.len(),
{
    if s.len() > 0 && is_white(s.last()) {
        trimmed_end(s.drop_last())
    } else {
        s
    }
}

/// A text without the white space at its start and its end.
pub open spec fn trimmed(s: Seq<char>) -> Seq<char> {
    trimmed_end(trimmed_start(s))
}

/// A text without the white space at its start and its end.
pub fn trim(s: &str) -> (r: String)
    ensures
        r@ == trimmed(s@),
{
    let v = chars_of(s);
    let mut start: usize = 0;
    assert(v@.skip(0) =~= v@);
    while start < v.len() && white(v[start])
        invariant
            start <= v.len(),
            trimmed_start(v@) == trimmed_start(v@.skip(start as int)),
        decreases v.len() - start,
    {
        assert(v@.skip(start as int)[0] == v@[start as int]);
        assert(v@.skip(start as int).drop_first() =~= v@.skip(start as int + 1));
        start = start + 1;
    }
    assert(start < v@.len() ==> v@.skip(start as int)[0] == v@[start as int]);
    assert(trimmed_start(v@) == v@.skip(start as int));
    let mut end: usize = v.len();
    assert(v@.subrange(start as int, end as int) =~= v@.skip(start as int));
    while start < end && white(v[end - 1])
        invariant
            start <= end <= v.len(),
            trimmed_end(v@.skip(start as int)) == trimmed_end(
                v@.subrange(start as int, end as int),
            ),
        decreases end,
    {
        assert(v@.subrange(start as int, end as int).last() == v@[end - 1]);
        assert(v@.subrange(start as int, end as int).drop_last() =~= v@.subrange(
            start as int,
            end - 1,
        ));
        end = end - 1;
    }
    assert(start < end ==> v@.subrange(start as int, end as int).last() == v@[end - 1]);
    let r = text_of(vstd::slice::slice_subrange(v.as_slice(), start, end));
    assert(r@ =~= v@.subrange(start as int, end as int));
    r
}

/// The words of a text with one space between each two.
pub open spec fn compacted(s: Seq<char>) -> Seq<char>
    decreases s.len(),
{
    if s.len() == 0 {
        Seq::empty()
    } else {
        let before = compacted(s.drop_last());
        if is_white(s.last()) {
            before
        } else if s.len() > 1 && is_white(s[s.len() - 2]) && before.len() > 0 {
            before.push(' ').push(s.last())
        } else {
            before.push(s.last())
        }
    }
}

/// The words of a text with one space between each two.
pub fn compact(s: &str) -> (r: String)
    ensures
        r@ == compacted(s@),
{
    let v = chars_of(s);
    let mut done: Vec<char> = Vec::new();
    let mut i: usize = 0;
    assert(v@.take(0) =~= Seq::empty());
    while i < v.len()
        invariant
            i <= v.len(),
            done@ == compacted(v@.take(i as int)),
        decreases v.len() - i,
    {
        assert(v@.take(i + 1).drop_last() =~= v@.take(i as int));
        assert(i > 0 ==> v@.take(i + 1)[v@.take(i + 1).len() - 2] == v@[i - 1]);
        let c = v[i];
        if !white(c) {
            if i > 0 && white(v[i - 1]) && done.len() > 0 {
                done.push(' ');
            }
            done.push(c);
        }
        i = i + 1;
    }
    assert(v@.take(v@.len() as int) =~= v@);
    text_of(done.as_slice())
}

/// A text with a text before, between and behind its characters.
pub open spec fn interleaved(s: Seq<char>, q: Seq<char>) -> Seq<char>
    decreases s.len(),
{
    if s.len() == 0 {
        q
    } else {
        interleaved(s.drop_last(), q).push(s.last()) + q
    }
}

/// A text from a place on, with one text replaced by another wherever it stands.
pub open spec fn replaced_from(s: Seq<char>, p: Seq<char>, q: Seq<char>, i: int) -> Seq<char>
    decreases s.len() - i,
{
    if i < 0 || i >= s.len() || p.len() == 0 {
        Seq::empty()
    } else {
        match found_from(s, p, i) {
            None => s.skip(i),
            Some(k) => if k < i || k + p.len() > s.len() {
                Seq::empty()
            } else {
                s.subrange(i, k) + q + replaced_from(s, p, q, k + p.len())
            },
        }
    }
}

/// A text with one text replaced by another wherever it stands.
pub open spec fn replaced(s: Seq<char>, p: Seq<char>, q: Seq<char>) -> Seq<char> {
    if p.len() == 0 {
        interleaved(s, q)
    } else {
        replaced_from(s, p, q, 0)
    }
}

fn append(done: &mut Vec<char>, v: &[char], start: usize, end: usize)
    requires
        start <= end <= v@.len(),
    ensures
        final(done)@ == old(done)@ + v@.subrange(start as int, end as int),
{
    let ghost before = done@;
    let mut i: usize = start;
    assert(before + v@.subrange(start as int, start as int) =~= before);
    while i < end
        invariant
            start <= i <= end <= v@.len(),
            done@ == before + v@.subrange(start as int, i as int),
        decreases end - i,
    {
        done.push(v[i]);
        assert(done@ =~= before + v@.subrange(start as int, i + 1));
        i = i + 1;
    }
}

fn interleave(v: &[char], q: &[char]) -> (r: Vec<char>)
    ensures
        r@ == interleaved(v@, q@),
{
    let mut done: Vec<char> = Vec::new();
    append(&mut done, q, 0, q.len());
    assert(done@ =~= q@);
    assert(v@.take(0) =~= Seq::empty());
    let mut i: usize = 0;
    while i < v.len()
        invariant
            i <= v.len(),
            done@ == interleaved(v@.take(i as int), q@),
        decreases v.len() - i,
    {
        assert(v@.take(i + 1).drop_last() =~= v@.take(i as int));
        let ghost before = done@;
        done.push(v[i]);
        append(&mut done, q, 0, q.len());
        assert(done@ =~= before.push(v@[i as int]) + q@);
        i = i + 1;
    }
    assert(v@.take(v@.len() as int) =~= v@);
    done
}

/// Replaces one text by another wherever it stands.
pub fn replace(s: &str, p: &str, q: &str) -> (r: String)
    ensures
        r@ == replaced(s@, p@, q@),
{
    let v = chars_of(s);
    let pattern = chars_of(p);
    let other = chars_of(q);
    if pattern.len() == 0 {
        return text_of(interleave(v.as_slice(), other.as_slice()).as_slice());
    }
    let mut done: Vec<char> = Vec::new();
    let mut i: usize = 0;
    assert(done@ + replaced_from(v@, pattern@, other@, 0) =~= replaced_from(
        v@,
        pattern@,
        other@,
        0,
    ));
    while i < v.len()
        invariant
            i <= v.len(),
            pattern@.len() > 0,
            done@ + replaced_from(v@, pattern@, other@, i as int) == replaced_from(
                v@,
                pattern@,
                other@,
                0,
            ),
        decreases v.len() - i,
    {
        let ghost before = done@;
        match find_from(v.as_slice(), pattern.as_slice(), i) {
            None => {
                let n: usize = v.len();
                append(&mut done, v.as_slice(), i, n);
                assert(v@.subrange(i as int, n as int) =~= v@.skip(i as int));
                i = n;
                assert(done@ + replaced_from(v@, pattern@, other@, n as int) =~= done@);
            },
            Some(k) => {
                append(&mut done, v.as_slice(), i, k);
                append(&mut done, other.as_slice(), 0, other.len());
                let next: usize = k + pattern.len();
                assert(other@.subrange(0, other@.len() as int) =~= other@);
                assert(done@ + replaced_from(v@, pattern@, other@, next as int) =~= before + (
                v@.subrange(i as int, k as int) + other@ + replaced_from(
                    v@,
                    pattern@,
                    other@,
                    next as int,
                )));
                i = next;
            },
        }
    }
    assert(done@ + replaced_from(v@, pattern@, other@, i as int) =~= done@);
    text_of(done.as_slice())
}

/// The first characters of a text, up to a number.
pub open spec fn shortened(s: Seq<char>, limit: nat) -> Seq<char> {
    if s.len() <= limit {
        s
    } else {
        s.take(limit as int)
    }
}

/// The first characters of a text, up to a number.
pub fn shorten(s: &str, limit: usize) -> (r: String)
    ensures
        r@ == shortened(s@, limit as nat),
{
    let v = chars_of(s);
    if v.len() <= limit {
        return s.to_owned();
    }
    let r = text_of(vstd::slice::slice_subrange(v.as_slice(), 0, limit));
    assert(r@ =~= s@.take(limit as int));
    r
}

/// Whether a text ends with another one.
pub open spec fn has_suffix(s: Seq<char>, p: Seq<char>) -> bool {
    p.len() <= s.len() && s.skip(s.len() - p.len()) == p
}

/// Whether a text ends with another one.
pub fn ends_with(s: &str, p: &str) -> (r: bool)
    ensures
        r == has_suffix(s@, p@),
{
    let v = chars_of(s);
    let w = chars_of(p);
    if w.len() > v.len() {
        return false;
    }
    let at: usize = v.len() - w.len();
    let end: usize = v.len();
    let last = text_of(vstd::slice::slice_subrange(v.as_slice(), at, end));
    assert(last@ =~= s@.skip(s@.len() - p@.len()));
    crate::text::same_text(last.as_str(), p)
}

/// The parts of a text before and behind the first of a character, where it is there.
pub open spec fn halves(s: Seq<char>, c: char) -> Option<(Seq<char>, Seq<char>)> {
    match found_from(s, seq![c], 0) {
        None => None,
        Some(k) => Some((s.take(k), s.skip(k + 1))),
    }
}

/// The parts of a text before and behind the first of a character, where it is there.
pub fn split_once(s: &str, c: char) -> (r: Option<(String, String)>)
    ensures
        r.deep_view() == halves(s@, c),
{
    let v = chars_of(s);
    let p = vec![c];
    assert(p@ =~= seq![c]);
    match find_from(v.as_slice(), p.as_slice(), 0) {
        None => None,
        Some(k) => {
            let end: usize = v.len();
            let head = text_of(vstd::slice::slice_subrange(v.as_slice(), 0, k));
            let tail = text_of(vstd::slice::slice_subrange(v.as_slice(), k + 1, end));
            assert(head@ =~= s@.take(k as int));
            assert(tail@ =~= s@.skip(k + 1));
            Some((head, tail))
        },
    }
}

/// Trimming a text twice is trimming it once.
pub proof fn trimming_is_idempotent(s: Seq<char>)
    ensures
        trimmed(trimmed(s)) == trimmed(s),
{
    let a = trimmed_start(s);
    start_is_clean(s);
    end_keeps_start(a);
    end_is_clean(a);
    let b = trimmed_end(a);
    assert(trimmed_start(b) == b);
}

proof fn start_is_clean(s: Seq<char>)
    ensures
        trimmed_start(s).len() > 0 ==> !is_white(trimmed_start(s)[0]),
    decreases s.len(),
{
    if s.len() > 0 && is_white(s[0]) {
        start_is_clean(s.drop_first());
    }
}

proof fn end_is_clean(s: Seq<char>)
    ensures
        trimmed_end(trimmed_end(s)) == trimmed_end(s),
    decreases s.len(),
{
    if s.len() > 0 && is_white(s.last()) {
        end_is_clean(s.drop_last());
    }
}

proof fn end_keeps_start(s: Seq<char>)
    ensures
        trimmed_end(s).len() > 0 ==> s.len() > 0 && trimmed_end(s)[0] == s[0],
    decreases s.len(),
{
    if s.len() > 0 && is_white(s.last()) {
        end_keeps_start(s.drop_last());
    }
}

} // verus!
