//! Identities of Kotlin callables.

use vstd::prelude::*;
use vstd::string::*;

use crate::error::{invalid, outcome, refused, ClewError, ErrorModel};
use crate::text::{after_prefix, chars_of, find, found, has_prefix, strip_prefix};

verus! {

/// The callable family that a full symbol identity names: what stands between
/// `callable:` and the first `#jvm:`.
pub open spec fn callable_family(symbol: Seq<char>) -> Option<Seq<char>> {
    if has_prefix(symbol, "callable:"@) {
        let rest = after_prefix(symbol, "callable:"@);
        match found(rest, "#jvm:"@) {
            Some(i) => Some(rest.take(i)),
            None => None,
        }
    } else {
        None
    }
}

/// The JVM descriptor of a full symbol identity: what follows the first `#jvm:`.
pub open spec fn jvm_descriptor_of(symbol: Seq<char>) -> Option<Seq<char>> {
    if has_prefix(symbol, "callable:"@) {
        let rest = after_prefix(symbol, "callable:"@);
        match found(rest, "#jvm:"@) {
            Some(i) => Some(rest.skip(i + 5)),
            None => None,
        }
    } else {
        None
    }
}

/// A full symbol identity: `callable:`, a callable family, `#jvm:` and a JVM
/// descriptor, neither of the two empty.
pub open spec fn is_full_symbol(symbol: Seq<char>) -> bool {
    &&& callable_family(symbol) is Some
    &&& callable_family(symbol).unwrap().len() > 0
    &&& jvm_descriptor_of(symbol).unwrap().len() > 0
}

/// The outcome for a text that should be a full symbol identity.
pub open spec fn full_symbol_checked(symbol: Seq<char>) -> Result<(), ErrorModel> {
    if is_full_symbol(symbol) {
        Ok(())
    } else {
        refused("Kotlin full symbol identity is invalid"@)
    }
}

/// The callable family and the JVM descriptor of a full symbol identity.
fn symbol_parts(symbol: &str) -> (r: Option<(String, String)>)
    ensures
        match r {
            Some((family, descriptor)) => callable_family(symbol@) == Some(family@)
                && jvm_descriptor_of(symbol@) == Some(descriptor@),
            None => callable_family(symbol@) is None,
        },
{
    match strip_prefix(symbol, "callable:") {
        Some(rest) => {
            let v = chars_of(rest.as_str());
            let p = chars_of("#jvm:");
            proof {
                reveal_strlit("#jvm:");
            }
            match find(v.as_slice(), p.as_slice()) {
                Some(i) => {
                    let n: usize = rest.as_str().unicode_len();
                    let family = rest.as_str().substring_char(0, i);
                    let descriptor = rest.as_str().substring_char(i + 5, n);
                    assert(family@ =~= rest@.take(i as int));
                    assert(descriptor@ =~= rest@.skip(i + 5));
                    Some((family.to_owned(), descriptor.to_owned()))
                },
                None => None,
            }
        },
        None => None,
    }
}

/// The callable family that a full symbol identity names.
pub fn symbol_callable_family(symbol: &str) -> (r: Option<String>)
    ensures
        r.deep_view() == callable_family(symbol@),
{
    match symbol_parts(symbol) {
        Some((family, _)) => Some(family),
        None => None,
    }
}

/// Refuses a text that is no full symbol identity.
pub fn validate_kotlin_full_symbol_identity(symbol: &str) -> (r: Result<(), ClewError>)
    ensures
        outcome(r) == full_symbol_checked(symbol@),
{
    match symbol_parts(symbol) {
        Some((family, descriptor)) => if !family.as_str().is_empty()
            && !descriptor.as_str().is_empty() {
            Ok(())
        } else {
            Err(invalid("Kotlin full symbol identity is invalid"))
        },
        None => Err(invalid("Kotlin full symbol identity is invalid")),
    }
}

} // verus!
