//! Canonical JSON, digests, texts, tables and closures.

use clew::canonical;
use clew::cas::CasObject;
use clew::closure::{close, ClosureMessages};
use clew::error::ErrorCode;
use clew::fair::take_fairly;
use clew::json::{decimal, list, Json};
use clew::record::Record;
use clew::retained::{
    decide_publication, digits_of_id, read_object, settle_creation, source_path, ObjectRead,
    Publication,
};
use clew::table;
use clew::text;
use clew::words;

fn string(value: &str) -> Json {
    Json::Str(value.to_owned())
}

fn strings(values: &[&str]) -> Vec<String> {
    values.iter().map(|value| (*value).to_owned()).collect()
}

#[test]
fn digests_are_sha256_in_lower_case_hexadecimal() {
    assert_eq!(
        canonical::hash_bytes(b"abc"),
        "sha256:ba7816bf8f01cfea414140de5dae2223b00361a396177a9cb410ff61f20015ad"
    );
    assert_eq!(
        canonical::hash_bytes(b""),
        "sha256:e3b0c44298fc1c149afbf4c8996fb92427ae41e4649b934ca495991b7852b855"
    );
    assert!(text::sha256_digest(&canonical::hash_bytes(b"abc")));
    assert_eq!(
        canonical::hash(&Json::Null),
        canonical::hash_bytes(b"null")
    );
}

#[test]
fn canonical_json_sorts_members_and_escapes_texts() {
    let value = Json::object()
        .with("b", list(vec![Json::Uint(2), Json::Int(-1), Json::Null]))
        .with("a", string("quote \" backslash \\ line\nbell\u{7}é"))
        .with("c", Json::Bool(true))
        .with("a\"", Json::Decimal("1.5".to_owned()));
    assert_eq!(
        value.encode(),
        "{\"a\":\"quote \\\" backslash \\\\ line\\nbell\\u0007é\",\
         \"a\\\"\":1.5,\"b\":[2,-1,null],\"c\":true}"
    );
    assert_eq!(value.bytes(), value.encode().as_bytes());
}

#[test]
fn members_are_replaced_and_found() {
    let value = Json::object()
        .with("n", Json::Uint(1))
        .with("n", Json::Uint(2))
        .with_some("absent", None)
        .with_some("s", Some(string("x")));
    assert_eq!(value.encode(), "{\"n\":2,\"s\":\"x\"}");
    assert_eq!(value.u64_at("n"), Some(2));
    assert_eq!(value.str_at("s").map(String::as_str), Some("x"));
    assert!(value.get("absent").is_none());
    assert!(value.str_at("n").is_none());
}

#[test]
fn integers_are_written_in_decimal() {
    assert_eq!(decimal(0), "0");
    assert_eq!(decimal(10), "10");
    assert_eq!(decimal(u64::MAX), "18446744073709551615");
    assert_eq!(Json::Int(i64::MIN).encode(), "-9223372036854775808");
}

#[test]
fn composed_texts_are_in_normal_form() {
    assert!(text::is_nfc("\u{e9}"));
    assert!(!text::is_nfc("e\u{301}"));
    assert!(text::plain("\u{e9}", 2));
    assert!(!text::plain("\u{e9}", 1));
    assert!(!text::plain("e\u{301}", 8));
    assert!(!text::plain("a\u{1}", 8));
    assert!(!text::plain("", 8));
}

#[test]
fn texts_are_ordered_by_their_bytes() {
    assert!(text::text_before("B", "a"));
    assert!(text::text_before("a", "ab"));
    assert!(!text::text_before("a", "a"));
    // The order of UTF-8 is that of the scalar values, not that of UTF-16.
    assert!(text::text_before("\u{ffff}", "\u{10000}"));
}

#[test]
fn relative_paths_stay_below_their_root() {
    for path in ["a", "a/b.kt", "...", "a/.hidden"] {
        assert!(text::relative_path(path), "{path}");
        assert!(source_path(path), "{path}");
    }
    for path in ["", "/a", "a/", "a//b", "../a", "a/./b", ".."] {
        assert!(!text::relative_path(path), "{path}");
    }
}

#[test]
fn parts_of_texts_are_found_and_cut() {
    assert_eq!(text::split("a//b", '/'), strings(&["a", "", "b"]));
    assert_eq!(text::split("", '/'), strings(&[""]));
    assert_eq!(text::strip_prefix("tx:1", "tx:"), Some("1".to_owned()));
    assert_eq!(text::strip_prefix("x:1", "tx:"), None);
    assert!(text::contains_text("abcabd", "abd"));
    assert!(!text::contains_text("abcab", "abd"));
    assert_eq!(
        words::split_once("k=v=w", '='),
        Some(("k".to_owned(), "v=w".to_owned()))
    );
    assert_eq!(words::trim(&words::trim("\u{a0} a b \n")), words::trim("\u{a0} a b \n"));
    assert_eq!(words::trim("\u{a0} a b \n"), "a b");
}

#[test]
fn identifiers_hold_the_digits_of_a_digest() {
    let digits = "0f".repeat(32);
    let id = format!("thread-impact:sha256:{digits}");
    assert_eq!(digits_of_id(&id, "thread-impact:sha256:"), Some(digits.clone()));
    assert_eq!(digits_of_id(&id, "thread-flow:sha256:"), None);
    assert_eq!(
        digits_of_id(&id.replace("0f", "0F"), "thread-impact:sha256:"),
        None
    );
    assert_eq!(digits_of_id(&id[..id.len() - 1], "thread-impact:sha256:"), None);
}

#[test]
fn tables_are_sorted_and_hold_each_key_once() {
    let sorted = table::sort(&strings(&["b", "a", "b"]));
    assert_eq!(sorted, strings(&["a", "b", "b"]));
    assert!(table::has_repeats(&sorted));
    let keys = table::table_of(&strings(&["b", "a", "b"]));
    assert_eq!(keys, strings(&["a", "b"]));
    assert_eq!(table::table_of(&keys), keys);
    assert!(table::contains_key(&keys, "a"));
    assert!(!table::contains_key(&keys, "c"));
    let mut keys = keys;
    assert!(!table::enter_new(&mut keys, "a".to_owned()));
    assert!(table::enter_new(&mut keys, "0".to_owned()));
    assert_eq!(keys, strings(&["0", "a", "b"]));
}

#[test]
fn the_first_and_the_last_record_of_a_key_are_kept() {
    let first = CasObject::for_bytes("first", b"x");
    let second = CasObject::for_bytes("second", b"x");
    let records = vec![first.copied(), second.copied()];
    assert_eq!(table::table_of(&records), vec![first]);
    assert_eq!(table::latest_table_of(&records), vec![second]);
}

#[test]
fn values_are_taken_from_lanes_in_turn() {
    let lanes = vec![strings(&["a1", "a2", "a3"]), strings(&[]), strings(&["b1"])];
    assert_eq!(take_fairly(&lanes, 3), strings(&["a1", "b1", "a2"]));
    assert_eq!(take_fairly(&lanes, 9), strings(&["a1", "b1", "a2", "a3"]));
    assert!(take_fairly(&lanes, 0).is_empty());
}

fn messages() -> ClosureMessages<'static> {
    ClosureMessages {
        invalid: "reference is invalid",
        conflict: "references conflict",
        unrepresentable: "size is unrepresentable",
        overflow: "sizes overflow",
        exceeded: "closure exceeds its bound",
    }
}

#[test]
fn closures_are_canonical_and_bounded() {
    let x = CasObject::for_bytes("schema", b"xx");
    let y = CasObject::for_bytes("schema", b"yyy");
    let one = close(&vec![x.copied(), y.copied(), x.copied()], 5, &messages());
    let other = close(&vec![y.copied(), x.copied()], 5, &messages());
    assert_eq!(one, other);
    assert_eq!(one.map(|(closure, bytes)| (closure.len(), bytes)), Ok((2, 5)));

    let error = close(&vec![x.copied(), y.copied()], 4, &messages()).unwrap_err();
    assert_eq!(error.message, "closure exceeds its bound");
    assert_eq!(error.code, ErrorCode::SliceBudgetExceeded);

    let mut wrong = x.copied();
    wrong.size += 1;
    let error = close(&vec![x.copied(), wrong], 64, &messages()).unwrap_err();
    assert_eq!(error.message, "references conflict");
    let mut wrong = x.copied();
    wrong.size = 0;
    let error = close(&vec![wrong], 64, &messages()).unwrap_err();
    assert_eq!(error.message, "reference is invalid");
    let mut huge = x.copied();
    huge.size = u64::MAX;
    let error = close(&vec![huge, y], usize::MAX, &messages()).unwrap_err();
    assert_eq!(error.message, "sizes overflow");
}

#[test]
fn objects_are_read_as_their_reference_says() {
    let reference = CasObject::for_bytes("schema", b"bytes");
    let found = vec![ObjectRead {
        reference: reference.copied(),
        bytes: Some(b"bytes".to_vec()),
    }];
    assert_eq!(read_object(&found, &reference), Ok(&b"bytes".to_vec()));
    for bytes in [None, Some(b"other".to_vec())] {
        let wrong = vec![ObjectRead {
            reference: reference.copied(),
            bytes,
        }];
        let error = read_object(&wrong, &reference).unwrap_err();
        assert_eq!(error.code, ErrorCode::StateCorrupt);
    }
    assert!(read_object(&vec![], &reference).is_err());
}

#[test]
fn roots_are_published_once() {
    let root = b"root".to_vec();
    let other = b"other".to_vec();
    assert_eq!(decide_publication(None, &root, "bound"), Ok(Publication::Write));
    assert_eq!(
        decide_publication(Some(&root), &root, "bound"),
        Ok(Publication::AlreadyPublished)
    );
    let error = decide_publication(Some(&other), &root, "bound").unwrap_err();
    assert_eq!(error.code, ErrorCode::BindingChanged);
    assert_eq!(error.message, "bound");
    assert_eq!(settle_creation(true, &root, &root, "raced"), Ok(()));
    assert_eq!(settle_creation(false, &root, &root, "raced"), Ok(()));
    let error = settle_creation(false, &other, &root, "raced").unwrap_err();
    assert_eq!(error.message, "raced");
}

#[test]
fn canonical_bytes_tell_values_apart() {
    let str = |s: &str| Json::Str(s.to_owned());
    let values = vec![
        Json::Null,
        Json::Bool(true),
        Json::Bool(false),
        Json::Uint(1),
        Json::Uint(11),
        str(""),
        str("null"),
        str("\""),
        str("\\"),
        str("\\\""),
        str("\n"),
        str("\\n"),
        str("\u{1}"),
        str("\\u0001"),
        Json::Arr(Vec::new()),
        Json::Arr(vec![Json::Uint(1), Json::Uint(1)]),
        Json::Arr(vec![Json::Uint(11)]),
        Json::Arr(vec![str("a,b")]),
        Json::Arr(vec![str("a"), str("b")]),
        Json::Arr(vec![Json::Arr(Vec::new())]),
        Json::object(),
        Json::object().with("a", Json::Null),
        Json::object().with("a", Json::object()),
        Json::object().with("a\":null,\"b", Json::Null),
        Json::object().with("a", Json::Null).with("b", Json::Null),
    ];
    for (i, a) in values.iter().enumerate() {
        for (j, b) in values.iter().enumerate() {
            assert_eq!(a.bytes() == b.bytes(), i == j);
        }
    }
    assert_eq!(str("\u{1}\"\n").bytes(), b"\"\\u0001\\\"\\n\"".to_vec());
}
