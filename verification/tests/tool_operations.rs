//! End-to-end checks of the four tool operations against the in-memory store.

use mcp_forge::store::FileStore;
use mcp_forge::tools::{
    decode_contents, delete, delete_file, fetch, fetch_file, store, store_file, update,
    update_file,
};

#[test]
fn store_then_fetch_round_trip() {
    let mut fs = FileStore::new();
    let rid = String::from("notes.txt");
    let payload = String::from("hello");
    let o = store(&mut fs, &rid, &payload);
    assert!(o.succeeded());
    assert_eq!(o.flatten(), "File stored successfully");
    let f = fetch(&fs, &rid);
    assert!(f.succeeded());
    assert_eq!(f.flatten(), "hello");
}

#[test]
fn store_then_fetch_round_trip_non_ascii() {
    let mut fs = FileStore::new();
    let rid = String::from("unicode.txt");
    let payload = String::from("héllo wörld — ✓ 校验");
    let o = store(&mut fs, &rid, &payload);
    assert!(o.succeeded());
    let f = fetch(&fs, &rid);
    assert!(f.succeeded());
    assert_eq!(f.flatten(), "héllo wörld — ✓ 校验");
}

#[test]
fn store_overwrites_previous_contents() {
    let mut fs = FileStore::new();
    let rid = String::from("notes.txt");
    let o1 = store(&mut fs, &rid, &String::from("first"));
    assert!(o1.succeeded());
    let o2 = store(&mut fs, &rid, &String::from("second"));
    assert!(o2.succeeded());
    let f = fetch(&fs, &rid);
    assert!(f.succeeded());
    assert_eq!(f.flatten(), "second");
}

#[test]
fn update_and_store_leave_identical_bytes() {
    let rid = String::from("same.txt");
    let payload = String::from("payload bytes");

    let mut stored = FileStore::new();
    let o1 = store(&mut stored, &rid, &payload);

    let mut updated = FileStore::new();
    let o2 = update(&mut updated, &rid, &payload);

    let b1 = stored.read_resource(&rid).expect("stored resource exists");
    let b2 = updated.read_resource(&rid).expect("updated resource exists");
    assert_eq!(b1, b2);

    // Only the confirmation strings differ.
    assert_eq!(o1.flatten(), "File stored successfully");
    assert_eq!(o2.flatten(), "File updated successfully");
}

#[test]
fn delete_existing_then_fetch_reports_missing() {
    let mut fs = FileStore::new();
    let rid = String::from("notes.txt");
    store(&mut fs, &rid, &String::from("hello"));
    assert!(fs.contains_resource(&rid));
    let d = delete(&mut fs, &rid);
    assert!(d.succeeded());
    assert_eq!(d.flatten(), "File deleted successfully");
    assert!(!fs.contains_resource(&rid));
    let f = fetch(&fs, &rid);
    assert!(!f.succeeded());
    assert_eq!(f.flatten(), "No such resource");
}

#[test]
fn delete_missing_returns_error_description() {
    let mut fs = FileStore::new();
    let d = delete(&mut fs, &String::from("never-stored.txt"));
    assert!(!d.succeeded());
    assert_eq!(d.flatten(), "No such resource");
}

#[test]
fn fetch_missing_returns_error_description() {
    let fs = FileStore::new();
    let f = fetch(&fs, &String::from("absent.txt"));
    assert!(!f.succeeded());
    assert_eq!(f.flatten(), "No such resource");
}

#[test]
fn fetch_undecodable_bytes_returns_decoding_error() {
    let mut fs = FileStore::new();
    let rid = String::from("binary.bin");
    fs.write_resource(&rid, vec![0xff, 0xfe, 0x80, 0x41]);
    let f = fetch(&fs, &rid);
    assert!(!f.succeeded());
    assert_eq!(f.flatten(), "Resource contents are not valid UTF-8");
}

#[test]
fn decode_contents_decodes_valid_bytes() {
    let bytes = vec![0x68, 0x69, 0x21];
    let o = decode_contents(bytes);
    assert!(o.succeeded());
    assert_eq!(o.flatten(), "hi!");
}

#[test]
fn decode_contents_rejects_lone_continuation_byte() {
    let o = decode_contents(vec![0x80]);
    assert!(!o.succeeded());
    assert_eq!(o.flatten(), "Resource contents are not valid UTF-8");
}

#[test]
fn decode_contents_rejects_overlong_encoding() {
    // 0xC0 0xAF is an overlong encoding of '/': syntactically shaped like
    // UTF-8 but forbidden by it.
    let o = decode_contents(vec![0xc0, 0xaf]);
    assert!(!o.succeeded());
    assert_eq!(o.flatten(), "Resource contents are not valid UTF-8");
}

#[test]
fn empty_payload_round_trips() {
    let mut fs = FileStore::new();
    let rid = String::from("empty.txt");
    let o = store(&mut fs, &rid, &String::from(""));
    assert!(o.succeeded());
    let f = fetch(&fs, &rid);
    assert!(f.succeeded());
    assert_eq!(f.flatten(), "");
}

#[test]
fn empty_resource_identifier_is_accepted() {
    let mut fs = FileStore::new();
    let rid = String::from("");
    let o = store(&mut fs, &rid, &String::from("anonymous"));
    assert!(o.succeeded());
    let f = fetch(&fs, &rid);
    assert!(f.succeeded());
    assert_eq!(f.flatten(), "anonymous");
}

#[test]
fn operations_on_one_resource_leave_others_alone() {
    let mut fs = FileStore::new();
    let a = String::from("a.txt");
    let b = String::from("b.txt");
    store(&mut fs, &a, &String::from("alpha"));
    store(&mut fs, &b, &String::from("beta"));
    update(&mut fs, &a, &String::from("alpha2"));
    delete(&mut fs, &a);
    let f = fetch(&fs, &b);
    assert!(f.succeeded());
    assert_eq!(f.flatten(), "beta");
    assert!(!fs.contains_resource(&a));
}

#[test]
fn flattened_tools_answer_with_single_strings() {
    let mut fs = FileStore::new();
    let rid = String::from("flat.txt");
    assert_eq!(
        store_file(&mut fs, &rid, &String::from("one")),
        "File stored successfully"
    );
    assert_eq!(fetch_file(&fs, &rid), "one");
    assert_eq!(
        update_file(&mut fs, &rid, &String::from("two")),
        "File updated successfully"
    );
    assert_eq!(fetch_file(&fs, &rid), "two");
    assert_eq!(delete_file(&mut fs, &rid), "File deleted successfully");
    assert_eq!(delete_file(&mut fs, &rid), "No such resource");
    assert_eq!(fetch_file(&fs, &rid), "No such resource");
}

#[test]
fn full_scenario() {
    let mut fs = FileStore::new();
    let rid = String::from("notes.txt");

    let s = store(&mut fs, &rid, &String::from("hello"));
    assert!(s.succeeded());

    let f1 = fetch(&fs, &rid);
    assert!(f1.succeeded());
    assert_eq!(f1.flatten(), "hello");

    let u = update(&mut fs, &rid, &String::from("world"));
    assert!(u.succeeded());

    let f2 = fetch(&fs, &rid);
    assert!(f2.succeeded());
    assert_eq!(f2.flatten(), "world");

    let d = delete(&mut fs, &rid);
    assert!(d.succeeded());

    let f3 = fetch(&fs, &rid);
    assert!(!f3.succeeded());
}
