use resource::Resource;
use resource::Snapshot;
use resource::Timestamp;

const FILES: [(&str, &str); 3] = [
    ("tests/string_a.txt", "String A\n"),
    ("tests/string_b.txt", "String B\n"),
    ("tests/string_c.txt", "String C\n"),
];

const BINARIES: [(&str, &[u8]); 3] = [
    ("tests/bytes_a.bin", b"Bytes A"),
    ("tests/bytes_b.bin", b"Bytes B"),
    ("tests/bytes_c.bin", b"Bytes C"),
];

fn text_reads() -> Vec<(String, Snapshot)> {
    FILES
        .iter()
        .map(|(path, text)| {
            let read = Snapshot { bytes: text.as_bytes().to_vec(), modified: Some(Timestamp { nanos: 42 }) };
            (path.to_string(), read)
        })
        .collect()
}

fn byte_reads() -> Vec<(String, Snapshot)> {
    BINARIES
        .iter()
        .map(|(path, bytes)| {
            let read = Snapshot { bytes: bytes.to_vec(), modified: Some(Timestamp { nanos: 42 }) };
            (path.to_string(), read)
        })
        .collect()
}

fn rev_string(string: &str) -> String {
    string.chars().rev().collect()
}

fn rev_bytes(bytes: &[u8]) -> Vec<u8> {
    bytes.iter().cloned().rev().collect()
}

fn three<T>(v: Vec<T>) -> (T, T, T) {
    let mut it = v.into_iter();
    let a = it.next().expect("three items");
    let b = it.next().expect("three items");
    let c = it.next().expect("three items");
    assert!(it.next().is_none());
    (a, b, c)
}

#[test]
fn lib_load_array_of_multiple_strings() {
    let all = Resource::<str>::load_all(text_reads()).expect("valid text");
    let (a, b, c) = three(all);
    assert_eq!([&*a, &*b, &*c], ["String A\n", "String B\n", "String C\n"]);
}

#[test]
fn lib_load_tuple_of_multiple_strings() {
    let (a, b, c) = three(Resource::<str>::load_all(text_reads()).expect("valid text"));
    assert_eq!(&*a, "String A\n");
    assert_eq!(b.content(), "String B\n");
    assert_eq!(c.content(), "String C\n");
}

#[test]
fn lib_load_array_of_multiple_bytes() {
    let (a, b, c) = three(Resource::<[u8]>::load_all(byte_reads()).expect("bytes always load"));
    assert_eq!(
        [&*a, &*b, &*c],
        [b"Bytes A".as_ref(), b"Bytes B".as_ref(), b"Bytes C".as_ref()]
    );
}

#[test]
fn lib_load_tuple_of_multiple_bytes() {
    let (a, b, c) = three(Resource::<[u8]>::load_all(byte_reads()).expect("bytes always load"));
    assert_eq!(a.as_ref(), b"Bytes A".as_ref());
    assert_eq!(b.as_ref(), b"Bytes B".as_ref());
    assert_eq!(c.as_ref(), b"Bytes C".as_ref());
}

#[test]
fn lib_load_with_fn_array_of_multiple_strings() {
    let out = Resource::<str>::load_all_with(text_reads(), rev_string).expect("valid text");
    let (a, b, c) = three(out);
    assert_eq!([a, b, c], ["\nA gnirtS", "\nB gnirtS", "\nC gnirtS"]);
}

#[test]
fn lib_load_with_fn_tuple_of_multiple_strings() {
    let (a, b, c) = three(Resource::<str>::load_all_with(text_reads(), rev_string).expect("valid text"));
    assert_eq!(a, "\nA gnirtS");
    assert_eq!(b, "\nB gnirtS");
    assert_eq!(c, "\nC gnirtS");
}

#[test]
fn lib_load_with_fn_array_of_multiple_bytes() {
    let out = Resource::<[u8]>::load_all_with(byte_reads(), rev_bytes).expect("bytes always load");
    let (a, b, c) = three(out);
    assert_eq!([a, b, c], [b"A setyB".as_ref(), b"B setyB".as_ref(), b"C setyB".as_ref()]);
}

#[test]
fn lib_load_with_fn_tuple_of_multiple_bytes() {
    let (a, b, c) =
        three(Resource::<[u8]>::load_all_with(byte_reads(), rev_bytes).expect("bytes always load"));
    assert_eq!(a, b"A setyB".as_ref());
    assert_eq!(b, b"B setyB".as_ref());
    assert_eq!(c, b"C setyB".as_ref());
}

#[test]
fn multi_file_tests_load_array_of_multiple_strings() {
    let (a, b, c) = three(Resource::<str>::embed_all(&["String A\n", "String B\n", "String C\n"]));
    assert_eq!([a.content(), b.content(), c.content()], ["String A\n", "String B\n", "String C\n"]);
}

#[test]
fn multi_file_tests_load_tuple_of_multiple_strings() {
    let (a, b, c) = three(Resource::<str>::embed_all(&["String A\n", "String B\n", "String C\n"]));
    assert_eq!(a.content(), "String A\n");
    assert_eq!(b.content(), "String B\n");
    assert_eq!(c.content(), "String C\n");
}

#[test]
fn multi_file_tests_load_array_of_multiple_bytes() {
    let data: [&'static [u8]; 3] = [b"Bytes A", b"Bytes B", b"Bytes C"];
    let (a, b, c) = three(Resource::<[u8]>::embed_all(&data));
    assert_eq!(
        [a.content(), b.content(), c.content()],
        [b"Bytes A".as_ref(), b"Bytes B".as_ref(), b"Bytes C".as_ref()]
    );
}

#[test]
fn multi_file_tests_load_tuple_of_multiple_bytes() {
    let data: [&'static [u8]; 3] = [b"Bytes A", b"Bytes B", b"Bytes C"];
    let (a, b, c) = three(Resource::<[u8]>::embed_all(&data));
    assert_eq!(a.content(), b"Bytes A".as_ref());
    assert_eq!(b.content(), b"Bytes B".as_ref());
    assert_eq!(c.content(), b"Bytes C".as_ref());
}

#[test]
fn multi_file_tests_load_with_fn_array_of_multiple_strings() {
    let out = Resource::<str>::embed_all_with(&["String A\n", "String B\n", "String C\n"], rev_string);
    let (a, b, c) = three(out);
    assert_eq!([a, b, c], ["\nA gnirtS", "\nB gnirtS", "\nC gnirtS"]);
}

#[test]
fn multi_file_tests_load_with_fn_tuple_of_multiple_strings() {
    let (a, b, c) =
        three(Resource::<str>::embed_all_with(&["String A\n", "String B\n", "String C\n"], rev_string));
    assert_eq!(a, "\nA gnirtS");
    assert_eq!(b, "\nB gnirtS");
    assert_eq!(c, "\nC gnirtS");
}

#[test]
fn multi_file_tests_load_with_fn_array_of_multiple_bytes() {
    let data: [&'static [u8]; 3] = [b"Bytes A", b"Bytes B", b"Bytes C"];
    let (a, b, c) = three(Resource::<[u8]>::embed_all_with(&data, rev_bytes));
    assert_eq!([a, b, c], [b"A setyB".as_ref(), b"B setyB".as_ref(), b"C setyB".as_ref()]);
}

#[test]
fn multi_file_tests_load_with_fn_tuple_of_multiple_bytes() {
    let data: [&'static [u8]; 3] = [b"Bytes A", b"Bytes B", b"Bytes C"];
    let (a, b, c) = three(Resource::<[u8]>::embed_all_with(&data, rev_bytes));
    assert_eq!(a, b"A setyB".as_ref());
    assert_eq!(b, b"B setyB".as_ref());
    assert_eq!(c, b"C setyB".as_ref());
}

#[test]
fn batch_matches_single_loads_in_order() {
    let batch = Resource::<str>::load_all(text_reads()).expect("valid text");
    assert_eq!(batch.len(), 3);
    for (res, (path, read)) in batch.iter().zip(text_reads()) {
        let single = Resource::<str>::_from_file(path.clone(), read).expect("valid text");
        assert_eq!(res.content(), single.content());
        assert_eq!(res.source_path(), single.source_path());
        assert_eq!(res.fingerprint(), single.fingerprint());
    }
}

#[test]
fn repeated_paths_load_twice() {
    let mut reads = text_reads();
    reads.push(text_reads().remove(0));
    let batch = Resource::<str>::load_all(reads).expect("valid text");
    assert_eq!(batch.len(), 4);
    assert_eq!(batch[0].content(), batch[3].content());
    assert_eq!(batch[3].source_path(), Some("tests/string_a.txt"));
}

#[test]
fn transform_of_batch_is_map_of_loaded_batch() {
    let direct = Resource::<str>::load_all_with(text_reads(), rev_string).expect("valid text");
    let loaded = Resource::<str>::load_all(text_reads()).expect("valid text");
    let mapped = Resource::<str>::transform_all(&loaded, rev_string);
    assert_eq!(direct, mapped);
    let loaded_bytes = Resource::<[u8]>::load_all(byte_reads()).unwrap();
    assert_eq!(
        Resource::<[u8]>::load_all_with(byte_reads(), rev_bytes).unwrap(),
        Resource::<[u8]>::transform_all(&loaded_bytes, rev_bytes)
    );
}

#[test]
fn one_invalid_file_fails_the_whole_batch() {
    let mut reads = text_reads();
    reads.insert(1, ("tests/bad.txt".to_string(), Snapshot { bytes: vec![0xc3, 0x28], modified: None }));
    assert!(Resource::<str>::load_all(reads).is_none());
    let mut reads = text_reads();
    reads.push(("tests/bad.txt".to_string(), Snapshot { bytes: vec![0xff], modified: None }));
    assert!(Resource::<str>::load_all_with(reads, rev_string).is_none());
}

#[test]
fn empty_batches() {
    assert!(Resource::<str>::load_all(Vec::new()).expect("nothing to fail").is_empty());
    assert!(Resource::<[u8]>::embed_all(&[]).is_empty());
    assert!(Resource::<str>::embed_all_with(&[], rev_string).is_empty());
}
