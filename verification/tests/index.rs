use debrep::index::line::{serialize_record, serialize_records};
use debrep::index::merge::{find_conflict, flatten_entries, merge_entries, OwnershipConflict};
use debrep::index::reader::ContentReader;
use debrep::index::record::{record_le, ContentsEntry, FileOwnershipRecord};
use debrep::index::sort::sort_records;

fn record(path: &str, package: &str) -> FileOwnershipRecord {
    FileOwnershipRecord { path: path.as_bytes().to_vec(), package: package.as_bytes().to_vec() }
}

fn entry(package: &str, files: &[&str]) -> ContentsEntry {
    ContentsEntry {
        package: package.as_bytes().to_vec(),
        files: files.iter().map(|f| f.as_bytes().to_vec()).collect(),
    }
}

fn pairs(records: &[FileOwnershipRecord]) -> Vec<(String, String)> {
    records
        .iter()
        .map(|r| {
            (
                String::from_utf8(r.path.clone()).unwrap(),
                String::from_utf8(r.package.clone()).unwrap(),
            )
        })
        .collect()
}

fn drain(mut reader: ContentReader, chunk: usize) -> Vec<u8> {
    let mut out = Vec::new();
    let mut buf = vec![0u8; chunk];
    loop {
        let n = reader.read(&mut buf);
        if n == 0 {
            break;
        }
        assert!(n <= chunk);
        out.extend_from_slice(&buf[..n]);
    }
    out
}

fn many_records(count: usize) -> Vec<FileOwnershipRecord> {
    let mut records = Vec::new();
    for i in 0..count {
        let path = format!("./usr/share/doc/pkg{}/file{:05}", i % 7, i);
        let package = format!("section{}/pkg{}", i % 3, i % 7);
        records.push(record(&path, &package));
    }
    records
}

#[test]
fn line_format_strips_dot_slash() {
    let line = serialize_record(&record("./usr/bin/atom", "editors/atom-editor"));
    assert_eq!(line, b"usr/bin/atom  editors/atom-editor\n".to_vec());
}

#[test]
fn line_format_keeps_path_without_dot_slash() {
    let line = serialize_record(&record("usr/bin/atom", "editors/atom-editor"));
    assert_eq!(line, b"usr/bin/atom  editors/atom-editor\n".to_vec());
}

#[test]
fn line_format_strips_only_one_leading_dot_slash() {
    let line = serialize_record(&record("././a", "s/p"));
    assert_eq!(line, b"./a  s/p\n".to_vec());
}

#[test]
fn line_format_of_short_paths() {
    assert_eq!(serialize_record(&record("", "s/p")), b"  s/p\n".to_vec());
    assert_eq!(serialize_record(&record(".", "s/p")), b".  s/p\n".to_vec());
    assert_eq!(serialize_record(&record("./", "s/p")), b"  s/p\n".to_vec());
    assert_eq!(serialize_record(&record("/", "s/p")), b"/  s/p\n".to_vec());
}

#[test]
fn serialize_records_concatenates_lines() {
    let records = vec![record("./a", "x/p"), record("b/c", "y/q")];
    assert_eq!(serialize_records(&records), b"a  x/p\nb/c  y/q\n".to_vec());
    assert_eq!(serialize_records(&Vec::new()), Vec::<u8>::new());
}

#[test]
fn record_order_is_by_path_then_package() {
    assert!(record_le(&record("a", "z"), &record("b", "a")));
    assert!(!record_le(&record("b", "a"), &record("a", "z")));
    assert!(record_le(&record("a", "p"), &record("a", "q")));
    assert!(!record_le(&record("a", "q"), &record("a", "p")));
    assert!(record_le(&record("a", "p"), &record("a", "p")));
    // A proper prefix comes first; bytes compare unsigned.
    assert!(record_le(&record("a", "p"), &record("ab", "p")));
    assert!(record_le(&record("a/b", "p"), &record("a0", "p")));
    let high = FileOwnershipRecord { path: vec![0xff], package: b"p".to_vec() };
    assert!(record_le(&record("z", "p"), &high));
    assert!(!record_le(&high, &record("z", "p")));
}

#[test]
fn sort_orders_bytewise() {
    let sorted = sort_records(vec![
        record("usr/lib/b", "s/two"),
        record("etc/a", "s/one"),
        record("usr/bin/z", "s/two"),
        record("Usr/bin", "s/three"),
        record("usr/bin", "s/one"),
    ]);
    assert_eq!(
        pairs(&sorted),
        vec![
            ("Usr/bin".to_string(), "s/three".to_string()),
            ("etc/a".to_string(), "s/one".to_string()),
            ("usr/bin".to_string(), "s/one".to_string()),
            ("usr/bin/z".to_string(), "s/two".to_string()),
            ("usr/lib/b".to_string(), "s/two".to_string()),
        ]
    );
}

#[test]
fn sort_keeps_every_record() {
    let sorted = sort_records(vec![record("b", "q"), record("a", "p"), record("b", "q"), record("b", "a")]);
    assert_eq!(
        pairs(&sorted),
        vec![
            ("a".to_string(), "p".to_string()),
            ("b".to_string(), "a".to_string()),
            ("b".to_string(), "q".to_string()),
            ("b".to_string(), "q".to_string()),
        ]
    );
    assert!(sort_records(Vec::new()).is_empty());
    assert_eq!(pairs(&sort_records(vec![record("x", "y")])), vec![("x".to_string(), "y".to_string())]);
}

#[test]
fn sort_of_many_records_is_ordered() {
    let mut records = many_records(1500);
    records.reverse();
    let sorted = sort_records(records);
    assert_eq!(sorted.len(), 1500);
    for w in sorted.windows(2) {
        assert!(w[0].path < w[1].path);
    }
}

#[test]
fn flatten_lists_claims_entry_after_entry() {
    let entries = vec![entry("s/one", &["./b", "./a"]), entry("s/none", &[]), entry("t/two", &["./c"])];
    assert_eq!(
        pairs(&flatten_entries(&entries)),
        vec![
            ("./b".to_string(), "s/one".to_string()),
            ("./a".to_string(), "s/one".to_string()),
            ("./c".to_string(), "t/two".to_string()),
        ]
    );
}

#[test]
fn find_conflict_reports_first_equal_neighbours() {
    let none = vec![record("a", "p"), record("b", "p"), record("c", "q")];
    assert_eq!(find_conflict(&none), None);
    let some = vec![record("a", "p"), record("b", "p"), record("b", "q"), record("c", "q"), record("c", "r")];
    assert_eq!(find_conflict(&some), Some(1));
    assert_eq!(find_conflict(&Vec::new()), None);
    assert_eq!(find_conflict(&vec![record("a", "p")]), None);
}

#[test]
fn merge_of_disjoint_packages_succeeds() {
    let entries = vec![
        entry("editors/atom-editor", &["./usr/bin/atom", "./usr/share/atom/resources"]),
        entry("utils/tool", &["./usr/bin/tool"]),
    ];
    let merged = merge_entries(&entries);
    let records = match merged {
        Ok(records) => records,
        Err(_) => panic!("disjoint packages must merge"),
    };
    assert_eq!(
        serialize_records(&records),
        b"usr/bin/atom  editors/atom-editor\nusr/bin/tool  utils/tool\nusr/share/atom/resources  editors/atom-editor\n"
            .to_vec()
    );
}

#[test]
fn merge_detects_shared_path() {
    let entries = vec![
        entry("editors/one", &["./usr/bin/a", "./usr/bin/shared"]),
        entry("editors/two", &["./usr/bin/shared", "./usr/bin/z"]),
    ];
    match merge_entries(&entries) {
        Ok(_) => panic!("a shared path must fail the merge"),
        Err(OwnershipConflict { first, second, path }) => {
            assert_eq!(first, b"editors/one".to_vec());
            assert_eq!(second, b"editors/two".to_vec());
            assert_eq!(path, b"./usr/bin/shared".to_vec());
        }
    }
}

#[test]
fn merge_conflict_does_not_depend_on_the_order_of_packages() {
    let entries = vec![
        entry("editors/two", &["./usr/bin/shared", "./usr/bin/z"]),
        entry("editors/one", &["./usr/bin/a", "./usr/bin/shared"]),
    ];
    match merge_entries(&entries) {
        Ok(_) => panic!("a shared path must fail the merge"),
        Err(conflict) => {
            assert_eq!(conflict.first, b"editors/one".to_vec());
            assert_eq!(conflict.second, b"editors/two".to_vec());
            assert_eq!(conflict.path, b"./usr/bin/shared".to_vec());
            assert_eq!(
                conflict.message(),
                b"editors/one and editors/two both have ./usr/bin/shared".to_vec()
            );
        }
    }
}

#[test]
fn merge_reports_the_least_shared_path() {
    let entries = vec![
        entry("s/a", &["./y", "./x"]),
        entry("s/b", &["./y", "./x"]),
        entry("s/c", &["./x"]),
    ];
    match merge_entries(&entries) {
        Ok(_) => panic!("shared paths must fail the merge"),
        Err(conflict) => {
            assert_eq!(conflict.path, b"./x".to_vec());
            assert_eq!(conflict.first, b"s/a".to_vec());
            assert_eq!(conflict.second, b"s/b".to_vec());
        }
    }
}

#[test]
fn merge_fails_when_one_package_claims_a_path_twice() {
    let entries = vec![entry("s/a", &["./x", "./x"])];
    match merge_entries(&entries) {
        Ok(_) => panic!("a path claimed twice must fail the merge"),
        Err(conflict) => {
            assert_eq!(conflict.first, b"s/a".to_vec());
            assert_eq!(conflict.second, b"s/a".to_vec());
            assert_eq!(conflict.path, b"./x".to_vec());
        }
    }
}

#[test]
fn merge_of_nothing_is_empty() {
    match merge_entries(&Vec::new()) {
        Ok(records) => assert!(records.is_empty()),
        Err(_) => panic!("nothing cannot conflict"),
    }
}

#[test]
fn merge_is_deterministic() {
    let forward = vec![
        entry("s/a", &["./usr/a1", "./usr/a2"]),
        entry("s/b", &["./usr/b1"]),
        entry("s/c", &["./etc/c1", "./var/c2"]),
    ];
    let backward = vec![
        entry("s/c", &["./var/c2", "./etc/c1"]),
        entry("s/b", &["./usr/b1"]),
        entry("s/a", &["./usr/a2", "./usr/a1"]),
    ];
    let one = serialize_records(&merge_entries(&forward).ok().unwrap());
    let again = serialize_records(&merge_entries(&forward).ok().unwrap());
    let other = serialize_records(&merge_entries(&backward).ok().unwrap());
    assert_eq!(one, again);
    assert_eq!(one, other);
    assert_eq!(one, b"etc/c1  s/c\nusr/a1  s/a\nusr/a2  s/a\nusr/b1  s/b\nvar/c2  s/c\n".to_vec());
}

#[test]
fn reader_yields_the_same_bytes_for_every_chunk_size() {
    let expected = serialize_records(&sort_records(many_records(1200)));
    assert!(expected.len() > 1200 * 20);
    let by_one = drain(ContentReader::new(sort_records(many_records(1200))), 1);
    let by_seventeen = drain(ContentReader::new(sort_records(many_records(1200))), 17);
    let by_many = drain(ContentReader::new(sort_records(many_records(1200))), 65536);
    assert_eq!(by_one, expected);
    assert_eq!(by_seventeen, expected);
    assert_eq!(by_many, expected);
}

#[test]
fn reader_serves_leftovers_before_new_lines() {
    // Lines of 7 bytes each: "a  s/p\n", "b  s/p\n", "c  s/p\n".
    let mut reader = ContentReader::new(vec![record("./a", "s/p"), record("./b", "s/p"), record("./c", "s/p")]);
    let mut buf = [0u8; 10];
    // An empty buffer is filled line by line until it holds 10 bytes: two lines.
    assert_eq!(reader.read(&mut buf), 10);
    assert_eq!(&buf, b"a  s/p\nb  ");
    // Four bytes are left over and are handed out alone.
    assert_eq!(reader.read(&mut buf), 4);
    assert_eq!(&buf[..4], b"s/p\n");
    // The rest of the caller's buffer is left as it was.
    assert_eq!(&buf[4..], b"/p\nb  ");
    assert_eq!(reader.read(&mut buf), 7);
    assert_eq!(&buf[..7], b"c  s/p\n");
    assert_eq!(reader.read(&mut buf), 0);
    assert_eq!(reader.read(&mut buf), 0);
}

#[test]
fn reader_with_empty_buffer_or_no_records() {
    let mut reader = ContentReader::new(vec![record("./a", "s/p")]);
    let mut none: [u8; 0] = [];
    assert_eq!(reader.read(&mut none), 0);
    let mut buf = [0u8; 3];
    assert_eq!(reader.read(&mut buf), 3);
    assert_eq!(&buf, b"a  ");
    assert_eq!(reader.read(&mut none), 0);
    assert_eq!(reader.read(&mut buf), 3);
    assert_eq!(&buf, b"s/p");
    assert_eq!(reader.read(&mut buf), 1);
    assert_eq!(buf[0], b'\n');
    assert_eq!(reader.read(&mut buf), 0);

    let mut empty = ContentReader::new(Vec::new());
    assert_eq!(empty.read(&mut buf), 0);
}
