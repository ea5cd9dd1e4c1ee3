use debrep::download::compare::{requires_fetch, verify_digest, FileStat, RequestCompare};
use debrep::download::digest::{sha256_hex, to_hex};
use debrep::download::fetch::{Action, Event, Fetch, FetchError, Phase, ATTEMPTS};

const ABC_DIGEST: &str = "ba7816bf8f01cfea414140de5dae2223b00361a396177a9cb410ff61f20015ad";
const EMPTY_DIGEST: &str = "e3b0c44298fc1c149afbf4c8996fb92427ae41e4649b934ca495991b7852b855";

fn stat(len: u64, mtime: i64, content: &[u8]) -> FileStat {
    FileStat { len, mtime, content: content.to_vec() }
}

/// Feeds the events to a fresh fetch and returns the actions it answers with,
/// the first being the answer to the start.
fn run<'a>(compare: RequestCompare<'a>, events: Vec<Event>) -> (Vec<Action>, Fetch<'a>) {
    let (mut fetch, first) = Fetch::begin(compare);
    let mut actions = vec![first];
    for event in events {
        let (next, action) = fetch.step(event);
        fetch = next;
        actions.push(action);
    }
    (actions, fetch)
}

fn transfers(actions: &[Action]) -> usize {
    actions.iter().filter(|a| **a == Action::Transfer).count()
}

#[test]
fn to_hex_writes_two_lower_case_digits_per_byte() {
    assert_eq!(to_hex(&[0x00, 0x0f, 0xa0, 0xff, 0x9a]), b"000fa0ff9a".to_vec());
    assert_eq!(to_hex(&[]), Vec::<u8>::new());
    assert_eq!(to_hex(&[0x12, 0xab, 0xcd, 0xef]), b"12abcdef".to_vec());
}

#[test]
fn sha256_hex_of_known_inputs() {
    assert_eq!(sha256_hex(b"abc"), ABC_DIGEST.as_bytes().to_vec());
    assert_eq!(sha256_hex(b""), EMPTY_DIGEST.as_bytes().to_vec());
    assert_eq!(sha256_hex(b"abc").len(), 64);
}

#[test]
fn verify_digest_is_case_sensitive() {
    assert!(verify_digest(b"abc", ABC_DIGEST));
    assert!(!verify_digest(b"abd", ABC_DIGEST));
    assert!(!verify_digest(b"abc", &ABC_DIGEST.to_uppercase()));
    assert!(!verify_digest(b"abc", &ABC_DIGEST[..63]));
    assert!(!verify_digest(b"abc", ""));
}

#[test]
fn missing_file_is_always_fetched() {
    assert!(requires_fetch(None, &RequestCompare::Checksum(Some(ABC_DIGEST))));
    assert!(requires_fetch(None, &RequestCompare::Checksum(None)));
    assert!(requires_fetch(None, &RequestCompare::SizeAndModification(0, None)));
    assert!(requires_fetch(None, &RequestCompare::SizeAndModification(0, Some(0))));
}

#[test]
fn checksum_decides_by_content() {
    let good = stat(3, 100, b"abc");
    let bad = stat(3, 100, b"abd");
    assert!(!requires_fetch(Some(&good), &RequestCompare::Checksum(Some(ABC_DIGEST))));
    assert!(requires_fetch(Some(&bad), &RequestCompare::Checksum(Some(ABC_DIGEST))));
    let upper = ABC_DIGEST.to_uppercase();
    assert!(requires_fetch(Some(&good), &RequestCompare::Checksum(Some(&upper))));
    let empty = stat(0, 0, b"");
    assert!(!requires_fetch(Some(&empty), &RequestCompare::Checksum(Some(EMPTY_DIGEST))));
}

#[test]
fn absent_checksum_accepts_any_file() {
    assert!(!requires_fetch(Some(&stat(3, 100, b"abc")), &RequestCompare::Checksum(None)));
    assert!(!requires_fetch(Some(&stat(0, 0, b"")), &RequestCompare::Checksum(None)));
}

#[test]
fn size_and_time_must_be_exact() {
    let file = stat(1000, 1_500_000_000, b"");
    assert!(!requires_fetch(Some(&file), &RequestCompare::SizeAndModification(1000, None)));
    assert!(!requires_fetch(
        Some(&file),
        &RequestCompare::SizeAndModification(1000, Some(1_500_000_000))
    ));
    assert!(requires_fetch(Some(&file), &RequestCompare::SizeAndModification(999, None)));
    assert!(requires_fetch(Some(&file), &RequestCompare::SizeAndModification(1001, None)));
    assert!(requires_fetch(
        Some(&file),
        &RequestCompare::SizeAndModification(1000, Some(1_500_000_001))
    ));
    assert!(requires_fetch(
        Some(&file),
        &RequestCompare::SizeAndModification(1000, Some(1_499_999_999))
    ));
    assert!(requires_fetch(
        Some(&file),
        &RequestCompare::SizeAndModification(999, Some(1_500_000_000))
    ));
    let old = stat(5, -1, b"");
    assert!(!requires_fetch(Some(&old), &RequestCompare::SizeAndModification(5, Some(-1))));
    assert!(requires_fetch(Some(&old), &RequestCompare::SizeAndModification(5, Some(1))));
}

#[test]
fn fetch_asks_for_content_only_with_a_digest() {
    let (_, first) = Fetch::begin(RequestCompare::Checksum(Some(ABC_DIGEST)));
    assert_eq!(first, Action::Inspect { content: true });
    let (_, first) = Fetch::begin(RequestCompare::Checksum(None));
    assert_eq!(first, Action::Inspect { content: false });
    let (fetch, first) = Fetch::begin(RequestCompare::SizeAndModification(1, Some(2)));
    assert_eq!(first, Action::Inspect { content: false });
    assert_eq!(fetch.phase(), Phase::Inspecting);
    assert_eq!(fetch.transfers(), 0);
    assert_eq!(ATTEMPTS, 3);
}

#[test]
fn fetch_skips_a_satisfied_target() {
    let (actions, fetch) = run(
        RequestCompare::Checksum(Some(ABC_DIGEST)),
        vec![Event::Inspected(Some(stat(3, 0, b"abc")))],
    );
    assert_eq!(actions, vec![Action::Inspect { content: true }, Action::Done(0)]);
    assert_eq!(transfers(&actions), 0);
    assert_eq!(fetch.phase(), Phase::Finished);
    assert_eq!(fetch.transfers(), 0);

    let (actions, _) = run(
        RequestCompare::SizeAndModification(3, Some(77)),
        vec![Event::Inspected(Some(stat(3, 77, b"")))],
    );
    assert_eq!(actions, vec![Action::Inspect { content: false }, Action::Done(0)]);

    let (actions, _) =
        run(RequestCompare::Checksum(None), vec![Event::Inspected(Some(stat(9, 9, b"")))]);
    assert_eq!(actions, vec![Action::Inspect { content: false }, Action::Done(0)]);
}

#[test]
fn fetch_gives_up_after_three_transfers_with_a_wrong_digest() {
    let mut events = Vec::new();
    for round in 0..3u64 {
        events.push(Event::Inspected(None));
        events.push(Event::Transferred(10 + round));
        events.push(Event::ReadBack(b"never right".to_vec()));
        events.push(Event::Removed);
    }
    let (actions, fetch) = run(RequestCompare::Checksum(Some(ABC_DIGEST)), events);
    assert_eq!(
        actions,
        vec![
            Action::Inspect { content: true },
            Action::Transfer,
            Action::ReadBack,
            Action::Remove,
            Action::Inspect { content: true },
            Action::Transfer,
            Action::ReadBack,
            Action::Remove,
            Action::Inspect { content: true },
            Action::Transfer,
            Action::ReadBack,
            Action::Remove,
            Action::Fail(FetchError::Integrity),
        ]
    );
    assert_eq!(transfers(&actions), 3);
    assert_eq!(actions.iter().filter(|a| **a == Action::Remove).count(), 3);
    assert_eq!(fetch.transfers(), 3);
    assert_eq!(fetch.phase(), Phase::Finished);
}

#[test]
fn fetch_succeeds_when_the_second_transfer_has_the_digest() {
    let (actions, fetch) = run(
        RequestCompare::Checksum(Some(ABC_DIGEST)),
        vec![
            Event::Inspected(Some(stat(3, 0, b"old"))),
            Event::Transferred(11),
            Event::ReadBack(b"bad".to_vec()),
            Event::Removed,
            Event::Inspected(None),
            Event::Transferred(3),
            Event::ReadBack(b"abc".to_vec()),
        ],
    );
    assert_eq!(
        actions,
        vec![
            Action::Inspect { content: true },
            Action::Transfer,
            Action::ReadBack,
            Action::Remove,
            Action::Inspect { content: true },
            Action::Transfer,
            Action::ReadBack,
            Action::Done(3),
        ]
    );
    assert_eq!(fetch.transfers(), 2);
}

#[test]
fn fetch_sets_the_expected_modification_time() {
    let (actions, fetch) = run(
        RequestCompare::SizeAndModification(500, Some(1_234_567_890)),
        vec![
            Event::Inspected(Some(stat(500, 1_234_567_889, b""))),
            Event::Transferred(500),
            Event::Stamped,
        ],
    );
    assert_eq!(
        actions,
        vec![
            Action::Inspect { content: false },
            Action::Transfer,
            Action::SetModified(1_234_567_890),
            Action::Done(500),
        ]
    );
    assert_eq!(fetch.phase(), Phase::Finished);
}

#[test]
fn fetch_without_digest_or_time_accepts_the_transfer() {
    let (actions, _) = run(
        RequestCompare::SizeAndModification(500, None),
        vec![Event::Inspected(Some(stat(499, 0, b""))), Event::Transferred(500)],
    );
    assert_eq!(
        actions,
        vec![Action::Inspect { content: false }, Action::Transfer, Action::Done(500)]
    );
    let (actions, _) =
        run(RequestCompare::Checksum(None), vec![Event::Inspected(None), Event::Transferred(42)]);
    assert_eq!(
        actions,
        vec![Action::Inspect { content: false }, Action::Transfer, Action::Done(42)]
    );
}

#[test]
fn fetch_refuses_what_it_is_not_waiting_for() {
    let (actions, fetch) = run(RequestCompare::Checksum(None), vec![Event::Transferred(1)]);
    assert_eq!(actions[1], Action::Fail(FetchError::OutOfTurn));
    assert_eq!(fetch.phase(), Phase::Inspecting);
    assert_eq!(fetch.transfers(), 0);

    let (actions, fetch) = run(
        RequestCompare::Checksum(None),
        vec![Event::Inspected(None), Event::Transferred(1), Event::Inspected(None)],
    );
    assert_eq!(actions[3], Action::Fail(FetchError::OutOfTurn));
    assert_eq!(fetch.phase(), Phase::Finished);

    let (actions, fetch) = run(
        RequestCompare::Checksum(Some(ABC_DIGEST)),
        vec![Event::Inspected(None), Event::Removed, Event::Stamped, Event::ReadBack(Vec::new())],
    );
    assert_eq!(
        &actions[2..],
        &[
            Action::Fail(FetchError::OutOfTurn),
            Action::Fail(FetchError::OutOfTurn),
            Action::Fail(FetchError::OutOfTurn),
        ]
    );
    assert_eq!(fetch.phase(), Phase::Transferring);
    assert_eq!(fetch.transfers(), 1);
}
