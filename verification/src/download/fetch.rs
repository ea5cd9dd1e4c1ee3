//! The course of one fetch, as a state machine: the caller does the work on
//! the file system and the network, and is told after each piece of it what
//! comes next.

use crate::download::compare::{
    digest_matches, fetch_required, requires_fetch, verify_digest, Expected, FileStat, Found,
    RequestCompare,
};
use vstd::prelude::*;

verus! {

/// How many transfers one fetch may start.
pub const ATTEMPTS: u8 = 3;

/// What a fetch is waiting for.
#[derive(Clone, Copy, Debug, PartialEq, Eq, Structural)]
pub enum Phase {
    /// For the state of the destination.
    Inspecting,
    /// For the transfer to end.
    Transferring,
    /// For the content that was written, to hold it against the digest;
    /// with the number of bytes written.
    Verifying(u64),
    /// For the removal of a file with the wrong digest.
    Removing,
    /// For the modification time to be set; with the number of bytes written.
    Stamping(u64),
    /// For nothing: the fetch is over.
    Finished,
}

/// Why a fetch failed.
#[derive(Clone, Copy, Debug, PartialEq, Eq, Structural)]
pub enum FetchError {
    /// The content did not have the expected digest after any of the
    /// transfers.
    Integrity,
    /// The fetch was told of something it was not waiting for.
    OutOfTurn,
}

/// What the caller is to do next, or how the fetch ended.
#[derive(Clone, Copy, Debug, PartialEq, Eq, Structural)]
pub enum Action {
    /// Look at the destination: whether it is there, its length and
    /// modification time, and its content where `content` is set.
    Inspect { content: bool },
    /// Create or truncate the destination, with its parent directories, and
    /// stream the remote body into it.
    Transfer,
    /// Read the destination's content back.
    ReadBack,
    /// Delete the destination.
    Remove,
    /// Set the destination's modification time, in seconds, and keep its
    /// access time.
    SetModified(i64),
    /// The fetch succeeded, with this many bytes written.
    Done(u64),
    /// The fetch failed.
    Fail(FetchError),
}

/// What the caller reports.
#[derive(Clone, Debug, PartialEq, Eq)]
pub enum Event {
    /// The destination was looked at; `None` if it is not there.
    Inspected(Option<FileStat>),
    /// The transfer ended, with this many bytes written.
    Transferred(u64),
    /// The content of the destination.
    ReadBack(Vec<u8>),
    /// The destination was deleted.
    Removed,
    /// The modification time was set.
    Stamped,
}

/// The mathematical value of an `Event`.
pub ghost enum Occurrence {
    Inspected(Option<Found>),
    Transferred(u64),
    ReadBack(Seq<u8>),
    Removed,
    Stamped,
}

impl View for Event {
    type V = Occurrence;

    open spec fn view(&self) -> Occurrence {
        match *self {
            Event::Inspected(Some(stat)) => Occurrence::Inspected(Some(stat@)),
            Event::Inspected(None) => Occurrence::Inspected(None),
            Event::Transferred(written) => Occurrence::Transferred(written),
            Event::ReadBack(content) => Occurrence::ReadBack(content@),
            Event::Removed => Occurrence::Removed,
            Event::Stamped => Occurrence::Stamped,
        }
    }
}

/// The state of a fetch: what the destination is held against, how many
/// transfers were started, and what the fetch is waiting for.
pub ghost struct Progress {
    pub expected: Expected,
    pub transfers: int,
    pub phase: Phase,
}

/// A digest is expected.
pub open spec fn wants_digest(expected: Expected) -> bool {
    match expected {
        Expected::Checksum(Some(_)) => true,
        _ => false,
    }
}

/// A modification time is expected.
pub open spec fn wants_mtime(expected: Expected) -> bool {
    match expected {
        Expected::SizeAndModification(_, Some(_)) => true,
        _ => false,
    }
}

/// The inspection that a fetch asks for: the content is needed only where a
/// digest is expected.
pub open spec fn inspection(expected: Expected) -> Action {
    Action::Inspect { content: wants_digest(expected) }
}

impl Progress {
    /// The state that every fetch starts in: waiting for the first
    /// inspection, which `inspection(expected)` has asked for.
    pub open spec fn start(expected: Expected) -> Progress {
        Progress { expected, transfers: 0, phase: Phase::Inspecting }
    }

    /// The states that a fetch can be in.
    pub open spec fn wf(self) -> bool {
        &&& 0 <= self.transfers <= ATTEMPTS
        &&& self.phase is Inspecting ==> self.transfers < ATTEMPTS
        &&& self.phase is Verifying ==> wants_digest(self.expected)
        &&& self.phase is Removing ==> wants_digest(self.expected)
        &&& self.phase is Stamping ==> wants_mtime(self.expected)
    }

    /// The same fetch in another phase.
    pub open spec fn at(self, phase: Phase) -> Progress {
        Progress { phase, ..self }
    }

    /// The state after `occurrence`, and what the caller is to do next.
    ///
    /// An inspection that finds the destination as expected ends the fetch
    /// with no byte written; any other starts a transfer. After a transfer
    /// the content is read back where a digest is expected, the modification
    /// time is set where one is expected, and otherwise the fetch is done.
    /// Content with the wrong digest is removed, and the fetch starts over
    /// unless it has started `ATTEMPTS` transfers already.
    pub open spec fn next(self, occurrence: Occurrence) -> (Progress, Action) {
        match (self.phase, occurrence) {
            (Phase::Inspecting, Occurrence::Inspected(local)) => {
                if fetch_required(local, self.expected) {
                    (
                        Progress { transfers: self.transfers + 1, ..self.at(Phase::Transferring) },
                        Action::Transfer,
                    )
                } else {
                    (self.at(Phase::Finished), Action::Done(0))
                }
            },
            (Phase::Transferring, Occurrence::Transferred(written)) => match self.expected {
                Expected::Checksum(Some(_)) => (
                    self.at(Phase::Verifying(written)),
                    Action::ReadBack,
                ),
                Expected::SizeAndModification(_, Some(mtime)) => (
                    self.at(Phase::Stamping(written)),
                    Action::SetModified(mtime),
                ),
                _ => (self.at(Phase::Finished), Action::Done(written)),
            },
            (Phase::Verifying(written), Occurrence::ReadBack(content)) => match self.expected {
                Expected::Checksum(Some(digest)) => if digest_matches(content, digest) {
                    (self.at(Phase::Finished), Action::Done(written))
                } else {
                    (self.at(Phase::Removing), Action::Remove)
                },
                _ => (self, Action::Fail(FetchError::OutOfTurn)),
            },
            (Phase::Removing, Occurrence::Removed) => {
                if self.transfers < ATTEMPTS {
                    (self.at(Phase::Inspecting), inspection(self.expected))
                } else {
                    (self.at(Phase::Finished), Action::Fail(FetchError::Integrity))
                }
            },
            (Phase::Stamping(written), Occurrence::Stamped) => (
                self.at(Phase::Finished),
                Action::Done(written),
            ),
            _ => (self, Action::Fail(FetchError::OutOfTurn)),
        }
    }

    /// The state after a series of occurrences, and the actions they were
    /// answered with.
    pub open spec fn run(self, occurrences: Seq<Occurrence>) -> (Progress, Seq<Action>)
        decreases occurrences.len(),
    {
        if occurrences.len() == 0 {
            (self, Seq::empty())
        } else {
            let (before, actions) = self.run(occurrences.drop_last());
            let (after, action) = before.next(occurrences.last());
            (after, actions.push(action))
        }
    }

    /// A fetch stays in the states it can be in, and it counts its
    /// transfers: the count goes up by one with each `Transfer` it asks for,
    /// and by nothing else.
    pub proof fn lemma_next_keeps_count(self, occurrence: Occurrence)
        requires
            self.wf(),
        ensures
            self.next(occurrence).0.wf(),
            self.next(occurrence).0.expected == self.expected,
            self.next(occurrence).0.transfers == self.transfers + (if self.next(occurrence).1
                == Action::Transfer {
                1int
            } else {
                0int
            }),
    {
    }

    /// Whatever is reported to a fetch, it asks for at most `ATTEMPTS`
    /// transfers.
    pub proof fn lemma_transfers_are_bounded(expected: Expected, occurrences: Seq<Occurrence>)
        ensures
            Self::start(expected).run(occurrences).0.wf(),
            Self::start(expected).run(occurrences).1.filter(|a: Action| a == Action::Transfer).len()
                == Self::start(expected).run(occurrences).0.transfers,
            Self::start(expected).run(occurrences).1.filter(|a: Action| a == Action::Transfer).len()
                <= ATTEMPTS,
        decreases occurrences.len(),
    {
        reveal(Seq::filter);
        let start = Self::start(expected);
        if occurrences.len() > 0 {
            Self::lemma_transfers_are_bounded(expected, occurrences.drop_last());
            let (before, actions) = start.run(occurrences.drop_last());
            before.lemma_next_keeps_count(occurrences.last());
            let action = before.next(occurrences.last()).1;
            assert(actions.push(action).drop_last() =~= actions);
        }
    }
}

/// A destination that is as expected is left alone: the first inspection
/// ends the fetch with no byte written, and no transfer is asked for.
pub proof fn lemma_satisfied_target_is_skipped(expected: Expected, local: Option<Found>)
    requires
        !fetch_required(local, expected),
    ensures
        Progress::start(expected).next(Occurrence::Inspected(local)) == (
            Progress::start(expected).at(Phase::Finished),
            Action::Done(0),
        ),
{
}

/// The occurrences of one attempt that ends with the wrong digest: the
/// inspection, the transfer, the content read back, the removal.
pub open spec fn failed_attempt(local: Option<Found>, written: u64, content: Seq<u8>) -> Seq<
    Occurrence,
> {
    seq![
        Occurrence::Inspected(local),
        Occurrence::Transferred(written),
        Occurrence::ReadBack(content),
        Occurrence::Removed,
    ]
}

/// A destination whose content never has the expected digest is transferred
/// `ATTEMPTS` times and removed after each; the last removal ends the fetch
/// with an integrity error.
pub proof fn lemma_digest_never_matches(
    digest: Seq<u8>,
    locals: Seq<Option<Found>>,
    written: Seq<u64>,
    contents: Seq<Seq<u8>>,
)
    requires
        locals.len() == 3,
        written.len() == 3,
        contents.len() == 3,
        forall|i: int|
            0 <= i < 3 ==> fetch_required(#[trigger] locals[i], Expected::Checksum(Some(digest))),
        forall|i: int| 0 <= i < 3 ==> !digest_matches(#[trigger] contents[i], digest),
    ensures
        Progress::start(Expected::Checksum(Some(digest))).run(
            failed_attempt(locals[0], written[0], contents[0]) + failed_attempt(
                locals[1],
                written[1],
                contents[1],
            ) + failed_attempt(locals[2], written[2], contents[2]),
        ) == (
            Progress {
                expected: Expected::Checksum(Some(digest)),
                transfers: 3,
                phase: Phase::Finished,
            },
            seq![
                Action::Transfer,
                Action::ReadBack,
                Action::Remove,
                Action::Inspect { content: true },
                Action::Transfer,
                Action::ReadBack,
                Action::Remove,
                Action::Inspect { content: true },
                Action::Transfer,
                Action::ReadBack,
                Action::Remove,
                Action::Fail(FetchError::Integrity),
            ],
        ),
{
    let expected = Expected::Checksum(Some(digest));
    let start = Progress::start(expected);
    let all = failed_attempt(locals[0], written[0], contents[0]) + failed_attempt(
        locals[1],
        written[1],
        contents[1],
    ) + failed_attempt(locals[2], written[2], contents[2]);
    lemma_run_unfolds(start, all, 12);
    assert(start.run(all.take(12)).1 =~= seq![
        Action::Transfer,
        Action::ReadBack,
        Action::Remove,
        Action::Inspect { content: true },
        Action::Transfer,
        Action::ReadBack,
        Action::Remove,
        Action::Inspect { content: true },
        Action::Transfer,
        Action::ReadBack,
        Action::Remove,
        Action::Fail(FetchError::Integrity),
    ]);
    assert(all.take(12) =~= all);
}

/// Content that has the expected digest after the second transfer ends the
/// fetch there, with the number of bytes that this transfer wrote.
pub proof fn lemma_digest_matches_on_second_attempt(
    digest: Seq<u8>,
    locals: Seq<Option<Found>>,
    written: Seq<u64>,
    contents: Seq<Seq<u8>>,
)
    requires
        locals.len() == 2,
        written.len() == 2,
        contents.len() == 2,
        forall|i: int|
            0 <= i < 2 ==> fetch_required(#[trigger] locals[i], Expected::Checksum(Some(digest))),
        !digest_matches(contents[0], digest),
        digest_matches(contents[1], digest),
    ensures
        Progress::start(Expected::Checksum(Some(digest))).run(
            failed_attempt(locals[0], written[0], contents[0]) + seq![
                Occurrence::Inspected(locals[1]),
                Occurrence::Transferred(written[1]),
                Occurrence::ReadBack(contents[1]),
            ],
        ) == (
            Progress {
                expected: Expected::Checksum(Some(digest)),
                transfers: 2,
                phase: Phase::Finished,
            },
            seq![
                Action::Transfer,
                Action::ReadBack,
                Action::Remove,
                Action::Inspect { content: true },
                Action::Transfer,
                Action::ReadBack,
                Action::Done(written[1]),
            ],
        ),
{
    let expected = Expected::Checksum(Some(digest));
    let start = Progress::start(expected);
    let all = failed_attempt(locals[0], written[0], contents[0]) + seq![
        Occurrence::Inspected(locals[1]),
        Occurrence::Transferred(written[1]),
        Occurrence::ReadBack(contents[1]),
    ];
    lemma_run_unfolds(start, all, 7);
    assert(start.run(all.take(7)).1 =~= seq![
        Action::Transfer,
        Action::ReadBack,
        Action::Remove,
        Action::Inspect { content: true },
        Action::Transfer,
        Action::ReadBack,
        Action::Done(written[1]),
    ]);
    assert(all.take(7) =~= all);
}

/// Where a modification time is expected, a transfer is followed by setting
/// exactly that time, and the fetch then succeeds with the bytes written.
pub proof fn lemma_modification_time_is_set(
    length: u64,
    mtime: i64,
    local: Option<Found>,
    written: u64,
)
    requires
        fetch_required(local, Expected::SizeAndModification(length, Some(mtime))),
    ensures
        Progress::start(Expected::SizeAndModification(length, Some(mtime))).run(
            seq![
                Occurrence::Inspected(local),
                Occurrence::Transferred(written),
                Occurrence::Stamped,
            ],
        ).1 == seq![Action::Transfer, Action::SetModified(mtime), Action::Done(written)],
{
    let start = Progress::start(Expected::SizeAndModification(length, Some(mtime)));
    let all = seq![
        Occurrence::Inspected(local),
        Occurrence::Transferred(written),
        Occurrence::Stamped,
    ];
    lemma_run_unfolds(start, all, 3);
    assert(start.run(all.take(3)).1 =~= seq![
        Action::Transfer,
        Action::SetModified(mtime),
        Action::Done(written),
    ]);
    assert(all.take(3) =~= all);
}

/// A run is its first `n - 1` steps and then one more.
proof fn lemma_run_unfolds(start: Progress, all: Seq<Occurrence>, n: int)
    requires
        0 <= n <= all.len(),
    ensures
        forall|k: int|
            1 <= k <= n ==> #[trigger] start.run(all.take(k)) == (
                start.run(all.take(k - 1)).0.next(all[k - 1]).0,
                start.run(all.take(k - 1)).1.push(start.run(all.take(k - 1)).0.next(all[k - 1]).1),
            ),
        start.run(all.take(0)) == (start, Seq::<Action>::empty()),
{
    assert forall|k: int| 1 <= k <= n implies #[trigger] start.run(all.take(k)) == (
        start.run(all.take(k - 1)).0.next(all[k - 1]).0,
        start.run(all.take(k - 1)).1.push(start.run(all.take(k - 1)).0.next(all[k - 1]).1),
    ) by {
        assert(all.take(k).drop_last() =~= all.take(k - 1));
        assert(all.take(k).last() == all[k - 1]);
    }
}

/// One fetch in progress.
#[derive(Debug)]
pub struct Fetch<'a> {
    compare: RequestCompare<'a>,
    transfers: u8,
    phase: Phase,
}

impl<'a> View for Fetch<'a> {
    type V = Progress;

    closed spec fn view(&self) -> Progress {
        Progress { expected: self.compare@, transfers: self.transfers as int, phase: self.phase }
    }
}

impl<'a> Fetch<'a> {
    /// A fetch is always in one of the states it can be in.
    #[verifier::type_invariant]
    spec fn well_formed(self) -> bool {
        self@.wf()
    }

    /// Starts a fetch of a destination that is held against `compare`, and
    /// asks for the first inspection.
    pub fn begin(compare: RequestCompare<'a>) -> (started: (Fetch<'a>, Action))
        ensures
            started.0@ == Progress::start(compare@),
            started.0@.wf(),
            started.1 == inspection(compare@),
    {
        let content = match compare {
            RequestCompare::Checksum(Some(_)) => true,
            _ => false,
        };
        (Fetch { compare, transfers: 0, phase: Phase::Inspecting }, Action::Inspect { content })
    }

    /// What the fetch is waiting for.
    pub fn phase(&self) -> (phase: Phase)
        ensures
            phase == self@.phase,
    {
        self.phase
    }

    /// How many transfers the fetch has started.
    pub fn transfers(&self) -> (count: u8)
        ensures
            count == self@.transfers,
    {
        self.transfers
    }

    /// Takes note of what the caller reports and tells what to do next.
    pub fn step(self, event: Event) -> (stepped: (Fetch<'a>, Action))
        ensures
            self@.wf(),
            (stepped.0@, stepped.1) == self@.next(event@),
            stepped.0@.wf(),
    {
        proof {
            use_type_invariant(&self);
        }
        let Fetch { compare, transfers, phase } = self;
        match (phase, event) {
            (Phase::Inspecting, Event::Inspected(local)) => {
                if requires_fetch(local.as_ref(), &compare) {
                    (
                        Fetch { compare, transfers: transfers + 1, phase: Phase::Transferring },
                        Action::Transfer,
                    )
                } else {
                    (Fetch { compare, transfers, phase: Phase::Finished }, Action::Done(0))
                }
            },
            (Phase::Transferring, Event::Transferred(written)) => match compare {
                RequestCompare::Checksum(Some(_)) => (
                    Fetch { compare, transfers, phase: Phase::Verifying(written) },
                    Action::ReadBack,
                ),
                RequestCompare::SizeAndModification(_, Some(mtime)) => (
                    Fetch { compare, transfers, phase: Phase::Stamping(written) },
                    Action::SetModified(mtime),
                ),
                _ => (Fetch { compare, transfers, phase: Phase::Finished }, Action::Done(written)),
            },
            (Phase::Verifying(written), Event::ReadBack(content)) => match compare {
                RequestCompare::Checksum(Some(digest)) => {
                    if verify_digest(content.as_slice(), digest) {
                        (
                            Fetch { compare, transfers, phase: Phase::Finished },
                            Action::Done(written),
                        )
                    } else {
                        (Fetch { compare, transfers, phase: Phase::Removing }, Action::Remove)
                    }
                },
                _ => (Fetch { compare, transfers, phase }, Action::Fail(FetchError::OutOfTurn)),
            },
            (Phase::Removing, Event::Removed) => {
                if transfers < ATTEMPTS {
                    let content = match compare {
                        RequestCompare::Checksum(Some(_)) => true,
                        _ => false,
                    };
                    (
                        Fetch { compare, transfers, phase: Phase::Inspecting },
                        Action::Inspect { content },
                    )
                } else {
                    (
                        Fetch { compare, transfers, phase: Phase::Finished },
                        Action::Fail(FetchError::Integrity),
                    )
                }
            },
            (Phase::Stamping(written), Event::Stamped) => (
                Fetch { compare, transfers, phase: Phase::Finished },
                Action::Done(written),
            ),
            (phase, _) => (
                Fetch { compare, transfers, phase },
                Action::Fail(FetchError::OutOfTurn),
            ),
        }
    }
}

} // verus!
