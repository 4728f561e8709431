//! Observation of file reads: every read of a referenced file is reported
//! exactly once, with its path and its outcome, whether or not decoding
//! ultimately succeeds.

use vstd::prelude::*;

verus! {

/// What reading a referenced file produced: its bytes, or the message of the
/// failure that prevented the read.
#[derive(Debug, PartialEq)]
pub enum ReadOutcome {
    Data(Vec<u8>),
    Failure(String),
}

/// The mathematical value of a read outcome.
pub ghost enum ReadOutcomeView {
    Data(Seq<u8>),
    Failure(Seq<char>),
}

impl View for ReadOutcome {
    type V = ReadOutcomeView;

    open spec fn view(&self) -> ReadOutcomeView {
        match self {
            ReadOutcome::Data(b) => ReadOutcomeView::Data(b@),
            ReadOutcome::Failure(m) => ReadOutcomeView::Failure(m@),
        }
    }
}

impl ReadOutcome {
    /// A fresh outcome holding the same path-independent data.
    pub fn duplicate(&self) -> (r: Self)
        ensures
            r@ == self@,
    {
        match self {
            ReadOutcome::Data(b) => ReadOutcome::Data(copy_bytes(b)),
            ReadOutcome::Failure(m) => ReadOutcome::Failure(m.clone()),
        }
    }
}

/// A fresh byte vector with the same contents.
pub fn copy_bytes(b: &Vec<u8>) -> (r: Vec<u8>)
    ensures
        r@ == b@,
{
    let mut out: Vec<u8> = Vec::new();
    let mut i: usize = 0;
    while i < b.len()
        invariant
            i <= b.len(),
            out@ == b@.subrange(0, i as int),
        decreases b.len() - i,
    {
        out.push(b[i]);
        i = i + 1;
        proof {
            assert(out@ =~= b@.subrange(0, i as int));
        }
    }
    proof {
        assert(out@ =~= b@);
    }
    out
}

/// One notification: the path that was read and what the read produced.
pub ghost struct ReadEvent {
    pub path: Seq<char>,
    pub outcome: ReadOutcomeView,
}

/// The notification that reporting the given path and outcome produces.
pub open spec fn event_of(path: Seq<char>, outcome: ReadOutcomeView) -> ReadEvent {
    ReadEvent { path, outcome }
}

/// A recipient of file-read notifications. `log` abstracts the notifications
/// the observer has received so far, in order; `notify` must record exactly
/// the reported read, and may not fail.
pub trait Observer: Sized {
    /// The notifications received so far, oldest first.
    spec fn log(&self) -> Seq<ReadEvent>;

    /// Reports one file read, appending it to the log.
    fn notify(&mut self, path: &str, outcome: &ReadOutcome)
        ensures
            final (self).log() == old(self).log().push(event_of(path@, outcome@)),
    ;
}

/// An observer that ignores every notification, for callers uninterested in
/// observing. Its log is ghost: nothing is stored at run time.
pub struct NoOpObserver {
    events: Ghost<Seq<ReadEvent>>,
}

impl NoOpObserver {
    /// An observer that has seen nothing and will record nothing.
    pub fn new() -> (r: Self)
        ensures
            r.log() == Seq::<ReadEvent>::empty(),
    {
        NoOpObserver { events: Ghost(Seq::empty()) }
    }
}

impl Observer for NoOpObserver {
    closed spec fn log(&self) -> Seq<ReadEvent> {
        self.events@
    }

    fn notify(&mut self, path: &str, outcome: &ReadOutcome) {
        self.events = Ghost(self.events@.push(event_of(path@, outcome@)));
    }
}

/// An observer that keeps every notification, in order, as plain values.
pub struct RecordingObserver {
    events: Vec<(String, ReadOutcome)>,
}

/// The notification a recorded entry stands for.
pub open spec fn recorded_event(e: (String, ReadOutcome)) -> ReadEvent {
    ReadEvent { path: e.0@, outcome: e.1@ }
}

impl RecordingObserver {
    /// An observer that has seen nothing yet.
    pub fn new() -> (r: Self)
        ensures
            r.log() == Seq::<ReadEvent>::empty(),
    {
        let r = RecordingObserver { events: Vec::new() };
        proof {
            assert(r.log() =~= Seq::<ReadEvent>::empty());
        }
        r
    }

    /// The recorded notifications, oldest first.
    pub fn events(&self) -> (r: &Vec<(String, ReadOutcome)>)
        ensures
            r@.map_values(|e: (String, ReadOutcome)| recorded_event(e)) == self.log(),
    {
        &self.events
    }
}

impl Observer for RecordingObserver {
    closed spec fn log(&self) -> Seq<ReadEvent> {
        self.events@.map_values(|e: (String, ReadOutcome)| recorded_event(e))
    }

    fn notify(&mut self, path: &str, outcome: &ReadOutcome) {
        let entry = (String::from_str(path), outcome.duplicate());
        self.events.push(entry);
        proof {
            assert(final (self).log() =~= old(self).log().push(event_of(path@, outcome@)));
        }
    }
}

} // verus!
