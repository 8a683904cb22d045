use vstd::prelude::*;
use std::collections::VecDeque;
use crate::sample::{Sample, SampleView};

verus! {

/// Why a durable insert failed.
#[derive(Clone, Copy, PartialEq, Eq, Structural, Debug)]
pub enum StoreError {
    /// The store is busy with another writer.
    Busy,
    /// The store is locked.
    Locked,
    /// The disk is full.
    Full,
    /// Any other failure.
    Other,
}

/// Whether an insert that failed with `e` may succeed when tried again.
pub open spec fn transient(e: StoreError) -> bool {
    e is Busy || e is Locked || e is Full
}

impl StoreError {
    /// Whether an insert that failed this way may succeed when tried again.
    pub fn is_transient(&self) -> (r: bool)
        ensures
            r == transient(*self),
    {
        match self {
            StoreError::Busy => true,
            StoreError::Locked => true,
            StoreError::Full => true,
            StoreError::Other => false,
        }
    }
}

/// The state of the persistence protocol: the retry buffer, oldest first,
/// and the sample of the running cycle while it has not been attempted yet.
pub struct RecorderView {
    pub buffer: Seq<SampleView>,
    pub current: Option<SampleView>,
}

/// The sample that the next insert attempt writes: the front of the buffer
/// while it is not empty, else the sample of the running cycle.
pub open spec fn target(st: RecorderView) -> SampleView
    recommends
        st.current is Some,
{
    if st.buffer.len() > 0 {
        st.buffer[0]
    } else {
        st.current->Some_0
    }
}

/// The state after the outcome `res` of inserting `target(st)`.
pub open spec fn step(st: RecorderView, res: Result<(), StoreError>) -> RecorderView
    recommends
        st.current is Some,
{
    if st.buffer.len() > 0 {
        match res {
            Ok(()) => RecorderView { buffer: st.buffer.drop_first(), current: st.current },
            Err(e) => if transient(e) {
                RecorderView { buffer: st.buffer.push(st.current->Some_0), current: None }
            } else {
                RecorderView { buffer: st.buffer.drop_first(), current: st.current }
            },
        }
    } else {
        match res {
            Ok(()) => RecorderView { buffer: st.buffer, current: None },
            Err(_) => RecorderView { buffer: st.buffer.push(st.current->Some_0), current: None },
        }
    }
}

/// What the store gains from the outcome `res` in state `st`.
pub open spec fn written(st: RecorderView, res: Result<(), StoreError>) -> Seq<SampleView> {
    if res is Ok {
        seq![target(st)]
    } else {
        seq![]
    }
}

/// Runs a cycle from `st` on the insert outcomes `outs`, taken in order until
/// the cycle ends; gives the final state and the samples written, in order.
pub open spec fn drive(st: RecorderView, outs: Seq<Result<(), StoreError>>) -> (RecorderView, Seq<
    SampleView,
>)
    decreases outs.len(),
{
    if st.current is None || outs.len() == 0 {
        (st, seq![])
    } else {
        let rest = drive(step(st, outs[0]), outs.drop_first());
        (rest.0, written(st, outs[0]) + rest.1)
    }
}

/// Drives the persistence protocol: owns the retry buffer and the sample of
/// the running cycle, says which sample to insert next, and takes each
/// insert's outcome.
pub struct Recorder {
    buffer: VecDeque<Sample>,
    current: Option<Sample>,
}

impl View for Recorder {
    type V = RecorderView;

    closed spec fn view(&self) -> RecorderView {
        RecorderView {
            buffer: self.buffer@.map_values(|s: Sample| s@),
            current: match self.current {
                Some(s) => Some(s@),
                None => None,
            },
        }
    }
}

impl Recorder {
    /// A recorder with an empty buffer and no running cycle.
    pub fn new() -> (r: Recorder)
        ensures
            r@.buffer.len() == 0,
            r@.current is None,
    {
        Recorder { buffer: VecDeque::new(), current: None }
    }

    /// Number of samples waiting in the retry buffer.
    pub fn buffered(&self) -> (r: usize)
        ensures
            r == self@.buffer.len(),
    {
        self.buffer.len()
    }

    /// Whether the running cycle has ended.
    pub fn cycle_done(&self) -> (r: bool)
        ensures
            r == (self@.current is None),
    {
        self.current.is_none()
    }

    /// Starts a cycle for the freshly built sample `s`.
    pub fn start_cycle(&mut self, s: Sample)
        requires
            old(self)@.current is None,
        ensures
            final(self)@.buffer == old(self)@.buffer,
            final(self)@.current == Some(s@),
    {
        self.current = Some(s);
    }

    /// The sample to insert next, or `None` once the cycle has ended.
    pub fn next_insert(&self) -> (r: Option<&Sample>)
        ensures
            match r {
                Some(s) => self@.current is Some && s@ == target(self@),
                None => self@.current is None,
            },
    {
        if self.current.is_none() {
            None
        } else if self.buffer.len() > 0 {
            Some(&self.buffer[0])
        } else {
            self.current.as_ref()
        }
    }

    /// Takes the outcome of inserting the sample that `next_insert` named.
    pub fn record_result(&mut self, res: Result<(), StoreError>)
        requires
            old(self)@.current is Some,
        ensures
            final(self)@ == step(old(self)@, res),
    {
        let ghost pre = self@;
        if self.buffer.len() > 0 {
            let drop_front = match res {
                Ok(()) => true,
                Err(e) => !e.is_transient(),
            };
            if drop_front {
                self.buffer.pop_front();
            } else {
                let c = self.current.take().unwrap();
                self.buffer.push_back(c);
            }
        } else {
            let c = self.current.take().unwrap();
            if res.is_err() {
                self.buffer.push_back(c);
            }
        }
        assert(self@.buffer =~= step(pre, res).buffer);
    }
}

} // verus!
