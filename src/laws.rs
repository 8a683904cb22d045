use vstd::prelude::*;
use crate::persist::{drive, step, written, transient, RecorderView, StoreError};
use crate::sample::SampleView;

verus! {

/// Every sample not yet written: the buffer, then the running cycle's sample.
pub open spec fn pending(st: RecorderView) -> Seq<SampleView> {
    match st.current {
        Some(c) => st.buffer.push(c),
        None => st.buffer,
    }
}

/// The state in which a cycle for sample `s` starts after state `st`; a
/// sample of a cycle that ran out of outcomes before it ended counts as buffered.
pub open spec fn begin(st: RecorderView, s: SampleView) -> RecorderView {
    RecorderView { buffer: pending(st), current: Some(s) }
}

/// Runs one cycle per sample of `samples`, the cycle of `samples[i]` on the
/// insert outcomes `outs[i]`; gives the final state and all samples written.
pub open spec fn run(
    st: RecorderView,
    samples: Seq<SampleView>,
    outs: Seq<Seq<Result<(), StoreError>>>,
) -> (RecorderView, Seq<SampleView>)
    decreases samples.len(),
{
    if samples.len() == 0 || outs.len() == 0 {
        (st, seq![])
    } else {
        let c = drive(begin(st, samples[0]), outs[0]);
        let r = run(c.0, samples.drop_first(), outs.drop_first());
        (r.0, c.1 + r.1)
    }
}

/// Whether no outcome in `outs` is a non-transient failure.
pub open spec fn no_hard_failure(outs: Seq<Result<(), StoreError>>) -> bool {
    forall|i: int| 0 <= i < outs.len() ==> !(#[trigger] outs[i] matches Err(e) && !transient(e))
}

/// One insert outcome that is not a non-transient failure moves samples from
/// pending to written, front first: nothing is lost, repeated or reordered.
pub proof fn lemma_step_keeps_pending(st: RecorderView, res: Result<(), StoreError>)
    requires
        st.current is Some,
        !(res matches Err(e) && !transient(e)),
    ensures
        written(st, res) + pending(step(st, res)) == pending(st),
{
    let c = st.current->Some_0;
    if st.buffer.len() > 0 {
        if res is Ok {
            assert(seq![st.buffer[0]] + st.buffer.drop_first().push(c) =~= st.buffer.push(c));
        } else {
            assert(Seq::<SampleView>::empty() + st.buffer.push(c) =~= st.buffer.push(c));
        }
    } else {
        if res is Ok {
            assert(seq![c] + Seq::<SampleView>::empty() =~= st.buffer.push(c));
        } else {
            assert(Seq::<SampleView>::empty() + st.buffer.push(c) =~= st.buffer.push(c));
        }
    }
}

/// Within a cycle without non-transient failures, what is written followed by
/// what is still pending is exactly what was pending at the start.
pub proof fn lemma_cycle_keeps_order(st: RecorderView, outs: Seq<Result<(), StoreError>>)
    requires
        no_hard_failure(outs),
    ensures
        drive(st, outs).1 + pending(drive(st, outs).0) == pending(st),
    decreases outs.len(),
{
    if st.current is None || outs.len() == 0 {
        assert(Seq::<SampleView>::empty() + pending(st) =~= pending(st));
    } else {
        let o = outs[0];
        assert(!(o matches Err(e) && !transient(e)));
        lemma_step_keeps_pending(st, o);
        let rest = outs.drop_first();
        assert(no_hard_failure(rest)) by {
            assert forall|i: int| 0 <= i < rest.len() implies !(#[trigger] rest[i] matches Err(
                e,
            ) && !transient(e)) by {
                assert(rest[i] == outs[i + 1]);
            }
        }
        lemma_cycle_keeps_order(step(st, o), rest);
        let r = drive(step(st, o), rest);
        assert(written(st, o) + r.1 + pending(r.0) =~= written(st, o) + (r.1 + pending(r.0)));
    }
}

/// Over any run of cycles whose inserts fail only transiently, the store
/// receives the samples in the order they were generated, each at most once,
/// and every sample not yet written is still pending; once nothing is
/// pending, every sample has been written.
pub proof fn lemma_transient_failures_keep_order(
    st: RecorderView,
    samples: Seq<SampleView>,
    outs: Seq<Seq<Result<(), StoreError>>>,
)
    requires
        samples.len() == outs.len(),
        forall|k: int| 0 <= k < outs.len() ==> no_hard_failure(#[trigger] outs[k]),
    ensures
        run(st, samples, outs).1 + pending(run(st, samples, outs).0) == pending(st) + samples,
        pending(run(st, samples, outs).0).len() == 0 ==> run(st, samples, outs).1 == pending(st)
            + samples,
    decreases samples.len(),
{
    if samples.len() == 0 {
        assert(Seq::<SampleView>::empty() + pending(st) =~= pending(st) + samples);
    } else {
        let b = begin(st, samples[0]);
        assert(no_hard_failure(outs[0]));
        lemma_cycle_keeps_order(b, outs[0]);
        let c = drive(b, outs[0]);
        let rest_o = outs.drop_first();
        assert forall|k: int| 0 <= k < rest_o.len() implies no_hard_failure(#[trigger] rest_o[k]) by {
            assert(rest_o[k] == outs[k + 1]);
        }
        lemma_transient_failures_keep_order(c.0, samples.drop_first(), rest_o);
        let r = run(c.0, samples.drop_first(), rest_o);
        assert(pending(b) == pending(st).push(samples[0]));
        assert(c.1 + r.1 + pending(r.0) =~= c.1 + (r.1 + pending(r.0)));
        assert(pending(st).push(samples[0]) + samples.drop_first() =~= pending(st) + samples);
        if pending(r.0).len() == 0 {
            assert(r.1 + pending(r.0) =~= r.1);
            assert(c.1 + r.1 + pending(r.0) =~= c.1 + r.1);
        }
    }
}

/// Cycles in which every insert succeeds write one sample per cycle, each
/// cycle's own sample, in order, and leave nothing pending.
pub proof fn lemma_no_failures(samples: Seq<SampleView>)
    ensures
        ({
            let st = RecorderView { buffer: seq![], current: None };
            let outs = Seq::new(samples.len(), |i: int| seq![Ok::<(), StoreError>(())]);
            run(st, samples, outs) == (st, samples)
        }),
    decreases samples.len(),
{
    let st = RecorderView { buffer: seq![], current: None };
    let outs = Seq::new(samples.len(), |i: int| seq![Ok::<(), StoreError>(())]);
    if samples.len() > 0 {
        let b = begin(st, samples[0]);
        assert(pending(st) =~= seq![]);
        let s1 = step(b, Ok(()));
        assert(s1 == st);
        let o0 = outs[0];
        assert(o0.drop_first() =~= Seq::<Result<(), StoreError>>::empty());
        assert(drive(s1, o0.drop_first()) == (st, Seq::<SampleView>::empty()));
        assert(drive(b, o0).1 =~= seq![samples[0]]);
        let tail = samples.drop_first();
        lemma_no_failures(tail);
        let outs2 = Seq::new(tail.len(), |i: int| seq![Ok::<(), StoreError>(())]);
        assert(outs.drop_first() =~= outs2);
        assert(seq![samples[0]] + tail =~= samples);
    }
}

/// A buffered sample whose insert fails non-transiently is dropped for good,
/// while every other pending sample stays pending or is written, in order,
/// as long as later inserts fail only transiently.
pub proof fn lemma_hard_failure_drops_front(st: RecorderView, outs: Seq<Result<(), StoreError>>)
    requires
        st.current is Some,
        st.buffer.len() > 0,
        outs.len() > 0,
        outs[0] matches Err(e) && !transient(e),
        no_hard_failure(outs.drop_first()),
    ensures
        drive(st, outs).1 + pending(drive(st, outs).0) == pending(st).drop_first(),
{
    let s1 = step(st, outs[0]);
    lemma_cycle_keeps_order(s1, outs.drop_first());
    assert(written(st, outs[0]) =~= Seq::<SampleView>::empty());
    assert(pending(s1) =~= pending(st).drop_first());
    let r = drive(s1, outs.drop_first());
    assert(Seq::<SampleView>::empty() + r.1 =~= r.1);
}

} // verus!
