use vstd::prelude::*;
use crate::snapshot::WindowNode;

verus! {

/// One observation of focus state, keyed by its capture time.
pub struct Sample {
    pub class: String,
    pub title: String,
    pub idle: bool,
    /// Seconds since the epoch at capture.
    pub timestamp: i64,
}

/// What a sample holds, as plain values.
pub struct SampleView {
    pub class: Seq<char>,
    pub title: Seq<char>,
    pub idle: bool,
    pub timestamp: int,
}

impl View for Sample {
    type V = SampleView;

    open spec fn view(&self) -> SampleView {
        SampleView {
            class: self.class@,
            title: self.title@,
            idle: self.idle,
            timestamp: self.timestamp as int,
        }
    }
}

/// The class and title given to a sample without window metadata.
pub open spec fn idle_name() -> Seq<char> {
    seq!['i', 'd', 'l', 'e']
}

/// The class of the full-screen image viewer, counted as idle.
pub open spec fn viewer_name() -> Seq<char> {
    seq!['f', 'e', 'h']
}

/// Whether a sample of class `class` is idle, given the idle marker.
pub open spec fn is_idle(marker: bool, class: Seq<char>) -> bool {
    marker || class == idle_name() || class == viewer_name()
}

/// The sample that classifying `focus` with marker state `marker` at `ts` yields.
pub open spec fn classified(focus: Option<WindowNode>, marker: bool, ts: int) -> SampleView {
    match focus {
        Some(n) if n.props is Some => SampleView {
            class: n.props->Some_0.class@,
            title: n.props->Some_0.title@,
            idle: is_idle(marker, n.props->Some_0.class@),
            timestamp: ts,
        },
        _ => SampleView { class: idle_name(), title: idle_name(), idle: true, timestamp: ts },
    }
}

/// Builds the sample of one cycle from the resolved focus (`None`: no
/// focus), whether the idle marker exists, and the capture time.
pub fn classify(focus: Option<&WindowNode>, marker: bool, ts: i64) -> (r: Sample)
    ensures
        r@ == classified(
            match focus {
                Some(n) => Some(*n),
                None => None,
            },
            marker,
            ts as int,
        ),
{
    let idle = "idle".to_owned();
    proof {
        reveal_strlit("idle");
    }
    assert(idle@ == idle_name());
    match focus {
        Some(n) => match &n.props {
            Some(p) => {
                let viewer = "feh".to_owned();
                proof {
                    reveal_strlit("feh");
                }
                assert(viewer@ == viewer_name());
                let is = marker || p.class == idle || p.class == viewer;
                Sample { class: p.class.clone(), title: p.title.clone(), idle: is, timestamp: ts }
            },
            None => Sample { class: idle.clone(), title: idle, idle: true, timestamp: ts },
        },
        None => Sample { class: idle.clone(), title: idle, idle: true, timestamp: ts },
    }
}

} // verus!
