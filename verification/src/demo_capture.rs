//! Automated README screenshots (`COPERNICUS_VIEWER_CAPTURE_DEMO=<output-dir>`):
//! the sequence of steps, driven one frame at a time by the application.
use vstd::prelude::*;

use crate::debug_text::{decimal, u64_text};
use crate::text::{chars_concat, chars_trim, str_chars, string_from_chars, trim_ws};

verus! {

/// Frames drawn between a plot or comparison being ready and its screenshot.
pub const FRAMES_BEFORE_SHOT: u32 = 8;

/// Where the capture sequence is.
#[derive(Clone, Copy, Debug, PartialEq, Eq, Structural)]
pub enum DemoStep {
    WaitStores,
    WaitPlot,
    WaitFrames,
    RequestExploreShot,
    RunComparison,
    WaitFramesCompare,
    RequestCompareShot,
    Finished,
}

/// What the application is asked to do in the interface.
#[derive(Clone, Copy, Debug, PartialEq, Eq, Structural)]
pub enum DemoAction {
    SelectLst,
    RunComparison,
    Close,
}

/// What the application is asked to do outside the interface.
#[derive(Clone, Debug, PartialEq, Eq)]
pub enum DemoEffect {
    /// Nothing.
    Nothing,
    /// Take a screenshot to be saved under this file name.
    RequestShot(String),
    /// Log that the variable is missing, then end the capture.
    MissingLstAndFinish,
    /// End the capture: log how many screenshots were saved and close the window.
    Finish,
}

/// What the application saw this frame.
#[derive(Clone, Copy, Debug)]
pub struct DemoObservation {
    /// At least two products are open.
    pub stores_ready: bool,
    /// The first product holds `/measurements/lst`.
    pub first_has_lst: bool,
    /// The plot panel has a plot.
    pub plot_ready: bool,
    /// The comparison tool has a result.
    pub comparison_has_result: bool,
}

/// The screenshot capture sequence.
#[derive(Debug)]
pub struct DemoCapture {
    pub out_dir: String,
    pub step: DemoStep,
    pub frames_left: u32,
    pub pending_shot: Option<String>,
    pub shots_saved: usize,
}

pub open spec fn explore_shot() -> Seq<char> {
    "01-explore-lst.png"@
}

pub open spec fn compare_shot() -> Seq<char> {
    "02-comparison.png"@
}

pub enum EffectView {
    Nothing,
    RequestShot(Seq<char>),
    MissingLstAndFinish,
    Finish,
}

pub open spec fn effect_view(e: DemoEffect) -> EffectView {
    match e {
        DemoEffect::Nothing => EffectView::Nothing,
        DemoEffect::RequestShot(s) => EffectView::RequestShot(s@),
        DemoEffect::MissingLstAndFinish => EffectView::MissingLstAndFinish,
        DemoEffect::Finish => EffectView::Finish,
    }
}

/// One frame of the sequence: the next step, frame count and pending shot,
/// the action for the interface, and the effect for the application.
pub open spec fn spec_tick(
    step: DemoStep,
    frames: u32,
    pending: bool,
    obs: DemoObservation,
) -> (DemoStep, u32, Option<DemoAction>, EffectView) {
    match step {
        DemoStep::WaitStores => if obs.stores_ready {
            if obs.first_has_lst {
                (DemoStep::WaitPlot, frames, Some(DemoAction::SelectLst), EffectView::Nothing)
            } else {
                (DemoStep::Finished, frames, None, EffectView::MissingLstAndFinish)
            }
        } else {
            (step, frames, None, EffectView::Nothing)
        },
        DemoStep::WaitPlot => if obs.plot_ready {
            (DemoStep::WaitFrames, FRAMES_BEFORE_SHOT, None, EffectView::Nothing)
        } else {
            (step, frames, None, EffectView::Nothing)
        },
        DemoStep::WaitFrames => if frames == 0 {
            (DemoStep::RequestExploreShot, frames, None, EffectView::RequestShot(explore_shot()))
        } else {
            (step, (frames - 1) as u32, None, EffectView::Nothing)
        },
        DemoStep::RequestExploreShot => if !pending {
            (DemoStep::RunComparison, frames, Some(DemoAction::RunComparison), EffectView::Nothing)
        } else {
            (step, frames, None, EffectView::Nothing)
        },
        DemoStep::RunComparison => if obs.comparison_has_result {
            (DemoStep::WaitFramesCompare, FRAMES_BEFORE_SHOT, None, EffectView::Nothing)
        } else {
            (step, frames, None, EffectView::Nothing)
        },
        DemoStep::WaitFramesCompare => if frames == 0 {
            (DemoStep::RequestCompareShot, frames, None, EffectView::RequestShot(compare_shot()))
        } else {
            (step, (frames - 1) as u32, None, EffectView::Nothing)
        },
        DemoStep::RequestCompareShot => if !pending {
            (DemoStep::Finished, frames, Some(DemoAction::Close), EffectView::Finish)
        } else {
            (step, frames, None, EffectView::Nothing)
        },
        DemoStep::Finished => (step, frames, None, EffectView::Nothing),
    }
}

impl DemoCapture {
    /// A capture into `out_dir` when the variable is set to non-blank text.
    pub fn from_env(value: &Option<String>) -> (r: Option<DemoCapture>)
        ensures
            match value {
                Some(v) if trim_ws(v@).len() > 0 => r matches Some(d) && d.out_dir@ == v@
                    && d.step == DemoStep::WaitStores && d.frames_left == 0
                    && d.pending_shot is None && d.shots_saved == 0,
                _ => r is None,
            },
    {
        match value {
            Some(v) => {
                let c = str_chars(v.as_str());
                let t = chars_trim(&c);
                if t.len() == 0 {
                    return None;
                }
                Some(
                    DemoCapture {
                        out_dir: String::from_str(v.as_str()),
                        step: DemoStep::WaitStores,
                        frames_left: 0,
                        pending_shot: None,
                        shots_saved: 0,
                    },
                )
            },
            None => None,
        }
    }

    /// Advance one frame (see `spec_tick`). A requested screenshot becomes
    /// the pending shot.
    pub fn tick(&mut self, obs: DemoObservation) -> (r: (Option<DemoAction>, DemoEffect))
        ensures
            ({
                let t = spec_tick(old(self).step, old(self).frames_left, old(self).pending_shot is Some, obs);
                &&& final(self).step == t.0
                &&& final(self).frames_left == t.1
                &&& r.0 == t.2
                &&& effect_view(r.1) == t.3
                &&& final(self).shots_saved == old(self).shots_saved
                &&& final(self).out_dir == old(self).out_dir
                &&& (t.3 matches EffectView::RequestShot(n) ==> final(self).pending_shot matches Some(p)
                    && p@ == n)
                &&& (!(t.3 is RequestShot) ==> final(self).pending_shot == old(self).pending_shot)
            }),
    {
        proof {
            reveal_strlit("01-explore-lst.png");
            reveal_strlit("02-comparison.png");
        }
        match self.step {
            DemoStep::WaitStores => {
                if obs.stores_ready {
                    if obs.first_has_lst {
                        self.step = DemoStep::WaitPlot;
                        return (Some(DemoAction::SelectLst), DemoEffect::Nothing);
                    }
                    self.step = DemoStep::Finished;
                    return (None, DemoEffect::MissingLstAndFinish);
                }
                (None, DemoEffect::Nothing)
            },
            DemoStep::WaitPlot => {
                if obs.plot_ready {
                    self.frames_left = FRAMES_BEFORE_SHOT;
                    self.step = DemoStep::WaitFrames;
                }
                (None, DemoEffect::Nothing)
            },
            DemoStep::WaitFrames => {
                if self.frames_left == 0 {
                    self.pending_shot = Some(String::from_str("01-explore-lst.png"));
                    self.step = DemoStep::RequestExploreShot;
                    (None, DemoEffect::RequestShot(String::from_str("01-explore-lst.png")))
                } else {
                    self.frames_left = self.frames_left - 1;
                    (None, DemoEffect::Nothing)
                }
            },
            DemoStep::RequestExploreShot => {
                if self.pending_shot.is_none() {
                    self.step = DemoStep::RunComparison;
                    return (Some(DemoAction::RunComparison), DemoEffect::Nothing);
                }
                (None, DemoEffect::Nothing)
            },
            DemoStep::RunComparison => {
                if obs.comparison_has_result {
                    self.frames_left = FRAMES_BEFORE_SHOT;
                    self.step = DemoStep::WaitFramesCompare;
                }
                (None, DemoEffect::Nothing)
            },
            DemoStep::WaitFramesCompare => {
                if self.frames_left == 0 {
                    self.pending_shot = Some(String::from_str("02-comparison.png"));
                    self.step = DemoStep::RequestCompareShot;
                    (None, DemoEffect::RequestShot(String::from_str("02-comparison.png")))
                } else {
                    self.frames_left = self.frames_left - 1;
                    (None, DemoEffect::Nothing)
                }
            },
            DemoStep::RequestCompareShot => {
                if self.pending_shot.is_none() {
                    self.step = DemoStep::Finished;
                    return (Some(DemoAction::Close), DemoEffect::Finish);
                }
                (None, DemoEffect::Nothing)
            },
            DemoStep::Finished => (None, DemoEffect::Nothing),
        }
    }

    /// A screenshot named `filename` arrived and the application tried to
    /// save it (`saved`). Only the pending shot counts: it is no longer
    /// pending, and a successful save is counted. Returns whether it was the
    /// pending shot.
    pub fn screenshot_arrived(&mut self, filename: &str, saved: bool) -> (r: bool)
        ensures
            r == (old(self).pending_shot matches Some(p) && p@ == filename@),
            r ==> final(self).pending_shot is None,
            r ==> final(self).shots_saved == (if saved && old(self).shots_saved < usize::MAX {
                old(self).shots_saved + 1
            } else {
                old(self).shots_saved as int
            }),
            !r ==> final(self).pending_shot == old(self).pending_shot && final(self).shots_saved
                == old(self).shots_saved,
            final(self).step == old(self).step,
            final(self).frames_left == old(self).frames_left,
    {
        let matches = match &self.pending_shot {
            Some(p) => crate::text::str_is(p.as_str(), filename),
            None => false,
        };
        if !matches {
            return false;
        }
        if saved && self.shots_saved < usize::MAX {
            self.shots_saved = self.shots_saved + 1;
        }
        self.pending_shot = None;
        true
    }
}

pub open spec fn spec_finish_message(shots: nat) -> Seq<char> {
    "Demo capture: finished ("@ + decimal(shots) + " screenshot"@ + (if shots == 1 {
        ""@
    } else {
        "s"@
    }) + ")"@
}

/// The line logged when the capture ends.
pub fn finish_message(shots: usize) -> (r: String)
    ensures
        r@ == spec_finish_message(shots as nat),
{
    let a = str_chars("Demo capture: finished (");
    let n = u64_text(shots as u64);
    let b = str_chars(n.as_str());
    let c = str_chars(" screenshot");
    let d = if shots == 1 {
        str_chars("")
    } else {
        str_chars("s")
    };
    let e = str_chars(")");
    let ab = chars_concat(&a, &b);
    let abc = chars_concat(&ab, &c);
    let abcd = chars_concat(&abc, &d);
    let all = chars_concat(&abcd, &e);
    string_from_chars(&all)
}

} // verus!
