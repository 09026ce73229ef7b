//! What a run does to the outside world, as data.
//!
//! The driver is pure: executing a program yields the texts to print, the
//! file writes to perform and the charts to render.  The caller performs the
//! prints and writes in order, dispatches each render onto background work,
//! and joins all of it before terminating — renders may overlap whatever
//! comes after them, but the run is over only when every render is done.

use vstd::prelude::*;
use crate::data_type::DataType;

verus! {

/// Run-scoped configuration, passed in at start instead of living in a
/// process-wide global.
#[derive(Clone, Copy, Debug)]
pub struct RunConfig {
    /// The domain of expressions that carry no explicit annotation.
    pub default_data_type: DataType,
}

/// One line appended to an output file.  Whether a write truncates first is
/// decided when it is performed, through `OutputCleaner`: the run's first
/// write against a file that already exists truncates it, every other write
/// appends.
#[derive(Debug)]
pub struct FileWrite {
    pub path: String,
    pub text: String,
}

/// One chart to render in the background: a sampled one-argument function
/// with axis bounds, tick steps and optional labels.  Each coordinate pairs
/// an integer sample point with the sampled value's display text.
#[derive(Debug)]
pub struct RenderJob {
    pub function_name: String,
    pub title: Option<String>,
    pub label_x: Option<String>,
    pub label_y: Option<String>,
    pub min_x: i64,
    pub min_y: i64,
    pub max_x: i64,
    pub max_y: i64,
    pub step_x: String,
    pub step_y: String,
    pub coordinates: Vec<(i64, String)>,
}

/// The collected effects of a run, in operation order within each list.
#[derive(Debug)]
pub struct RunEffects {
    pub prints: Vec<String>,
    pub writes: Vec<FileWrite>,
    pub renders: Vec<RenderJob>,
}

/// True of effects that hold nothing yet.
pub open spec fn spec_empty_effects(e: RunEffects) -> bool {
    &&& e.prints@.len() == 0
    &&& e.writes@.len() == 0
    &&& e.renders@.len() == 0
}

impl RunEffects {
    /// No effects yet.
    pub fn new() -> (r: RunEffects)
        ensures
            spec_empty_effects(r),
    {
        RunEffects { prints: Vec::new(), writes: Vec::new(), renders: Vec::new() }
    }
}

/// The run-wide "output already cleaned" flag, with the truncation rule of
/// the performer: a write truncates exactly when its target file already
/// exists and no earlier write of the run has truncated one.  The performer
/// reports whether each target exists and obeys the returned decision; the
/// flag stays armed across writes that created missing files.
#[derive(Debug)]
pub struct OutputCleaner {
    pub cleaned: bool,
}

impl OutputCleaner {
    /// A fresh run: nothing truncated yet.
    pub fn new() -> (r: OutputCleaner)
        ensures
            !r.cleaned,
    {
        OutputCleaner { cleaned: false }
    }

    /// Decides one write: truncate exactly when the target exists and the
    /// run has not truncated yet; the flag is set by that first truncation.
    pub fn decide(&mut self, file_exists: bool) -> (truncate: bool)
        ensures
            truncate == (file_exists && !old(self).cleaned),
            final(self).cleaned == (old(self).cleaned || file_exists),
    {
        let truncate = file_exists && !self.cleaned;
        if file_exists {
            self.cleaned = true;
        }
        truncate
    }
}

/// The truncation decisions of a whole run: one per write, from the
/// existence of each write's target at the time it is performed.
pub open spec fn spec_truncations(cleaned: bool, targets_exist: Seq<bool>) -> Seq<bool>
    decreases targets_exist.len(),
{
    if targets_exist.len() == 0 {
        Seq::empty()
    } else {
        seq![targets_exist[0] && !cleaned] + spec_truncations(
            cleaned || targets_exist[0],
            targets_exist.drop_first(),
        )
    }
}

} // verus!
