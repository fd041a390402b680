//! The single plot panel: which array it shows, its slice and flag
//! settings, and the load it waits for.
use vstd::prelude::*;

use crate::json::JsonValue;
use crate::plot::flags::{parse_cf_flags, spec_cf_flags, CfFlags, FlagSelection};
use crate::plot::loader::PlotRequest;
use crate::plot::workspace::{copy_usizes, default_flag_selection, spec_default_flag_selection, zeros};

verus! {

/// State of the plot panel (what it draws stays with the interface).
#[derive(Debug)]
pub struct PlotPanel {
    pub array_path: Option<String>,
    pub slice_indices: Vec<usize>,
    pub flag_selection: FlagSelection,
    pub flags: Option<CfFlags>,
    pub pending_request: Option<PlotRequest>,
    pub has_plot: bool,
    pub loading: bool,
    pub status: String,
}

impl PlotPanel {
    /// An empty panel inviting a selection.
    pub fn new() -> (r: Self)
        ensures
            r.array_path is None,
            r.slice_indices@.len() == 0,
            r.flag_selection == FlagSelection::Raw,
            r.flags is None,
            r.pending_request is None,
            !r.has_plot,
            !r.loading,
            r.status@ == "Select a 2D variable in the hierarchy to display a heatmap."@,
    {
        PlotPanel {
            array_path: None,
            slice_indices: Vec::new(),
            flag_selection: FlagSelection::Raw,
            flags: None,
            pending_request: None,
            has_plot: false,
            loading: false,
            status: String::from_str("Select a 2D variable in the hierarchy to display a heatmap."),
        }
    }

    /// Current fixed indices for dimensions above the plotted 2D slice.
    pub fn slice_indices(&self) -> (r: &[usize])
        ensures
            r@ == self.slice_indices@,
    {
        self.slice_indices.as_slice()
    }

    /// Currently selected flag view.
    pub fn flag_selection(&self) -> (r: FlagSelection)
        ensures
            r == self.flag_selection,
    {
        self.flag_selection
    }

    /// Select the array at `path` for plotting: its flags come from its
    /// attributes, every dimension above the last two is fixed at 0; a
    /// scalar has nothing to plot, anything else queues a full-resolution
    /// load of the first slice.
    pub fn select_array(&mut self, path: &str, shape: &[u64], attributes: &Vec<(String, JsonValue)>)
        ensures
            final(self).array_path matches Some(p) && p@ == path@,
            !final(self).has_plot,
            final(self).slice_indices@ == Seq::new(
                (if shape@.len() >= 2 {
                    shape@.len() - 2
                } else {
                    0
                }) as nat,
                |i: int| 0usize,
            ),
            final(self).flag_selection == spec_default_flag_selection(final(self).flags),
            (final(self).flags is Some) == (spec_cf_flags(attributes@) is Some),
            final(self).flags matches Some(f) ==> spec_cf_flags(attributes@) == Some(f@),
            shape@.len() == 0 ==> final(self).pending_request is None && !final(self).loading
                && final(self).status@ == "Scalar variable — no plot available"@,
            shape@.len() == 1 ==> final(self).status@ == "Loading 1D plot…"@,
            shape@.len() >= 2 && final(self).flags is Some ==> final(self).status@ == "Loading flag plot…"@,
            shape@.len() >= 2 && final(self).flags is None ==> final(self).status@ == "Loading 2D heatmap…"@,
            shape@.len() > 0 ==> final(self).loading && (final(self).pending_request matches Some(q)
                && q.array_path@ == path@ && q.slice_indices@ == final(self).slice_indices@
                && q.flag_selection == final(self).flag_selection && q.resolution_percent == 100
                && q.sample_stride == 1),
    {
        self.array_path = Some(path.to_string());
        self.has_plot = false;
        self.loading = true;
        let flags = parse_cf_flags(attributes);
        self.flag_selection = default_flag_selection(&flags);
        self.flags = flags;
        let extra: usize = if shape.len() >= 2 {
            shape.len() - 2
        } else {
            0
        };
        self.slice_indices = zeros(extra);
        if shape.len() == 0 {
            self.status = String::from_str("Scalar variable — no plot available");
            self.pending_request = None;
            self.loading = false;
            return;
        }
        if shape.len() == 1 {
            self.status = String::from_str("Loading 1D plot…");
        } else if self.flags.is_some() {
            self.status = String::from_str("Loading flag plot…");
        } else {
            self.status = String::from_str("Loading 2D heatmap…");
        }
        let mut request = PlotRequest::new(path);
        request.slice_indices = copy_usizes(&self.slice_indices);
        request.flag_selection = self.flag_selection;
        self.pending_request = Some(request);
    }

    /// Reset the panel.
    pub fn clear(&mut self)
        ensures
            final(self).array_path is None,
            final(self).pending_request is None,
            !final(self).has_plot,
            !final(self).loading,
    {
        *self = PlotPanel::new();
    }

    /// Take the queued load request.
    pub fn take_pending_request(&mut self) -> (r: Option<PlotRequest>)
        ensures
            r == old(self).pending_request,
            final(self).pending_request is None,
            final(self).array_path == old(self).array_path,
            final(self).loading == old(self).loading,
    {
        self.pending_request.take()
    }

    /// A load finished: its plot is shown; flags found while loading
    /// replace the known ones.
    pub fn mark_loaded(&mut self, flags: Option<CfFlags>)
        ensures
            final(self).has_plot,
            !final(self).loading,
            final(self).status@.len() == 0,
            match flags {
                Some(f) => final(self).flags == Some(f),
                None => final(self).flags == old(self).flags,
            },
            final(self).array_path == old(self).array_path,
    {
        if flags.is_some() {
            self.flags = flags;
        }
        self.has_plot = true;
        self.loading = false;
        self.status = String::new();
    }

    /// A load failed: no plot, the message as status.
    pub fn set_error(&mut self, message: String)
        ensures
            !final(self).has_plot,
            !final(self).loading,
            final(self).status == message,
            final(self).array_path == old(self).array_path,
    {
        self.has_plot = false;
        self.loading = false;
        self.status = message;
    }

    /// Whether a plot is shown and nothing is loading.
    pub fn is_plot_ready(&self) -> (r: bool)
        ensures
            r == (self.has_plot && !self.loading),
    {
        self.has_plot && !self.loading
    }
}

} // verus!
