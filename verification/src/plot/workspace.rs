//! The plot workspace: one tab per product and array, layouts that show
//! several tabs at once, and the requests that tabs queue for loading.
use vstd::prelude::*;

use crate::debug_text::{decimal, u64_text};
use crate::json::JsonValue;
use crate::plot::flags::{get_either, parse_cf_flags, spec_cf_flags, CfFlagMode, CfFlags, FlagSelection};
use crate::plot::loader::PlotRequest;
use crate::text::{
    chars_concat, chars_rsplit_once, chars_trim_start_char, push_text, rsplit_once_char, seq_starts_with,
    str_chars, str_is, str_starts_with, string_from_chars, trim_start_char,
};
use crate::zarr::location::clone_string;

verus! {

/// Most tabs kept open; opening another closes one first.
pub const MAX_PLOT_SLOTS: usize = 8;

/// Dedup key: one tab per product + array path.
#[derive(Clone, Debug, PartialEq, Eq, Hash)]
pub struct PlotSlotKey {
    pub store_index: usize,
    pub array_path: String,
}

/// Layout for displaying multiple plots at once.
#[derive(Clone, Copy, Debug, Default, PartialEq, Eq, Structural)]
pub enum PlotLayout {
    #[default]
    Tabs,
    Horizontal,
    Vertical,
    Grid,
}

pub open spec fn spec_capacity(l: PlotLayout) -> nat {
    match l {
        PlotLayout::Tabs => 1,
        PlotLayout::Horizontal => 2,
        PlotLayout::Vertical => 2,
        PlotLayout::Grid => 4,
    }
}

impl PlotLayout {
    /// Name shown in the layout picker.
    pub fn label(self) -> (r: &'static str)
        ensures
            r@ == (match self {
                PlotLayout::Tabs => "Tabs"@,
                PlotLayout::Horizontal => "Horizontal"@,
                PlotLayout::Vertical => "Vertical"@,
                PlotLayout::Grid => "Grid"@,
            }),
    {
        match self {
            PlotLayout::Tabs => "Tabs",
            PlotLayout::Horizontal => "Horizontal",
            PlotLayout::Vertical => "Vertical",
            PlotLayout::Grid => "Grid",
        }
    }

    /// How many tabs the layout shows at once.
    pub fn capacity(self) -> (r: usize)
        ensures
            r == spec_capacity(self),
    {
        match self {
            PlotLayout::Tabs => 1,
            PlotLayout::Horizontal => 2,
            PlotLayout::Vertical => 2,
            PlotLayout::Grid => 4,
        }
    }
}

/// State of one plot tab (what the interface draws stays with the interface).
#[derive(Debug)]
pub struct PlotSlot {
    pub id: u64,
    pub key: PlotSlotKey,
    pub product_label: String,
    pub full_shape: Vec<u64>,
    pub slice_indices: Vec<usize>,
    pub flag_selection: FlagSelection,
    pub resolution_percent: u8,
    pub sample_stride: u32,
    pub flags: Option<CfFlags>,
    pub pending_request: Option<PlotRequest>,
    /// A plot has been loaded and is shown.
    pub has_plot: bool,
    /// A load is in progress.
    pub loading: bool,
    pub status: String,
    pub visible_in_split: bool,
}

/// Bitmask flags start on their first flag; everything else on raw values.
pub open spec fn spec_default_flag_selection(flags: Option<CfFlags>) -> FlagSelection {
    match flags {
        Some(f) if f.mode == CfFlagMode::Masks => FlagSelection::Flag(0),
        _ => FlagSelection::Raw,
    }
}

/// A tab's flags are those parsed from `attrs`, and its layer is the default
/// one for them.
pub open spec fn flags_from_attributes(t: PlotSlot, attrs: Seq<(String, JsonValue)>) -> bool {
    &&& t.flags is Some <==> spec_cf_flags(attrs) is Some
    &&& t.flags matches Some(f) ==> f@ == spec_cf_flags(attrs)->0
    &&& t.flag_selection == spec_default_flag_selection(t.flags)
}

/// The first layer shown for an array is its first flag exactly when its CF
/// flag attributes parse and give bit masks (`flag_masks`); with exclusive
/// `flag_values`, or without flags, the raw values are shown.
pub proof fn lemma_default_flag_layer(flags: Option<CfFlags>, attrs: Seq<(String, JsonValue)>)
    requires
        flags is Some <==> spec_cf_flags(attrs) is Some,
        flags matches Some(f) ==> f@ == spec_cf_flags(attrs)->0,
    ensures
        spec_default_flag_selection(flags) == FlagSelection::Flag(0) || spec_default_flag_selection(flags)
            == FlagSelection::Raw,
        spec_default_flag_selection(flags) == FlagSelection::Flag(0) <==> (spec_cf_flags(attrs) is Some
            && get_either(attrs, "flag_masks"@, "flags_masks"@) is Some),
        spec_cf_flags(attrs) matches Some(f) && f.mode == CfFlagMode::Values ==> spec_default_flag_selection(flags)
            == FlagSelection::Raw,
{
}

pub(crate) fn default_flag_selection(flags: &Option<CfFlags>) -> (r: FlagSelection)
    ensures
        r == spec_default_flag_selection(*flags),
{
    match flags {
        Some(f) => if f.uses_bitmasks() {
            FlagSelection::Flag(0)
        } else {
            FlagSelection::Raw
        },
        None => FlagSelection::Raw,
    }
}

pub(crate) fn zeros(n: usize) -> (r: Vec<usize>)
    ensures
        r@ == Seq::new(n as nat, |i: int| 0usize),
{
    let mut v: Vec<usize> = Vec::new();
    let mut i: usize = 0;
    while i < n
        invariant
            i <= n,
            v@ == Seq::new(i as nat, |k: int| 0usize),
        decreases n - i,
    {
        v.push(0);
        i = i + 1;
        assert(v@ =~= Seq::new(i as nat, |k: int| 0usize));
    }
    v
}

fn copy_u64s(s: &[u64]) -> (r: Vec<u64>)
    ensures
        r@ == s@,
{
    let mut r: Vec<u64> = Vec::new();
    let mut i: usize = 0;
    while i < s.len()
        invariant
            i <= s.len(),
            r@ == s@.subrange(0, i as int),
        decreases s.len() - i,
    {
        r.push(s[i]);
        i = i + 1;
        assert(r@ =~= s@.subrange(0, i as int));
    }
    assert(s@.subrange(0, s@.len() as int) =~= s@);
    r
}

pub(crate) fn copy_usizes(s: &Vec<usize>) -> (r: Vec<usize>)
    ensures
        r@ == s@,
{
    let mut r: Vec<usize> = Vec::new();
    let mut i: usize = 0;
    while i < s.len()
        invariant
            i <= s.len(),
            r@ == s@.subrange(0, i as int),
        decreases s.len() - i,
    {
        r.push(s[i]);
        i = i + 1;
        assert(r@ =~= s@.subrange(0, i as int));
    }
    assert(s@.subrange(0, s@.len() as int) =~= s@);
    r
}

impl PlotSlot {
    /// The request that reloads this tab's plot of `path` with its settings.
    pub fn build_request(&self, path: &str) -> (r: PlotRequest)
        ensures
            r.array_path@ == path@,
            r.slice_indices@ == self.slice_indices@,
            r.flag_selection == self.flag_selection,
            r.resolution_percent == self.resolution_percent,
            r.sample_stride == self.sample_stride,
    {
        PlotRequest {
            array_path: String::from_str(path),
            slice_indices: copy_usizes(&self.slice_indices),
            flag_selection: self.flag_selection,
            resolution_percent: self.resolution_percent,
            sample_stride: self.sample_stride,
        }
    }

    /// Queue a reload of `path`: the request is pending, the plot is
    /// dropped, and loading starts (the status says so, except for scalars).
    pub fn queue_reload(&mut self, path: &str)
        ensures
            final(self).pending_request matches Some(req) && req.array_path@ == path@
                && req.slice_indices@ == old(self).slice_indices@ && req.resolution_percent
                == old(self).resolution_percent && req.sample_stride == old(self).sample_stride
                && req.flag_selection == old(self).flag_selection,
            !final(self).has_plot,
            final(self).loading,
            final(self).id == old(self).id,
            final(self).key == old(self).key,
            final(self).visible_in_split == old(self).visible_in_split,
            final(self).resolution_percent == old(self).resolution_percent,
            final(self).sample_stride == old(self).sample_stride,
            final(self).slice_indices == old(self).slice_indices,
            final(self).flag_selection == old(self).flag_selection,
            final(self).full_shape == old(self).full_shape,
            final(self).product_label == old(self).product_label,
            final(self).flags == old(self).flags,
            seq_starts_with(old(self).status@, "Scalar"@) ==> final(self).status == old(self).status,
            !seq_starts_with(old(self).status@, "Scalar"@) ==> final(self).status@ == "Loading…"@,
    {
        let req = self.build_request(path);
        self.pending_request = Some(req);
        self.has_plot = false;
        self.loading = true;
        if !str_starts_with(self.status.as_str(), "Scalar") {
            self.status = String::from_str("Loading…");
        }
    }

    /// A tab for the array at `path` of shape `shape`: flags from its
    /// attributes, one fixed index (0) per dimension above the last two, full
    /// resolution, every pixel; a non-scalar array queues its first load.
    pub fn new(
        id: u64,
        key: PlotSlotKey,
        product_label: &str,
        path: &str,
        shape: &[u64],
        attributes: &Vec<(String, JsonValue)>,
    ) -> (r: PlotSlot)
        ensures
            r.id == id,
            r.key == key,
            r.full_shape@ == shape@,
            r.slice_indices@.len() == (if shape@.len() >= 2 {
                shape@.len() - 2
            } else {
                0
            }),
            r.resolution_percent == 100,
            r.sample_stride == 1,
            r.visible_in_split,
            r.flags is Some <==> spec_cf_flags(attributes@) is Some,
            r.flags matches Some(f) ==> f@ == spec_cf_flags(attributes@)->0,
            r.flag_selection == spec_default_flag_selection(r.flags),
            shape@.len() == 0 ==> r.pending_request is None && r.status@
                == "Scalar variable — no plot available"@,
            shape@.len() > 0 ==> (r.pending_request matches Some(req) && req.array_path@ == path@),
    {
        let extra: usize = if shape.len() >= 2 {
            shape.len() - 2
        } else {
            0
        };
        let flags = parse_cf_flags(attributes);
        let flag_selection = default_flag_selection(&flags);
        let has_flags = flags.is_some();
        let mut tab = PlotSlot {
            id,
            key,
            product_label: String::from_str(product_label),
            full_shape: copy_u64s(shape),
            slice_indices: zeros(extra),
            flag_selection,
            resolution_percent: 100,
            sample_stride: 1,
            flags,
            pending_request: None,
            has_plot: false,
            loading: false,
            status: String::new(),
            visible_in_split: true,
        };
        if shape.len() == 0 {
            tab.status = String::from_str("Scalar variable — no plot available");
        } else if shape.len() == 1 {
            tab.status = String::from_str("Loading 1D plot…");
            tab.queue_reload(path);
        } else if has_flags {
            tab.status = String::from_str("Loading flag plot…");
            tab.queue_reload(path);
        } else {
            tab.status = String::from_str("Loading 2D heatmap…");
            tab.queue_reload(path);
        }
        tab
    }

    /// Whether the tab's plot has been loaded and nothing is loading.
    pub fn is_plot_ready(&self) -> (r: bool)
        ensures
            r == (self.has_plot && !self.loading),
    {
        self.has_plot && !self.loading
    }
}

/// Last `/`-separated segment of an array path (leading slashes removed).
pub open spec fn spec_var_name(path: Seq<char>) -> Seq<char> {
    let t = trim_start_char(path, '/');
    match rsplit_once_char(t, '/') {
        Some((_, n)) => n,
        None => t,
    }
}

fn concat_strs(a: &str, b: &str, c: &str) -> (r: String)
    ensures
        r@ == a@ + b@ + c@,
{
    let x = str_chars(a);
    let y = str_chars(b);
    let z = str_chars(c);
    let xy = chars_concat(&x, &y);
    let all = chars_concat(&xy, &z);
    string_from_chars(&all)
}

impl PlotSlot {
    /// `product / variable`.
    pub fn tab_label(&self) -> (r: String)
        ensures
            r@ == self.product_label@ + " / "@ + spec_var_name(self.key.array_path@),
    {
        let p = str_chars(self.key.array_path.as_str());
        let t = chars_trim_start_char(&p, '/');
        let name = match chars_rsplit_once(&t, '/') {
            Some((_, n)) => n,
            None => t,
        };
        let var = string_from_chars(&name);
        concat_strs(self.product_label.as_str(), " / ", var.as_str())
    }

    /// `product — path`.
    pub fn tab_hover(&self) -> (r: String)
        ensures
            r@ == self.product_label@ + " — "@ + self.key.array_path@,
    {
        concat_strs(self.product_label.as_str(), " — ", self.key.array_path.as_str())
    }
}

/// Multi-tab plot workspace with optional split layouts.
#[derive(Debug)]
pub struct PlotWorkspace {
    pub slots: Vec<PlotSlot>,
    pub active_slot: Option<u64>,
    pub layout: PlotLayout,
    pub next_id: u64,
}

pub open spec fn key_view(k: PlotSlotKey) -> (usize, Seq<char>) {
    (k.store_index, k.array_path@)
}

/// Tabs are in the order they were opened (increasing ids, all below
/// `next_id`) and no two tabs have the same key.
pub open spec fn tabs_wf(slots: Seq<PlotSlot>, next_id: u64) -> bool {
    &&& forall|i: int, j: int| 0 <= i < j < slots.len() ==> slots[i].id < slots[j].id
    &&& forall|i: int| 0 <= i < slots.len() ==> slots[i].id < next_id
    &&& forall|i: int, j: int|
        0 <= i < j < slots.len() ==> key_view(slots[i].key) != key_view(slots[j].key)
}

/// The same tabs (ids and keys) in the same order; other state may differ.
pub open spec fn same_ids_keys(a: Seq<PlotSlot>, b: Seq<PlotSlot>) -> bool {
    &&& a.len() == b.len()
    &&& forall|k: int| 0 <= k < a.len() ==> (#[trigger] a[k]).id == b[k].id && a[k].key == b[k].key
}

/// The ids of the tabs shown in split view, in tab order.
pub open spec fn visible_ids(s: Seq<PlotSlot>) -> Seq<u64>
    decreases s.len(),
{
    if s.len() == 0 {
        Seq::empty()
    } else {
        let p = visible_ids(s.drop_last());
        if s.last().visible_in_split {
            p.push(s.last().id)
        } else {
            p
        }
    }
}

/// The panes of a split layout: the shown tabs, or the active one when none
/// is shown, cut to the capacity.
pub open spec fn spec_split_panes(s: Seq<PlotSlot>, active: Option<u64>, cap: nat) -> Seq<u64> {
    let v = visible_ids(s);
    let panes = if v.len() == 0 && active is Some {
        seq![active->0]
    } else {
        v
    };
    if panes.len() > cap {
        panes.take(cap as int)
    } else {
        panes
    }
}

/// The same tab with its split-view flag set to `v`.
pub open spec fn with_visible(t: PlotSlot, v: bool) -> PlotSlot {
    PlotSlot { visible_in_split: v, ..t }
}

/// How many tabs a split layout shows.
pub open spec fn count_visible(s: Seq<PlotSlot>) -> nat
    decreases s.len(),
{
    if s.len() == 0 {
        0
    } else {
        count_visible(s.drop_last()) + if s.last().visible_in_split {
            1nat
        } else {
            0nat
        }
    }
}

/// When no tab is shown, the last `cap` tabs (or all, when fewer) are.
pub open spec fn show_last_when_none(s: Seq<PlotSlot>, cap: nat) -> Seq<PlotSlot> {
    if count_visible(s) == 0 {
        Seq::new(
            s.len(),
            |i: int|
                if i >= s.len() - (if s.len() < cap {
                    s.len() as int
                } else {
                    cap as int
                }) {
                    with_visible(s[i], true)
                } else {
                    s[i]
                },
        )
    } else {
        s
    }
}

pub open spec fn is_active_tab(t: PlotSlot, active: Option<u64>) -> bool {
    active == Some(t.id)
}

/// How many of the first `i` tabs stay shown when trimming.
pub open spec fn kept_upto(s: Seq<PlotSlot>, active: Option<u64>, cap: nat, i: int) -> nat
    decreases i,
{
    if i <= 0 {
        0
    } else {
        let k = kept_upto(s, active, cap, i - 1);
        if s[i - 1].visible_in_split && (is_active_tab(s[i - 1], active) || k < cap) {
            k + 1
        } else {
            k
        }
    }
}

/// A shown tab stays shown when it is the active one or fewer than `cap`
/// shown tabs come before it that stayed shown.
pub open spec fn stays_visible(s: Seq<PlotSlot>, active: Option<u64>, cap: nat, i: int) -> bool {
    s[i].visible_in_split && (is_active_tab(s[i], active) || kept_upto(s, active, cap, i) < cap)
}

/// When more tabs are shown than fit, only those that stay shown remain.
pub open spec fn trim_to_capacity(s: Seq<PlotSlot>, active: Option<u64>, cap: nat) -> Seq<PlotSlot> {
    if count_visible(s) > cap {
        Seq::new(s.len(), |i: int| with_visible(s[i], stays_visible(s, active, cap, i)))
    } else {
        s
    }
}

/// The tabs after the split layout's visibility is brought within capacity.
pub open spec fn split_visibility(s: Seq<PlotSlot>, active: Option<u64>, cap: nat) -> Seq<PlotSlot> {
    trim_to_capacity(show_last_when_none(s, cap), active, cap)
}

proof fn lemma_same_wf(a: Seq<PlotSlot>, b: Seq<PlotSlot>, next_id: u64)
    requires
        same_ids_keys(a, b),
        tabs_wf(b, next_id),
    ensures
        tabs_wf(a, next_id),
{
    assert forall|i: int, j: int| 0 <= i < j < a.len() implies a[i].id < a[j].id by {
        assert(a[i].id == b[i].id && a[j].id == b[j].id);
    }
    assert forall|i: int| 0 <= i < a.len() implies a[i].id < next_id by {
        assert(a[i].id == b[i].id);
    }
    assert forall|i: int, j: int| 0 <= i < j < a.len() implies key_view(a[i].key) != key_view(a[j].key) by {
        assert(a[i].key == b[i].key && a[j].key == b[j].key);
    }
}

proof fn lemma_remove_wf(b: Seq<PlotSlot>, i: int, next_id: u64)
    requires
        tabs_wf(b, next_id),
        0 <= i < b.len(),
    ensures
        tabs_wf(b.remove(i), next_id),
{
    let a = b.remove(i);
    assert forall|x: int, y: int| 0 <= x < y < a.len() implies a[x].id < a[y].id && key_view(a[x].key)
        != key_view(a[y].key) by {
        let bx = if x < i { x } else { x + 1 };
        let by = if y < i { y } else { y + 1 };
        assert(a[x] == b[bx] && a[y] == b[by]);
    }
    assert forall|x: int| 0 <= x < a.len() implies a[x].id < next_id by {
        let bx = if x < i { x } else { x + 1 };
        assert(a[x] == b[bx]);
    }
}

/// Index of the tab with id `id`.
pub open spec fn index_of_id(slots: Seq<PlotSlot>, id: u64) -> Option<int> {
    if exists|i: int| 0 <= i < slots.len() && slots[i].id == id {
        Some(choose|i: int| 0 <= i < slots.len() && slots[i].id == id)
    } else {
        None
    }
}

proof fn lemma_index_of_id(slots: Seq<PlotSlot>, id: u64, i: int, next_id: u64)
    requires
        tabs_wf(slots, next_id),
        0 <= i < slots.len(),
        slots[i].id == id,
    ensures
        index_of_id(slots, id) == Some(i),
{
    let k = choose|k: int| 0 <= k < slots.len() && slots[k].id == id;
    assert(0 <= k < slots.len() && slots[k].id == id);
    if k < i {
        assert(slots[k].id < slots[i].id);
    } else if i < k {
        assert(slots[i].id < slots[k].id);
    }
}

/// Index of the tab with key `k`.
pub open spec fn tab_with_key(slots: Seq<PlotSlot>, k: (usize, Seq<char>)) -> Option<int> {
    if exists|i: int| 0 <= i < slots.len() && key_view(slots[i].key) == k {
        Some(choose|i: int| 0 <= i < slots.len() && key_view(slots[i].key) == k)
    } else {
        None
    }
}

fn find_key(slots: &Vec<PlotSlot>, store_index: usize, path: &str) -> (r: Option<usize>)
    ensures
        match r {
            Some(i) => i < slots@.len() && key_view(slots@[i as int].key) == (store_index, path@),
            None => forall|i: int| 0 <= i < slots@.len() ==> key_view(slots@[i].key) != (store_index, path@),
        },
{
    let mut i: usize = 0;
    while i < slots.len()
        invariant
            i <= slots.len(),
            forall|j: int| 0 <= j < i ==> key_view(slots@[j].key) != (store_index, path@),
        decreases slots.len() - i,
    {
        if slots[i].key.store_index == store_index && str_is(slots[i].key.array_path.as_str(), path) {
            return Some(i);
        }
        i = i + 1;
    }
    None
}

fn find_id(slots: &Vec<PlotSlot>, id: u64) -> (r: Option<usize>)
    ensures
        match r {
            Some(i) => i < slots@.len() && slots@[i as int].id == id,
            None => forall|i: int| 0 <= i < slots@.len() ==> slots@[i].id != id,
        },
{
    let mut i: usize = 0;
    while i < slots.len()
        invariant
            i <= slots.len(),
            forall|j: int| 0 <= j < i ==> slots@[j].id != id,
        decreases slots.len() - i,
    {
        if slots[i].id == id {
            return Some(i);
        }
        i = i + 1;
    }
    None
}

impl Default for PlotWorkspace {
    /// The empty workspace of `PlotWorkspace::new`.
    fn default() -> (r: PlotWorkspace)
        ensures
            r.slots@.len() == 0,
            r.active_slot is None,
            r.layout == PlotLayout::Tabs,
            r.next_id == 1,
    {
        PlotWorkspace::new()
    }
}

impl PlotWorkspace {
    /// An empty workspace with the tab layout.
    pub fn new() -> (r: PlotWorkspace)
        ensures
            r.slots@.len() == 0,
            r.active_slot is None,
            r.layout == PlotLayout::Tabs,
            r.next_id == 1,
            tabs_wf(r.slots@, r.next_id),
    {
        PlotWorkspace { slots: Vec::new(), active_slot: None, layout: PlotLayout::Tabs, next_id: 1 }
    }

    /// Remove all plot tabs.
    pub fn clear(&mut self)
        ensures
            final(self).slots@.len() == 0,
            final(self).active_slot is None,
            final(self).layout == PlotLayout::Tabs,
            final(self).next_id == 1,
    {
        *self = PlotWorkspace::new();
    }

    fn visible_count(&self) -> (r: usize)
        ensures
            r == count_visible(self.slots@),
    {
        let mut n: usize = 0;
        let mut i: usize = 0;
        while i < self.slots.len()
            invariant
                i <= self.slots.len(),
                n == count_visible(self.slots@.take(i as int)),
                n <= i,
            decreases self.slots.len() - i,
        {
            assert(self.slots@.take(i + 1).drop_last() =~= self.slots@.take(i as int));
            if self.slots[i].visible_in_split {
                n = n + 1;
            }
            i = i + 1;
        }
        assert(self.slots@.take(i as int) =~= self.slots@);
        n
    }

    /// The tabs a split layout draws, as ids: those shown in split view, in
    /// tab order, or the active tab when none is shown; at most the layout's
    /// capacity of them.
    pub fn split_panes(&self) -> (r: Vec<u64>)
        ensures
            r@ == spec_split_panes(self.slots@, self.active_slot, spec_capacity(self.layout)),
    {
        let mut ids: Vec<u64> = Vec::new();
        let mut i: usize = 0;
        while i < self.slots.len()
            invariant
                i <= self.slots.len(),
                ids@ == visible_ids(self.slots@.take(i as int)),
            decreases self.slots.len() - i,
        {
            assert(self.slots@.take(i + 1).drop_last() =~= self.slots@.take(i as int));
            if self.slots[i].visible_in_split {
                ids.push(self.slots[i].id);
            }
            i = i + 1;
        }
        assert(self.slots@.take(i as int) =~= self.slots@);
        if ids.len() == 0 {
            match self.active_slot {
                Some(a) => ids.push(a),
                None => {},
            }
        }
        let capacity = self.layout.capacity();
        if ids.len() > capacity {
            ids.truncate(capacity);
        }
        ids
    }

    /// Keep the number of tabs shown by a split layout within its capacity:
    /// when none is shown, the last ones are; when too many are, the active
    /// one and the first others up to the capacity stay shown.
    pub fn ensure_split_visibility(&mut self)
        ensures
            final(self).slots@ == split_visibility(
                old(self).slots@,
                old(self).active_slot,
                spec_capacity(old(self).layout),
            ),
            same_ids_keys(final(self).slots@, old(self).slots@),
            final(self).active_slot == old(self).active_slot,
            final(self).layout == old(self).layout,
            final(self).next_id == old(self).next_id,
            tabs_wf(old(self).slots@, old(self).next_id) ==> tabs_wf(final(self).slots@, final(self).next_id),
    {
        let capacity = self.layout.capacity();
        let mut visible = self.visible_count();
        let n = self.slots.len();
        let ghost orig = self.slots@;
        let ghost first = show_last_when_none(orig, capacity as nat);
        if visible == 0 {
            let mut k: usize = 0;
            while k < n && k < capacity
                invariant
                    n == self.slots@.len(),
                    self.active_slot == old(self).active_slot,
                    self.layout == old(self).layout,
                    self.next_id == old(self).next_id,
                    orig.len() == n,
                    k <= n,
                    k <= capacity,
                    forall|i: int|
                        0 <= i < n ==> #[trigger] self.slots@[i] == (if i >= n - k {
                            with_visible(orig[i], true)
                        } else {
                            orig[i]
                        }),
                decreases n - k,
            {
                let idx = n - 1 - k;
                let mut tab = self.slots.remove(idx);
                tab.visible_in_split = true;
                self.slots.insert(idx, tab);
                k = k + 1;
            }
            proof {
                let m = if n < capacity { n as int } else { capacity as int };
                assert(k == m);
                assert(self.slots@ =~= first);
            }
            visible = self.visible_count();
        } else {
            assert(self.slots@ =~= first);
        }
        assert(self.slots@ == first);
        let ghost goal = trim_to_capacity(first, old(self).active_slot, capacity as nat);
        assert(same_ids_keys(self.slots@, orig)) by {
            assert forall|k: int| 0 <= k < self.slots@.len() implies (#[trigger] self.slots@[k]).id
                == orig[k].id && self.slots@[k].key == orig[k].key by {}
        }
        if visible > capacity {
            let active = self.active_slot;
            let mut kept: usize = 0;
            let mut i: usize = 0;
            while i < n
                invariant
                    n == self.slots@.len(),
                    self.active_slot == old(self).active_slot,
                    self.layout == old(self).layout,
                    self.next_id == old(self).next_id,
                    active == old(self).active_slot,
                    first.len() == n,
                    i <= n,
                    kept <= i,
                    kept == kept_upto(first, active, capacity as nat, i as int),
                    count_visible(first) > capacity,
                    goal == trim_to_capacity(first, active, capacity as nat),
                    forall|j: int|
                        0 <= j < n ==> #[trigger] self.slots@[j] == (if j < i {
                            goal[j]
                        } else {
                            first[j]
                        }),
                decreases n - i,
            {
                let ghost before = self.slots@;
                if self.slots[i].visible_in_split {
                    let is_active = match active {
                        Some(a) => a == self.slots[i].id,
                        None => false,
                    };
                    if is_active || kept < capacity {
                        kept = kept + 1;
                    } else {
                        let mut tab = self.slots.remove(i);
                        tab.visible_in_split = false;
                        self.slots.insert(i, tab);
                    }
                }
                proof {
                    assert(first[i as int] == before[i as int]);
                }
                i = i + 1;
            }
            assert(self.slots@ =~= goal);
        } else {
            assert(goal == first);
        }
        proof {
            assert(self.slots@ == split_visibility(orig, old(self).active_slot, capacity as nat));
            assert(same_ids_keys(self.slots@, orig)) by {
                assert forall|k: int| 0 <= k < self.slots@.len() implies (#[trigger] self.slots@[k]).id
                    == orig[k].id && self.slots@[k].key == orig[k].key by {
                    assert(first[k].id == orig[k].id && first[k].key == orig[k].key);
                }
            }
            if tabs_wf(orig, self.next_id) {
                lemma_same_wf(self.slots@, orig, self.next_id);
            }
        }
    }

    /// Close the tab `slot_id`; when it was active, the last tab becomes active.
    pub fn close_slot(&mut self, slot_id: u64)
        requires
            tabs_wf(old(self).slots@, old(self).next_id),
        ensures
            tabs_wf(final(self).slots@, final(self).next_id),
            final(self).next_id == old(self).next_id,
            final(self).layout == old(self).layout,
            match index_of_id(old(self).slots@, slot_id) {
                Some(i) => same_ids_keys(final(self).slots@, old(self).slots@.remove(i)),
                None => same_ids_keys(final(self).slots@, old(self).slots@),
            },
    {
        match find_id(&self.slots, slot_id) {
            Some(i) => {
                let ghost before = self.slots@;
                proof {
                    lemma_index_of_id(before, slot_id, i as int, self.next_id);
                }
                let _gone = self.slots.remove(i);
                proof {
                    lemma_remove_wf(before, i as int, self.next_id);
                }
            },
            None => {
                proof {
                    assert(!(exists|k: int| 0 <= k < self.slots@.len() && self.slots@[k].id == slot_id));
                }
            },
        }
        let ghost mid = self.slots@;
        if self.active_slot == Some(slot_id) {
            self.active_slot = if self.slots.len() > 0 {
                Some(self.slots[self.slots.len() - 1].id)
            } else {
                None
            };
        }
        self.ensure_split_visibility();
        proof {
            assert(same_ids_keys(mid, mid));
        }
    }

    /// Close tabs until fewer than `MAX_PLOT_SLOTS` are open: the first tab
    /// that is not active goes first.
    pub fn evict_if_needed(&mut self)
        requires
            tabs_wf(old(self).slots@, old(self).next_id),
        ensures
            tabs_wf(final(self).slots@, final(self).next_id),
            final(self).slots@.len() < MAX_PLOT_SLOTS,
            final(self).next_id == old(self).next_id,
            final(self).layout == old(self).layout,
            forall|i: int|
                0 <= i < final(self).slots@.len() ==> exists|j: int|
                    0 <= j < old(self).slots@.len() && old(self).slots@[j].id == (
                    #[trigger] final(self).slots@[i]).id && old(self).slots@[j].key == final(
                    self).slots@[i].key,
    {
        let ghost orig = self.slots@;
        while self.slots.len() >= MAX_PLOT_SLOTS
            invariant
                tabs_wf(self.slots@, self.next_id),
                self.next_id == old(self).next_id,
                self.layout == old(self).layout,
                orig == old(self).slots@,
                forall|i: int|
                    0 <= i < self.slots@.len() ==> exists|j: int|
                        0 <= j < orig.len() && orig[j].id == (#[trigger] self.slots@[i]).id && orig[j].key
                            == self.slots@[i].key,
            decreases self.slots@.len(),
        {
            let mut evict = self.slots[0].id;
            let mut i: usize = 0;
            while i < self.slots.len()
                invariant
                    i <= self.slots.len(),
                    self.slots@.len() >= MAX_PLOT_SLOTS,
                    exists|j: int| 0 <= j < self.slots@.len() && self.slots@[j].id == evict,
                decreases self.slots.len() - i,
            {
                if Some(self.slots[i].id) != self.active_slot {
                    evict = self.slots[i].id;
                    break;
                }
                i = i + 1;
            }
            let ghost before = self.slots@;
            let ghost k = choose|j: int| 0 <= j < before.len() && before[j].id == evict;
            proof {
                lemma_index_of_id(before, evict, k, self.next_id);
            }
            self.close_slot(evict);
            proof {
                let rem = before.remove(k);
                assert forall|i: int|
                    0 <= i < self.slots@.len() implies exists|j: int|
                        0 <= j < orig.len() && orig[j].id == (#[trigger] self.slots@[i]).id && orig[j].key
                            == self.slots@[i].key by {
                    let bi = if i < k { i } else { i + 1 };
                    assert(self.slots@[i].id == rem[i].id && self.slots@[i].key == rem[i].key);
                    assert(rem[i] == before[bi]);
                    assert(before[bi].id == self.slots@[i].id);
                }
            }
        }
    }
}

/// One tab per product and array path: two tabs of a well-formed workspace
/// with the same key are the same tab.
pub proof fn lemma_one_tab_per_key(slots: Seq<PlotSlot>, next_id: u64, i: int, j: int)
    requires
        tabs_wf(slots, next_id),
        0 <= i < slots.len(),
        0 <= j < slots.len(),
        key_view(slots[i].key) == key_view(slots[j].key),
    ensures
        i == j,
{
    if i < j {
        assert(key_view(slots[i].key) != key_view(slots[j].key));
    } else if j < i {
        assert(key_view(slots[j].key) != key_view(slots[i].key));
    }
}

/// `item` is the request that the tab with its id had queued in `slots`.
pub open spec fn queued_in(slots: Seq<PlotSlot>, item: (u64, PlotRequest)) -> bool {
    exists|j: int| 0 <= j < slots.len() && slots[j].id == item.0 && slots[j].pending_request == Some(item.1)
}

pub open spec fn ids_keys(slots: Seq<PlotSlot>) -> Seq<(u64, (usize, Seq<char>))> {
    slots.map_values(|t: PlotSlot| (t.id, key_view(t.key)))
}

/// The tabs left when product `c` is closed: its tabs go, and the products
/// after it move down by one.
pub open spec fn after_close(s: Seq<(u64, (usize, Seq<char>))>, c: usize) -> Seq<(u64, (usize, Seq<char>))>
    decreases s.len(),
{
    if s.len() == 0 {
        Seq::empty()
    } else {
        let prev = after_close(s.drop_last(), c);
        let (id, (si, p)) = s.last();
        if si == c {
            prev
        } else if si > c {
            prev.push((id, ((si - 1) as usize, p)))
        } else {
            prev.push((id, (si, p)))
        }
    }
}

pub open spec fn reindex(si: usize, c: usize) -> usize {
    if si > c {
        (si - 1) as usize
    } else {
        si
    }
}

proof fn lemma_after_close_members(s: Seq<(u64, (usize, Seq<char>))>, c: usize)
    ensures
        forall|k: int|
            0 <= k < after_close(s, c).len() ==> exists|j: int|
                0 <= j < s.len() && s[j].1.0 != c && (#[trigger] after_close(s, c)[k]) == (
                s[j].0,
                (reindex(s[j].1.0, c), s[j].1.1),
            ),
    decreases s.len(),
{
    if s.len() > 0 {
        let d = s.drop_last();
        lemma_after_close_members(d, c);
        let r = after_close(s, c);
        let rd = after_close(d, c);
        assert forall|k: int| 0 <= k < r.len() implies exists|j: int|
            0 <= j < s.len() && s[j].1.0 != c && (#[trigger] r[k]) == (s[j].0, (reindex(s[j].1.0, c), s[j].1.1)) by {
            if k < rd.len() {
                let j = choose|j: int|
                    0 <= j < d.len() && d[j].1.0 != c && rd[k] == (d[j].0, (reindex(d[j].1.0, c), d[j].1.1));
                assert(s[j] == d[j]);
                assert(r[k] == rd[k]);
            } else {
                assert(r[k] == (s.last().0, (reindex(s.last().1.0, c), s.last().1.1)));
                assert(s[s.len() - 1] == s.last());
            }
        }
    }
}

proof fn lemma_after_close_order(s: Seq<(u64, (usize, Seq<char>))>, c: usize)
    requires
        forall|i: int, j: int| 0 <= i < j < s.len() ==> s[i].0 < s[j].0,
        forall|i: int, j: int| 0 <= i < j < s.len() ==> s[i].1 != s[j].1,
    ensures
        forall|i: int, j: int|
            0 <= i < j < after_close(s, c).len() ==> after_close(s, c)[i].0 < after_close(s, c)[j].0,
        forall|i: int, j: int|
            0 <= i < j < after_close(s, c).len() ==> after_close(s, c)[i].1 != after_close(s, c)[j].1,
    decreases s.len(),
{
    if s.len() > 0 {
        let d = s.drop_last();
        lemma_after_close_order(d, c);
        lemma_after_close_members(d, c);
        let r = after_close(s, c);
        let rd = after_close(d, c);
        let last = s.last();
        assert(s[s.len() - 1] == last);
        if last.1.0 != c {
            assert(r == rd.push((last.0, (reindex(last.1.0, c), last.1.1))));
            assert forall|i: int| 0 <= i < rd.len() implies rd[i].0 < last.0 && rd[i].1 != (reindex(
                last.1.0,
                c,
            ), last.1.1) by {
                let j = choose|j: int|
                    0 <= j < d.len() && d[j].1.0 != c && rd[i] == (d[j].0, (reindex(d[j].1.0, c), d[j].1.1));
                assert(d[j] == s[j]);
                assert(s[j].0 < s[s.len() - 1].0);
                assert(s[j].1 != s[s.len() - 1].1);
            }
            assert forall|i: int, j: int| 0 <= i < j < r.len() implies r[i].0 < r[j].0 && r[i].1 != r[j].1 by {
                if j < rd.len() {
                    assert(r[i] == rd[i] && r[j] == rd[j]);
                } else {
                    assert(r[i] == rd[i]);
                }
            }
        }
    }
}

impl PlotWorkspace {
    /// Open or focus a plot tab for the array `path` of product `store_index`.
    /// An existing tab for that key is focused; otherwise tabs are evicted
    /// down to the limit and a new tab (with the next id) is opened and
    /// focused. Returns `(slot_id, is_new)`. The array's fill value only
    /// matters when decoded samples are masked, which happens outside the tab state.
    pub fn open_or_focus(
        &mut self,
        store_index: usize,
        path: &str,
        shape: &[u64],
        attributes: &Vec<(String, JsonValue)>,
        _zarr_fill_value: Option<&JsonValue>,
        product_label: &str,
    ) -> (r: (u64, bool))
        requires
            tabs_wf(old(self).slots@, old(self).next_id),
            old(self).next_id < u64::MAX,
        ensures
            tabs_wf(final(self).slots@, final(self).next_id),
            final(self).active_slot == Some(r.0),
            exists|k: int|
                0 <= k < final(self).slots@.len() && (#[trigger] final(self).slots@[k]).id == r.0
                    && key_view(final(self).slots@[k].key) == (store_index, path@),
            (exists|i: int|
                0 <= i < old(self).slots@.len() && key_view(old(self).slots@[i].key) == (store_index, path@))
                ==> !r.1 && final(self).slots@ == old(self).slots@ && final(self).next_id == old(
                self,
            ).next_id,
            !(exists|i: int|
                0 <= i < old(self).slots@.len() && key_view(old(self).slots@[i].key) == (store_index, path@))
                ==> r.1 && r.0 == old(self).next_id && final(self).next_id == old(self).next_id + 1
                && final(self).slots@.len() <= MAX_PLOT_SLOTS,
            r.1 ==> final(self).slots@.len() > 0 && final(self).slots@.last().id == r.0
                && flags_from_attributes(final(self).slots@.last(), attributes@),
    {
        match find_key(&self.slots, store_index, path) {
            Some(i) => {
                let id = self.slots[i].id;
                self.active_slot = Some(id);
                return (id, false);
            },
            None => {},
        }
        let ghost before = self.slots@;
        self.evict_if_needed();
        let id = self.next_id;
        self.next_id = self.next_id + 1;
        let key = PlotSlotKey { store_index, array_path: String::from_str(path) };
        let tab = PlotSlot::new(id, key, product_label, path, shape, attributes);
        let ghost mid = self.slots@;
        self.slots.push(tab);
        proof {
            let s = self.slots@;
            assert forall|a: int, b: int| 0 <= a < b < s.len() implies s[a].id < s[b].id && key_view(s[a].key)
                != key_view(s[b].key) by {
                if b == s.len() - 1 {
                    assert(s[a] == mid[a]);
                    let j = choose|j: int|
                        0 <= j < before.len() && before[j].id == mid[a].id && before[j].key == mid[a].key;
                    assert(key_view(before[j].key) != (store_index, path@));
                } else {
                    assert(s[a] == mid[a] && s[b] == mid[b]);
                }
            }
        }
        self.active_slot = Some(id);
        let ghost pushed = self.slots@;
        self.ensure_split_visibility();
        proof {
            let s = self.slots@;
            let n = pushed.len() - 1;
            let first = show_last_when_none(pushed, spec_capacity(self.layout));
            assert(first[n].flags == pushed[n].flags && first[n].flag_selection == pushed[n].flag_selection);
            assert(s[n].flags == first[n].flags && s[n].flag_selection == first[n].flag_selection);
            assert(s[s.len() - 1].id == pushed[pushed.len() - 1].id);
            assert(s[s.len() - 1].key == pushed[pushed.len() - 1].key);
        }
        (id, true)
    }

    /// Switch plot layout mode (tabs, horizontal, vertical, grid).
    pub fn set_layout(&mut self, layout: PlotLayout)
        requires
            tabs_wf(old(self).slots@, old(self).next_id),
        ensures
            final(self).layout == layout,
            same_ids_keys(final(self).slots@, old(self).slots@),
            tabs_wf(final(self).slots@, final(self).next_id),
            final(self).active_slot == old(self).active_slot,
    {
        self.layout = layout;
        self.ensure_split_visibility();
    }

    /// Collect pending load requests from all tabs, in tab order.
    pub fn take_pending_requests(&mut self) -> (r: Vec<(u64, PlotRequest)>)
        ensures
            same_ids_keys(final(self).slots@, old(self).slots@),
            forall|k: int| 0 <= k < final(self).slots@.len() ==> (#[trigger] final(self).slots@[k]).pending_request is None,
            r@.len() <= old(self).slots@.len(),
            forall|k: int| 0 <= k < r@.len() ==> queued_in(old(self).slots@, #[trigger] r@[k]),
            final(self).active_slot == old(self).active_slot,
            final(self).layout == old(self).layout,
            final(self).next_id == old(self).next_id,
    {
        let ghost orig = self.slots@;
        let mut pending: Vec<(u64, PlotRequest)> = Vec::new();
        let n = self.slots.len();
        let mut i: usize = 0;
        while i < n
            invariant
                n == self.slots@.len(),
                orig.len() == n,
                i <= n,
                pending@.len() <= i,
                self.active_slot == old(self).active_slot,
                self.layout == old(self).layout,
                self.next_id == old(self).next_id,
                orig == old(self).slots@,
                forall|k: int| 0 <= k < n ==> (#[trigger] self.slots@[k]).id == orig[k].id && self.slots@[k].key == orig[k].key,
                forall|k: int| 0 <= k < i ==> (#[trigger] self.slots@[k]).pending_request is None,
                forall|k: int| i <= k < n ==> (#[trigger] self.slots@[k]) == orig[k],
                forall|k: int| 0 <= k < pending@.len() ==> queued_in(orig, #[trigger] pending@[k]),
            decreases n - i,
        {
            let mut tab = self.slots.remove(i);
            let req = tab.pending_request.take();
            let id = tab.id;
            self.slots.insert(i, tab);
            match req {
                Some(rq) => {
                    pending.push((id, rq));
                },
                None => {},
            }
            i = i + 1;
        }
        pending
    }

    fn slot_index(&self, id: u64) -> (r: Option<usize>)
        ensures
            match r {
                Some(i) => i < self.slots@.len() && self.slots@[i as int].id == id,
                None => forall|i: int| 0 <= i < self.slots@.len() ==> self.slots@[i].id != id,
            },
    {
        find_id(&self.slots, id)
    }

    /// Product index of a tab.
    pub fn store_index_for_slot(&self, slot_id: u64) -> (r: Option<usize>)
        ensures
            match r {
                Some(si) => exists|i: int|
                    0 <= i < self.slots@.len() && self.slots@[i].id == slot_id
                        && self.slots@[i].key.store_index == si,
                None => forall|i: int| 0 <= i < self.slots@.len() ==> self.slots@[i].id != slot_id,
            },
    {
        match self.slot_index(slot_id) {
            Some(i) => Some(self.slots[i].key.store_index),
            None => None,
        }
    }

    /// Whether tab `slot_id` shows array `path` of product `store_index`.
    pub fn slot_matches_selection(&self, slot_id: u64, store_index: usize, path: &str) -> (r: bool)
        requires
            tabs_wf(self.slots@, self.next_id),
        ensures
            r == (exists|i: int|
                0 <= i < self.slots@.len() && self.slots@[i].id == slot_id && key_view(self.slots@[i].key)
                    == (store_index, path@)),
    {
        match self.slot_index(slot_id) {
            Some(i) => {
                let m = self.slots[i].key.store_index == store_index && str_is(
                    self.slots[i].key.array_path.as_str(),
                    path,
                );
                proof {
                    assert forall|k: int| 0 <= k < self.slots@.len() && self.slots@[k].id == slot_id implies k
                        == i by {
                        if k < i {
                            assert(self.slots@[k].id < self.slots@[i as int].id);
                        } else if k > i {
                            assert(self.slots@[i as int].id < self.slots@[k].id);
                        }
                    }
                }
                m
            },
            None => false,
        }
    }

    /// Whether the active tab's plot is ready.
    pub fn is_plot_ready(&self) -> (r: bool)
        requires
            tabs_wf(self.slots@, self.next_id),
        ensures
            r == match self.active_slot {
                Some(id) => exists|i: int|
                    0 <= i < self.slots@.len() && self.slots@[i].id == id && self.slots@[i].has_plot
                        && !self.slots@[i].loading,
                None => false,
            },
    {
        proof {
            assert forall|i: int, j: int| 0 <= i < self.slots@.len() && 0 <= j < self.slots@.len() && self.slots@[i].id
                == self.slots@[j].id implies i == j by {
                if i < j {
                    assert(self.slots@[i].id < self.slots@[j].id);
                } else if j < i {
                    assert(self.slots@[j].id < self.slots@[i].id);
                }
            }
        }
        match self.active_slot {
            Some(id) => match self.slot_index(id) {
                Some(i) => self.slots[i].is_plot_ready(),
                None => false,
            },
            None => false,
        }
    }

    /// Whether the tab for `store_index` + `path` has finished loading.
    pub fn is_slot_ready(&self, store_index: usize, path: &str) -> (r: bool)
        ensures
            r == (exists|i: int|
                0 <= i < self.slots@.len() && key_view(self.slots@[i].key) == (store_index, path@)
                    && self.slots@[i].has_plot && !self.slots@[i].loading),
    {
        let mut i: usize = 0;
        while i < self.slots.len()
            invariant
                i <= self.slots.len(),
                forall|j: int|
                    0 <= j < i ==> !(key_view(self.slots@[j].key) == (store_index, path@)
                        && self.slots@[j].has_plot && !self.slots@[j].loading),
            decreases self.slots.len() - i,
        {
            if self.slots[i].key.store_index == store_index && str_is(self.slots[i].key.array_path.as_str(), path)
                && self.slots[i].is_plot_ready() {
                return true;
            }
            i = i + 1;
        }
        false
    }

    /// Active tab flag selection (raw values without an active tab).
    pub fn active_flag_selection(&self) -> (r: FlagSelection)
        requires
            tabs_wf(self.slots@, self.next_id),
        ensures
            match self.active_slot {
                Some(id) => if exists|i: int| 0 <= i < self.slots@.len() && self.slots@[i].id == id {
                    exists|i: int| 0 <= i < self.slots@.len() && self.slots@[i].id == id && r == self.slots@[i].flag_selection
                } else {
                    r == FlagSelection::Raw
                },
                None => r == FlagSelection::Raw,
            },
    {
        match self.active_slot {
            Some(id) => match self.slot_index(id) {
                Some(i) => self.slots[i].flag_selection,
                None => FlagSelection::Raw,
            },
            None => FlagSelection::Raw,
        }
    }

    /// Active tab slice indices (none without an active tab).
    pub fn active_slice_indices(&self) -> (r: Vec<usize>)
        requires
            tabs_wf(self.slots@, self.next_id),
        ensures
            match self.active_slot {
                Some(id) => if exists|i: int| 0 <= i < self.slots@.len() && self.slots@[i].id == id {
                    exists|i: int| 0 <= i < self.slots@.len() && self.slots@[i].id == id && r@ == self.slots@[i].slice_indices@
                } else {
                    r@.len() == 0
                },
                None => r@.len() == 0,
            },
    {
        match self.active_slot {
            Some(id) => match self.slot_index(id) {
                Some(i) => copy_usizes(&self.slots[i].slice_indices),
                None => Vec::new(),
            },
            None => Vec::new(),
        }
    }

    /// Set the resolution of the tab for `store_index` + `path` (clamped to
    /// 1–100), queue its reload, and focus it; `false` when there is no such tab.
    pub fn set_slot_resolution_percent(&mut self, store_index: usize, path: &str, percent: u8) -> (r: bool)
        requires
            tabs_wf(old(self).slots@, old(self).next_id),
        ensures
            tabs_wf(final(self).slots@, final(self).next_id),
            same_ids_keys(final(self).slots@, old(self).slots@),
            r == (exists|i: int|
                0 <= i < old(self).slots@.len() && key_view(old(self).slots@[i].key) == (store_index, path@)),
            r ==> exists|i: int|
                0 <= i < final(self).slots@.len() && key_view((#[trigger] final(self).slots@[i]).key) == (
                store_index,
                path@,
            ) && final(self).active_slot == Some(final(self).slots@[i].id) && final(self).slots@[i].resolution_percent
                == (if percent < 1 {
                1
            } else if percent > 100 {
                100
            } else {
                percent
            }) && final(self).slots@[i].pending_request is Some,
            !r ==> final(self).slots@ == old(self).slots@ && final(self).active_slot == old(self).active_slot,
    {
        match find_key(&self.slots, store_index, path) {
            None => false,
            Some(i) => {
                let ghost before = self.slots@;
                let mut tab = self.slots.remove(i);
                tab.resolution_percent = if percent < 1 {
                    1
                } else if percent > 100 {
                    100
                } else {
                    percent
                };
                tab.queue_reload(path);
                let id = tab.id;
                let ghost t = tab;
                self.slots.insert(i, tab);
                self.active_slot = Some(id);
                proof {
                    assert(self.slots@[i as int] == t);
                    assert(key_view(self.slots@[i as int].key) == key_view(before[i as int].key));
                    assert(same_ids_keys(self.slots@, before));
                    lemma_same_wf(self.slots@, before, self.next_id);
                }
                true
            },
        }
    }

    /// Record that tab `slot_id` finished loading: its plot is shown, flags
    /// found while loading replace the known ones.
    pub fn mark_loaded(&mut self, slot_id: u64, flags: Option<CfFlags>)
        requires
            tabs_wf(old(self).slots@, old(self).next_id),
        ensures
            tabs_wf(final(self).slots@, final(self).next_id),
            same_ids_keys(final(self).slots@, old(self).slots@),
            forall|i: int|
                0 <= i < final(self).slots@.len() && (#[trigger] final(self).slots@[i]).id == slot_id
                    ==> final(self).slots@[i].has_plot && !final(self).slots@[i].loading
                    && final(self).slots@[i].status@.len() == 0,
    {
        match self.slot_index(slot_id) {
            Some(i) => {
                let ghost before = self.slots@;
                let mut tab = self.slots.remove(i);
                match flags {
                    Some(f) => {
                        tab.flags = Some(f);
                    },
                    None => {},
                }
                tab.has_plot = true;
                tab.loading = false;
                tab.status = String::new();
                self.slots.insert(i, tab);
                proof {
                    assert(same_ids_keys(self.slots@, before));
                    lemma_same_wf(self.slots@, before, self.next_id);
                    assert forall|k: int|
                        0 <= k < self.slots@.len() && (#[trigger] self.slots@[k]).id == slot_id implies k == i by {
                        if k < i {
                            assert(self.slots@[k].id < self.slots@[i as int].id);
                        } else if k > i {
                            assert(self.slots@[i as int].id < self.slots@[k].id);
                        }
                    }
                }
            },
            None => {},
        }
    }

    /// Record that loading tab `slot_id` failed with `message`.
    pub fn set_error(&mut self, slot_id: u64, message: String)
        requires
            tabs_wf(old(self).slots@, old(self).next_id),
        ensures
            tabs_wf(final(self).slots@, final(self).next_id),
            same_ids_keys(final(self).slots@, old(self).slots@),
            forall|i: int|
                0 <= i < final(self).slots@.len() && (#[trigger] final(self).slots@[i]).id == slot_id
                    ==> !final(self).slots@[i].has_plot && !final(self).slots@[i].loading
                    && final(self).slots@[i].status@ == message@,
    {
        match self.slot_index(slot_id) {
            Some(i) => {
                let ghost before = self.slots@;
                let mut tab = self.slots.remove(i);
                tab.has_plot = false;
                tab.loading = false;
                tab.status = message;
                self.slots.insert(i, tab);
                proof {
                    assert(same_ids_keys(self.slots@, before));
                    lemma_same_wf(self.slots@, before, self.next_id);
                    assert forall|k: int|
                        0 <= k < self.slots@.len() && (#[trigger] self.slots@[k]).id == slot_id implies k == i by {
                        if k < i {
                            assert(self.slots@[k].id < self.slots@[i as int].id);
                        } else if k > i {
                            assert(self.slots@[i as int].id < self.slots@[k].id);
                        }
                    }
                }
            },
            None => {},
        }
    }

    /// Reindex and remove tabs after product `closed_index` was closed: its
    /// tabs go, later products' indices move down by one. The last tab
    /// becomes active when the selection was closed; the first when the
    /// active tab went away; none when no tab is left.
    pub fn on_product_closed(&mut self, closed_index: usize, selection_was_closed: bool)
        requires
            tabs_wf(old(self).slots@, old(self).next_id),
        ensures
            tabs_wf(final(self).slots@, final(self).next_id),
            ids_keys(final(self).slots@) == after_close(ids_keys(old(self).slots@), closed_index),
            final(self).slots@.len() == 0 ==> final(self).active_slot is None,
            final(self).slots@.len() > 0 && selection_was_closed ==> final(self).active_slot == Some(
                final(self).slots@.last().id,
            ),
            final(self).slots@.len() > 0 && !selection_was_closed ==> match old(self).active_slot {
                Some(id) => if exists|i: int| 0 <= i < final(self).slots@.len() && final(self).slots@[i].id == id {
                    final(self).active_slot == Some(id)
                } else {
                    final(self).active_slot == Some(final(self).slots@[0].id)
                },
                None => final(self).active_slot is None,
            },
            final(self).next_id == old(self).next_id,
            final(self).layout == old(self).layout,
    {
        let ghost orig = ids_keys(self.slots@);
        let mut old_slots: Vec<PlotSlot> = Vec::new();
        std::mem::swap(&mut old_slots, &mut self.slots);
        let ghost src = old_slots@;
        let n = old_slots.len();
        let mut i: usize = 0;
        while i < n
            invariant
                n == src.len(),
                i <= n,
                old_slots@ == src.subrange(i as int, n as int),
                orig == ids_keys(src),
                ids_keys(self.slots@) == after_close(ids_keys(src.subrange(0, i as int)), closed_index),
                self.next_id == old(self).next_id,
                self.layout == old(self).layout,
                self.active_slot == old(self).active_slot,
            decreases n - i,
        {
            let mut tab = old_slots.remove(0);
            let ghost pre = src.subrange(0, i + 1);
            proof {
                assert(tab == src[i as int]);
                assert(src.subrange(i + 1, n as int) =~= src.subrange(i as int, n as int).drop_first());
                assert(ids_keys(pre).drop_last() =~= ids_keys(src.subrange(0, i as int)));
                assert(ids_keys(pre).last() == (tab.id, key_view(tab.key)));
            }
            if tab.key.store_index != closed_index {
                if tab.key.store_index > closed_index {
                    tab.key.store_index = tab.key.store_index - 1;
                }
                let ghost before = self.slots@;
                self.slots.push(tab);
                assert(ids_keys(self.slots@) =~= ids_keys(before).push((tab.id, key_view(tab.key))));
            }
            i = i + 1;
        }
        proof {
            assert(src.subrange(0, n as int) =~= src);
            let t = ids_keys(src);
            assert forall|a: int, b: int| 0 <= a < b < t.len() implies t[a].0 < t[b].0 && t[a].1 != t[b].1 by {}
            lemma_after_close_order(t, closed_index);
            let s = self.slots@;
            assert forall|a: int, b: int| 0 <= a < b < s.len() implies s[a].id < s[b].id && key_view(s[a].key)
                != key_view(s[b].key) by {
                assert(ids_keys(s)[a] == (s[a].id, key_view(s[a].key)));
                assert(ids_keys(s)[b] == (s[b].id, key_view(s[b].key)));
            }
            lemma_after_close_members(t, closed_index);
            assert forall|a: int| 0 <= a < s.len() implies s[a].id < self.next_id by {
                assert(ids_keys(s)[a] == (s[a].id, key_view(s[a].key)));
                let j = choose|j: int|
                    0 <= j < t.len() && t[j].1.0 != closed_index && after_close(t, closed_index)[a] == (
                        t[j].0,
                        (reindex(t[j].1.0, closed_index), t[j].1.1),
                    );
                assert(t[j].0 == src[j].id);
            }
        }
        if selection_was_closed {
            self.active_slot = if self.slots.len() > 0 {
                Some(self.slots[self.slots.len() - 1].id)
            } else {
                None
            };
        } else {
            let gone = match self.active_slot {
                Some(id) => self.slot_index(id).is_none(),
                None => false,
            };
            if gone {
                self.active_slot = if self.slots.len() > 0 {
                    Some(self.slots[0].id)
                } else {
                    None
                };
            }
        }
        if self.slots.len() == 0 {
            self.active_slot = None;
        }
    }
}

/// What the heatmap rendering knows of the window it shows: the rows
/// `y_start..y_end` and columns `x_start..x_end` of an array of shape
/// `full_shape`, at `resolution_percent`, every `sample_stride`-th sample.
pub struct HeatmapMeta {
    pub y_start: u64,
    pub y_end: u64,
    pub x_start: u64,
    pub x_end: u64,
    pub full_shape: Vec<u64>,
    pub resolution_percent: u8,
    pub sample_stride: u32,
}

/// Whether the shown window is less than the whole array.
pub open spec fn spec_window_is_partial(m: HeatmapMeta) -> bool {
    let n = m.full_shape@.len();
    n >= 2 && (m.resolution_percent < 100 || m.y_end - m.y_start < m.full_shape@[n - 2] || m.x_end
        - m.x_start < m.full_shape@[n - 1])
}

/// `W × H px`, then ` (P% window h × w of H × W)` for a partial window, then
/// `, stride S` when samples are skipped.
pub open spec fn spec_heatmap_size_label(width: u64, height: u64, m: HeatmapMeta) -> Seq<char> {
    let n = m.full_shape@.len();
    let head = decimal(width as nat) + " × "@ + decimal(height as nat) + " px"@;
    let window = if spec_window_is_partial(m) {
        " ("@ + decimal(m.resolution_percent as nat) + "% window "@ + decimal((m.y_end - m.y_start) as nat)
            + " × "@ + decimal((m.x_end - m.x_start) as nat) + " of "@ + decimal(m.full_shape@[n - 2] as nat)
            + " × "@ + decimal(m.full_shape@[n - 1] as nat) + ")"@
    } else {
        Seq::empty()
    };
    let stride = if m.sample_stride > 1 {
        ", stride "@ + decimal(m.sample_stride as nat)
    } else {
        Seq::empty()
    };
    head + window + stride
}

/// The size caption under a heatmap.
pub fn heatmap_size_label(width: u64, height: u64, meta: &HeatmapMeta) -> (r: String)
    requires
        meta.y_start <= meta.y_end,
        meta.x_start <= meta.x_end,
    ensures
        r@ == spec_heatmap_size_label(width, height, *meta),
{
    let window_h = meta.y_end - meta.y_start;
    let window_w = meta.x_end - meta.x_start;
    let mut buf: Vec<char> = Vec::new();
    push_text(&mut buf, u64_text(width).as_str());
    push_text(&mut buf, " × ");
    push_text(&mut buf, u64_text(height).as_str());
    push_text(&mut buf, " px");
    let ghost head = buf@;
    let n = meta.full_shape.len();
    if n >= 2 {
        let full_h = meta.full_shape[n - 2];
        let full_w = meta.full_shape[n - 1];
        if meta.resolution_percent < 100 || window_h < full_h || window_w < full_w {
            push_text(&mut buf, " (");
            push_text(&mut buf, u64_text(meta.resolution_percent as u64).as_str());
            push_text(&mut buf, "% window ");
            push_text(&mut buf, u64_text(window_h).as_str());
            push_text(&mut buf, " × ");
            push_text(&mut buf, u64_text(window_w).as_str());
            push_text(&mut buf, " of ");
            push_text(&mut buf, u64_text(full_h).as_str());
            push_text(&mut buf, " × ");
            push_text(&mut buf, u64_text(full_w).as_str());
            push_text(&mut buf, ")");
        }
    }
    let ghost mid = buf@;
    if meta.sample_stride > 1 {
        push_text(&mut buf, ", stride ");
        push_text(&mut buf, u64_text(meta.sample_stride as u64).as_str());
    }
    proof {
        let m = *meta;
        let n = m.full_shape@.len();
        let window = if spec_window_is_partial(m) {
            " ("@ + decimal(m.resolution_percent as nat) + "% window "@ + decimal((m.y_end - m.y_start) as nat)
                + " × "@ + decimal((m.x_end - m.x_start) as nat) + " of "@ + decimal(
                m.full_shape@[n - 2] as nat,
            ) + " × "@ + decimal(m.full_shape@[n - 1] as nat) + ")"@
        } else {
            Seq::empty()
        };
        assert(mid =~= head + window);
        assert(buf@ =~= spec_heatmap_size_label(width, height, m));
    }
    string_from_chars(&buf)
}

} // verus!
