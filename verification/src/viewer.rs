//! The main window's bookkeeping: the open products, the selected node,
//! the plot being loaded, and the status line.
use vstd::prelude::*;

use crate::debug_text::{decimal, u64_text, u64s_debug, u64s_debug_text};
use crate::text::{push_text, str_is, string_from_chars};
use crate::zarr::location::clone_string;
use crate::zarr::tree::{ZarrNodeKind, ZarrTreeNode};

verus! {

/// A node of an open product.
#[derive(Clone, Debug)]
pub struct SelectedNode {
    pub store_index: usize,
    pub path: String,
}

/// Which products are open (by root path, in opening order), what is
/// selected, which plot is awaited, and the status line.
pub struct ViewerState {
    pub roots: Vec<String>,
    pub selected: Option<SelectedNode>,
    pub pending_plot: Option<(usize, String)>,
    pub status_message: String,
}

pub open spec fn sel_view(s: Option<SelectedNode>) -> Option<(usize, Seq<char>)> {
    match s {
        Some(n) => Some((n.store_index, n.path@)),
        None => None,
    }
}

pub open spec fn pending_view(p: Option<(usize, String)>) -> Option<(usize, Seq<char>)> {
    match p {
        Some((i, s)) => Some((i, s@)),
        None => None,
    }
}

/// An index after product `closed` is removed: `None` for the closed one,
/// one less for those after it.
pub open spec fn shifted(v: Option<(usize, Seq<char>)>, closed: usize) -> Option<(usize, Seq<char>)> {
    match v {
        Some((i, p)) => if i == closed {
            None
        } else if i > closed {
            Some(((i - 1) as usize, p))
        } else {
            Some((i, p))
        },
        None => None,
    }
}

/// ` (N product(s) open)`.
pub open spec fn open_count_text(n: nat) -> Seq<char> {
    " ("@ + decimal(n) + " product"@ + if n == 1 {
        Seq::<char>::empty()
    } else {
        "s"@
    } + " open)"@
}

fn push_open_count(buf: &mut Vec<char>, n: usize)
    ensures
        final(buf)@ == old(buf)@ + open_count_text(n as nat),
{
    push_text(buf, " (");
    push_text(buf, u64_text(n as u64).as_str());
    push_text(buf, " product");
    if n != 1 {
        push_text(buf, "s");
    }
    push_text(buf, " open)");
    assert(final(buf)@ =~= old(buf)@ + open_count_text(n as nat)) by {
        reveal_strlit("");
    }
}

impl ViewerState {
    /// No product open.
    pub fn new() -> (r: Self)
        ensures
            r.roots@.len() == 0,
            r.selected is None,
            r.pending_plot is None,
    {
        ViewerState { roots: Vec::new(), selected: None, pending_plot: None, status_message: String::new() }
    }

    /// Whether `path` of product `store_index` is the selected node.
    pub fn node_is_selected(&self, store_index: usize, path: &str) -> (r: bool)
        ensures
            r == (sel_view(self.selected) == Some((store_index, path@))),
    {
        match &self.selected {
            Some(sel) => sel.store_index == store_index && str_is(sel.path.as_str(), path),
            None => false,
        }
    }

    /// Whether a plot result for `path` of product `store_index` is the one awaited.
    pub fn plot_is_current(&self, store_index: usize, path: &str) -> (r: bool)
        ensures
            r == (pending_view(self.pending_plot) == Some((store_index, path@))),
    {
        match &self.pending_plot {
            Some((i, p)) => *i == store_index && str_is(p.as_str(), path),
            None => false,
        }
    }

    /// Select a node; an array's plot becomes the one awaited, other nodes
    /// await none.
    pub fn select(&mut self, store_index: usize, path: &str, is_array: bool)
        ensures
            sel_view(final(self).selected) == Some((store_index, path@)),
            is_array ==> pending_view(final(self).pending_plot) == Some((store_index, path@)),
            !is_array ==> final(self).pending_plot is None,
            final(self).roots == old(self).roots,
    {
        self.selected = Some(SelectedNode { store_index, path: path.to_string() });
        if is_array {
            self.pending_plot = Some((store_index, path.to_string()));
        } else {
            self.pending_plot = None;
        }
    }

    /// A product finished opening at `root`: a product open already is
    /// reported as such; else it is added. Returns whether it is the first
    /// open product (whose root the window then selects).
    pub fn store_ready(&mut self, root: String) -> (r: bool)
        ensures
            (exists|i: int| 0 <= i < old(self).roots@.len() && old(self).roots@[i]@ == root@) ==> !r
                && final(self).roots == old(self).roots && final(self).status_message@ == "Already open: "@
                + root@,
            !(exists|i: int| 0 <= i < old(self).roots@.len() && old(self).roots@[i]@ == root@) ==> r == (
            old(self).roots@.len() == 0) && final(self).roots@ == old(self).roots@.push(root)
                && final(self).status_message@ == "Loaded "@ + root@ + open_count_text(
                final(self).roots@.len(),
            ),
            final(self).selected == old(self).selected,
            final(self).pending_plot == old(self).pending_plot,
    {
        let mut i: usize = 0;
        while i < self.roots.len()
            invariant
                i <= self.roots.len(),
                self.roots == old(self).roots,
                self.selected == old(self).selected,
                self.pending_plot == old(self).pending_plot,
                forall|k: int| 0 <= k < i ==> self.roots@[k]@ != root@,
            decreases self.roots.len() - i,
        {
            if str_is(self.roots[i].as_str(), root.as_str()) {
                let mut buf: Vec<char> = Vec::new();
                push_text(&mut buf, "Already open: ");
                push_text(&mut buf, root.as_str());
                self.status_message = string_from_chars(&buf);
                return false;
            }
            i = i + 1;
        }
        let is_first = self.roots.len() == 0;
        let mut buf: Vec<char> = Vec::new();
        push_text(&mut buf, "Loaded ");
        push_text(&mut buf, root.as_str());
        self.roots.push(root);
        push_open_count(&mut buf, self.roots.len());
        self.status_message = string_from_chars(&buf);
        is_first
    }

    /// A product could not be opened.
    pub fn store_failed(&mut self, location: &str, err: &str)
        ensures
            final(self).status_message@ == "Failed to open "@ + location@ + ": "@ + err@,
            final(self).roots == old(self).roots,
    {
        let mut buf: Vec<char> = Vec::new();
        push_text(&mut buf, "Failed to open ");
        push_text(&mut buf, location);
        push_text(&mut buf, ": ");
        push_text(&mut buf, err);
        self.status_message = string_from_chars(&buf);
    }

    /// Close product `store_index` (shown as `closed_name`): indices after
    /// it move down; a selection or awaited plot in it is dropped. Returns
    /// whether the selection was in it (the window then resets its panels
    /// and selects the first product's root, if any).
    pub fn close_product(&mut self, store_index: usize, closed_name: &str) -> (r: bool)
        ensures
            store_index >= old(self).roots@.len() ==> !r && final(self).roots == old(self).roots
                && final(self).selected == old(self).selected && final(self).pending_plot == old(
                self,
            ).pending_plot,
            store_index < old(self).roots@.len() ==> {
                &&& final(self).roots@ == old(self).roots@.remove(store_index as int)
                &&& r == (sel_view(old(self).selected) matches Some((i, _)) && i == store_index)
                &&& sel_view(final(self).selected) == shifted(sel_view(old(self).selected), store_index)
                &&& pending_view(final(self).pending_plot) == if r {
                    None
                } else {
                    shifted(pending_view(old(self).pending_plot), store_index)
                }
                &&& final(self).status_message@ == "Closed "@ + closed_name@ + if final(self).roots@.len()
                    == 0 {
                    Seq::<char>::empty()
                } else {
                    open_count_text(final(self).roots@.len())
                }
            },
    {
        if store_index >= self.roots.len() {
            return false;
        }
        self.roots.remove(store_index);
        let was_selected = match &self.selected {
            Some(sel) => sel.store_index == store_index,
            None => false,
        };
        self.selected = match &self.selected {
            Some(sel) => if sel.store_index == store_index {
                None
            } else if sel.store_index > store_index {
                Some(SelectedNode { store_index: sel.store_index - 1, path: clone_string(&sel.path) })
            } else {
                Some(SelectedNode { store_index: sel.store_index, path: clone_string(&sel.path) })
            },
            None => None,
        };
        self.pending_plot = if was_selected {
            None
        } else {
            match &self.pending_plot {
                Some((i, p)) => if *i == store_index {
                    None
                } else if *i > store_index {
                    Some((*i - 1, clone_string(p)))
                } else {
                    Some((*i, clone_string(p)))
                },
                None => None,
            }
        };
        let mut buf: Vec<char> = Vec::new();
        push_text(&mut buf, "Closed ");
        push_text(&mut buf, closed_name);
        if self.roots.len() > 0 {
            push_open_count(&mut buf, self.roots.len());
        } else {
            assert(buf@ =~= buf@ + Seq::<char>::empty());
        }
        self.status_message = string_from_chars(&buf);
        was_selected
    }

    /// The product that "close" closes: the selected one, else the last.
    pub fn close_index_for_selection(&self) -> (r: usize)
        ensures
            r == match self.selected {
                Some(s) => s.store_index,
                None => if self.roots@.len() == 0 {
                    0
                } else {
                    (self.roots@.len() - 1) as usize
                },
            },
    {
        match &self.selected {
            Some(sel) => sel.store_index,
            None => if self.roots.len() == 0 {
                0
            } else {
                self.roots.len() - 1
            },
        }
    }
}

/// The label of a node in the product tree: a folder for a group; for an
/// array its name with `(scalar, dtype)`, `[rows, cols] dtype` or its
/// shape and dtype.
pub open spec fn spec_tree_label(node: ZarrTreeNode) -> Seq<char> {
    match node.kind {
        ZarrNodeKind::Group { .. } => "📁 "@ + node.name@,
        ZarrNodeKind::Array { shape, dtype, .. } => {
            let s = shape@;
            if s.len() == 0 {
                "📊 "@ + node.name@ + " (scalar, "@ + dtype@ + ")"@
            } else if s.len() >= 2 {
                "📊 "@ + node.name@ + " ["@ + decimal(s[s.len() - 2] as nat) + ", "@ + decimal(
                    s[s.len() - 1] as nat,
                ) + "] "@ + dtype@
            } else {
                "📊 "@ + node.name@ + " "@ + u64s_debug(s) + " "@ + dtype@
            }
        },
    }
}

pub fn tree_label(node: &ZarrTreeNode) -> (r: String)
    ensures
        r@ == spec_tree_label(*node),
{
    let mut buf: Vec<char> = Vec::new();
    match &node.kind {
        ZarrNodeKind::Group { .. } => {
            push_text(&mut buf, "📁 ");
            push_text(&mut buf, node.name.as_str());
        },
        ZarrNodeKind::Array { shape, dtype, .. } => {
            push_text(&mut buf, "📊 ");
            push_text(&mut buf, node.name.as_str());
            let n = shape.len();
            if n == 0 {
                push_text(&mut buf, " (scalar, ");
                push_text(&mut buf, dtype.as_str());
                push_text(&mut buf, ")");
            } else if n >= 2 {
                push_text(&mut buf, " [");
                push_text(&mut buf, u64_text(shape[n - 2]).as_str());
                push_text(&mut buf, ", ");
                push_text(&mut buf, u64_text(shape[n - 1]).as_str());
                push_text(&mut buf, "] ");
                push_text(&mut buf, dtype.as_str());
            } else {
                push_text(&mut buf, " ");
                push_text(&mut buf, u64s_debug_text(shape.as_slice()).as_str());
                push_text(&mut buf, " ");
                push_text(&mut buf, dtype.as_str());
            }
        },
    }
    string_from_chars(&buf)
}

} // verus!
