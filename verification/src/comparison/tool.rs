//! The comparison window's state: which two products are picked, and the
//! run requested, running or finished.
use vstd::prelude::*;

use crate::host::{path_file_name, path_file_name_of};

verus! {

/// How numeric differences are judged.
#[derive(Clone, Copy, Debug, PartialEq, Eq, Structural)]
pub enum ErrorMode {
    Relative,
    Absolute,
    Auto,
}

impl ErrorMode {
    /// The label shown in the mode selector.
    pub fn label(self) -> (r: &'static str)
        ensures
            self == ErrorMode::Relative ==> r@ == "Relative (all variables)"@,
            self == ErrorMode::Absolute ==> r@ == "Absolute (all variables)"@,
            self == ErrorMode::Auto ==> r@ == "Auto (from scale_factor)"@,
    {
        match self {
            ErrorMode::Relative => "Relative (all variables)",
            ErrorMode::Absolute => "Absolute (all variables)",
            ErrorMode::Auto => "Auto (from scale_factor)",
        }
    }

    /// The mode that the `relative` and `absolute` option flags select
    /// (relative wins over absolute; neither is automatic).
    pub fn from_flags(relative: bool, absolute: bool) -> (r: ErrorMode)
        ensures
            r == (if relative {
                ErrorMode::Relative
            } else if absolute {
                ErrorMode::Absolute
            } else {
                ErrorMode::Auto
            }),
    {
        if relative {
            ErrorMode::Relative
        } else if absolute {
            ErrorMode::Absolute
        } else {
            ErrorMode::Auto
        }
    }

    /// The `(relative, absolute)` option flags of a mode.
    pub fn flags(self) -> (r: (bool, bool))
        ensures
            r == (self == ErrorMode::Relative, self == ErrorMode::Absolute),
    {
        match self {
            ErrorMode::Relative => (true, false),
            ErrorMode::Absolute => (false, true),
            ErrorMode::Auto => (false, false),
        }
    }
}

/// The label of a product: the final segment of its root path, or the
/// whole path when it has none.
pub fn product_label(root_path: &str) -> (r: String)
    ensures
        match path_file_name_of(root_path@) {
            Some(n) => r@ == n,
            None => r@ == root_path@,
        },
{
    match path_file_name(root_path) {
        Some(n) => n,
        None => root_path.to_string(),
    }
}

/// The comparison window: two picked products (indices into the open
/// products), a requested run, a running one, and the last result.
pub struct ComparisonTool<R> {
    pub open: bool,
    pub left_index: usize,
    pub right_index: usize,
    pub verbose: bool,
    pub result: Option<R>,
    pub pending_run: bool,
    pub running: bool,
}

/// The picked indices after `clamp_indices(n)`: both valid when there are
/// products, and different when there are two or more.
pub open spec fn clamped(left: usize, right: usize, n: usize) -> (usize, usize) {
    if n == 0 {
        (0, 0)
    } else {
        let l: usize = if left >= n { 0 } else { left };
        let r: usize = if right >= n { (n - 1) as usize } else { right };
        if n >= 2 && l == r {
            (l, ((l + 1) % (n as int)) as usize)
        } else {
            (l, r)
        }
    }
}

impl<R> ComparisonTool<R> {
    /// A closed window with nothing picked or run.
    pub fn new() -> (r: Self)
        ensures
            !r.open && r.left_index == 0 && r.right_index == 0 && !r.verbose && r.result is None
                && !r.pending_run && !r.running,
    {
        ComparisonTool {
            open: false,
            left_index: 0,
            right_index: 0,
            verbose: false,
            result: None,
            pending_run: false,
            running: false,
        }
    }

    /// Keep the picked indices within `store_count` products (and apart when
    /// there are two or more); without products the result is dropped.
    pub fn clamp_indices(&mut self, store_count: usize)
        ensures
            (final(self).left_index, final(self).right_index) == clamped(
                old(self).left_index,
                old(self).right_index,
                store_count,
            ),
            store_count == 0 ==> final(self).result is None,
            store_count > 0 ==> final(self).result == old(self).result,
            final(self).open == old(self).open,
            final(self).pending_run == old(self).pending_run,
            final(self).running == old(self).running,
            final(self).verbose == old(self).verbose,
    {
        if store_count == 0 {
            self.left_index = 0;
            self.right_index = 0;
            self.result = None;
            return;
        }
        if self.left_index >= store_count {
            self.left_index = 0;
        }
        if self.right_index >= store_count {
            self.right_index = store_count - 1;
        }
        if store_count >= 2 && self.left_index == self.right_index {
            self.right_index = (self.left_index + 1) % store_count;
        }
    }

    /// Open the window for `store_count` open products.
    pub fn show(&mut self, store_count: usize)
        ensures
            final(self).open,
            (final(self).left_index, final(self).right_index) == clamped(
                old(self).left_index,
                old(self).right_index,
                store_count,
            ),
            final(self).pending_run == old(self).pending_run,
            final(self).running == old(self).running,
    {
        self.open = true;
        self.clamp_indices(store_count);
    }

    /// Open the window on products `left` and `right` and request a run
    /// when they are two different open products.
    pub fn open_and_compare(&mut self, left: usize, right: usize, store_count: usize)
        ensures
            final(self).open,
            (final(self).left_index, final(self).right_index) == clamped(left, right, store_count),
            (left < store_count && right < store_count && left != right) ==> final(self).pending_run
                && final(self).result is None,
            !(left < store_count && right < store_count && left != right) ==> final(self).pending_run
                == old(self).pending_run,
            final(self).running == old(self).running,
    {
        self.open = true;
        self.left_index = left;
        self.right_index = right;
        self.clamp_indices(store_count);
        if left < store_count && right < store_count && left != right {
            self.result = None;
            self.pending_run = true;
        }
    }

    /// Whether a comparison has finished in this session.
    pub fn has_result(&self) -> (r: bool)
        ensures
            r == self.result is Some,
    {
        self.result.is_some()
    }

    /// Ask for a run (the Compare button): the old result is dropped.
    pub fn request_run(&mut self)
        ensures
            final(self).pending_run,
            final(self).result is None,
            final(self).running == old(self).running,
            final(self).left_index == old(self).left_index,
            final(self).right_index == old(self).right_index,
    {
        self.result = None;
        self.pending_run = true;
    }

    /// Take the requested run: `(left, right, verbose)` once per request.
    pub fn take_pending_run(&mut self) -> (r: Option<(usize, usize, bool)>)
        ensures
            old(self).pending_run ==> r == Some((old(self).left_index, old(self).right_index, old(self).verbose))
                && final(self).result is None,
            !old(self).pending_run ==> r is None && final(self).result == old(self).result,
            !final(self).pending_run,
            final(self).running == old(self).running,
            final(self).left_index == old(self).left_index,
            final(self).right_index == old(self).right_index,
    {
        if self.pending_run {
            self.pending_run = false;
            self.result = None;
            return Some((self.left_index, self.right_index, self.verbose));
        }
        None
    }

    /// A worker started the run.
    pub fn start_running(&mut self)
        ensures
            final(self).running,
            final(self).result == old(self).result,
            final(self).pending_run == old(self).pending_run,
    {
        self.running = true;
    }

    /// The run finished with `result`.
    pub fn set_result(&mut self, result: R)
        ensures
            final(self).result == Some(result),
            !final(self).running,
            final(self).pending_run == old(self).pending_run,
    {
        self.result = Some(result);
        self.running = false;
    }

    /// The last result, if any.
    pub fn result(&self) -> (r: Option<&R>)
        ensures
            match self.result {
                Some(x) => r == Some(&x),
                None => r is None,
            },
    {
        match &self.result {
            Some(x) => Some(x),
            None => None,
        }
    }

    /// The worker finished without a result.
    pub fn stop_running(&mut self)
        ensures
            !final(self).running,
            final(self).result == old(self).result,
            final(self).pending_run == old(self).pending_run,
    {
        self.running = false;
    }
}

/// After clamping, both indices are valid, and they differ when there are
/// two or more products.
pub proof fn lemma_clamped_valid(left: usize, right: usize, n: usize)
    requires
        n > 0,
    ensures
        clamped(left, right, n).0 < n,
        clamped(left, right, n).1 < n,
        n >= 2 ==> clamped(left, right, n).0 != clamped(left, right, n).1,
{
    let l: int = if left >= n { 0 } else { left as int };
    let m: int = n as int;
    if n >= 2 {
        if l + 1 < m {
            assert((l + 1) % m == l + 1) by (nonlinear_arith)
                requires
                    0 <= l + 1 < m,
            ;
        } else {
            assert((l + 1) % m == 0) by (nonlinear_arith)
                requires
                    l + 1 == m,
                    m > 0,
            ;
        }
    }
    assert(0 <= (l + 1) % m < m) by (nonlinear_arith)
        requires
            m > 0,
    ;
}

} // verus!
