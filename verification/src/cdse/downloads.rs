//! Download requests and their status per product.
use vstd::prelude::*;

use crate::debug_text::{decimal, u64_text};
use crate::text::{push_text, string_from_chars, trim_ws};
use crate::zarr::location::clone_string;

verus! {

/// Parameters for a background product download.
#[derive(Clone, Debug)]
pub struct CdseDownloadRequest {
    pub product_id: String,
    pub product_name: String,
    pub dest_dir: String,
    /// When both are non-empty, explicit credentials; otherwise the environment.
    pub username: String,
    pub password: String,
}

/// Where a product's download stands.
#[derive(Clone, Debug)]
pub enum CdseDownloadUiStatus {
    Downloading,
    Completed { path: String },
    Failed { message: String },
}

pub enum StatusView {
    Downloading,
    Completed(Seq<char>),
    Failed(Seq<char>),
}

pub open spec fn status_view(s: CdseDownloadUiStatus) -> StatusView {
    match s {
        CdseDownloadUiStatus::Downloading => StatusView::Downloading,
        CdseDownloadUiStatus::Completed { path } => StatusView::Completed(path@),
        CdseDownloadUiStatus::Failed { message } => StatusView::Failed(message@),
    }
}

/// The download side of the catalogue window.
pub struct CdseDownloadTool {
    pub download_dir: String,
    pub username: String,
    pub password: String,
    /// Status per product id, each id once.
    pub downloads: Vec<(String, CdseDownloadUiStatus)>,
    pub pending_downloads: Vec<CdseDownloadRequest>,
    pub paths_to_open: Vec<String>,
    pub status: String,
    pub pending_dest_folder_pick: bool,
    pub pending_geojson_pick: bool,
    pub geojson: String,
    pub searching: bool,
    pub pending_search: bool,
}

/// The status of product `id`, if it has one.
pub open spec fn status_of(ds: Seq<(String, CdseDownloadUiStatus)>, id: Seq<char>) -> Option<StatusView>
    decreases ds.len(),
{
    if ds.len() == 0 {
        None
    } else if ds.last().0@ == id {
        Some(status_view(ds.last().1))
    } else {
        status_of(ds.drop_last(), id)
    }
}

/// Every product id occurs once.
pub open spec fn ids_unique(ds: Seq<(String, CdseDownloadUiStatus)>) -> bool {
    forall|i: int, j: int| 0 <= i < j < ds.len() ==> ds[i].0@ != ds[j].0@
}

fn find_download(ds: &Vec<(String, CdseDownloadUiStatus)>, id: &str) -> (r: Option<usize>)
    ensures
        match r {
            Some(i) => i < ds@.len() && ds@[i as int].0@ == id@,
            None => forall|k: int| 0 <= k < ds@.len() ==> ds@[k].0@ != id@,
        },
{
    let mut i: usize = 0;
    while i < ds.len()
        invariant
            i <= ds.len(),
            forall|k: int| 0 <= k < i ==> ds@[k].0@ != id@,
        decreases ds.len() - i,
    {
        if crate::text::str_is(ds[i].0.as_str(), id) {
            return Some(i);
        }
        i = i + 1;
    }
    None
}

proof fn lemma_status_of_index(ds: Seq<(String, CdseDownloadUiStatus)>, i: int)
    requires
        ids_unique(ds),
        0 <= i < ds.len(),
    ensures
        status_of(ds, ds[i].0@) == Some(status_view(ds[i].1)),
    decreases ds.len(),
{
    if i < ds.len() - 1 {
        assert(ds.drop_last()[i] == ds[i]);
        lemma_status_of_index(ds.drop_last(), i);
    }
}

proof fn lemma_status_of_absent(ds: Seq<(String, CdseDownloadUiStatus)>, id: Seq<char>)
    requires
        forall|k: int| 0 <= k < ds.len() ==> ds[k].0@ != id,
    ensures
        status_of(ds, id) is None,
    decreases ds.len(),
{
    if ds.len() > 0 {
        lemma_status_of_absent(ds.drop_last(), id);
    }
}

/// After setting the status of `id`, it reads back, and the others stay.
proof fn lemma_status_after_set(
    before: Seq<(String, CdseDownloadUiStatus)>,
    after: Seq<(String, CdseDownloadUiStatus)>,
    id: Seq<char>,
    st: CdseDownloadUiStatus,
)
    requires
        ids_unique(before),
        ids_unique(after),
        forall|k: int| 0 <= k < after.len() && after[k].0@ == id ==> status_view(after[k].1) == status_view(st),
        exists|k: int| 0 <= k < after.len() && after[k].0@ == id,
        forall|k: int| 0 <= k < after.len() && after[k].0@ != id ==> exists|j: int|
            0 <= j < before.len() && before[j] == after[k],
        forall|j: int| 0 <= j < before.len() && before[j].0@ != id ==> exists|k: int|
            0 <= k < after.len() && after[k] == before[j],
    ensures
        status_of(after, id) == Some(status_view(st)),
        forall|other: Seq<char>| other != id ==> status_of(after, other) == status_of(before, other),
{
    let k = choose|k: int| 0 <= k < after.len() && after[k].0@ == id;
    lemma_status_of_index(after, k);
    assert forall|other: Seq<char>| other != id implies status_of(after, other) == status_of(before, other) by {
        if exists|k: int| 0 <= k < after.len() && after[k].0@ == other {
            let k = choose|k: int| 0 <= k < after.len() && after[k].0@ == other;
            lemma_status_of_index(after, k);
            let j = choose|j: int| 0 <= j < before.len() && before[j] == after[k];
            lemma_status_of_index(before, j);
        } else {
            lemma_status_of_absent(after, other);
            if exists|j: int| 0 <= j < before.len() && before[j].0@ == other {
                let j = choose|j: int| 0 <= j < before.len() && before[j].0@ == other;
                let k = choose|k: int| 0 <= k < after.len() && after[k] == before[j];
                assert(after[k].0@ == other);
            } else {
                lemma_status_of_absent(before, other);
            }
        }
    }
}

impl CdseDownloadTool {
    /// Nothing requested, downloads go to the working directory.
    pub fn new() -> (r: Self)
        ensures
            r.download_dir@ == "."@,
            r.downloads@.len() == 0,
            r.pending_downloads@.len() == 0,
            r.paths_to_open@.len() == 0,
            !r.pending_dest_folder_pick,
            !r.pending_geojson_pick,
            !r.searching,
            !r.pending_search,
    {
        CdseDownloadTool {
            download_dir: String::from_str("."),
            username: String::new(),
            password: String::new(),
            downloads: Vec::new(),
            pending_downloads: Vec::new(),
            paths_to_open: Vec::new(),
            status: String::new(),
            pending_dest_folder_pick: false,
            pending_geojson_pick: false,
            geojson: String::new(),
            searching: false,
            pending_search: false,
        }
    }

    /// The status of product `id`.
    pub fn download_status(&self, id: &str) -> (r: Option<&CdseDownloadUiStatus>)
        requires
            ids_unique(self.downloads@),
        ensures
            match status_of(self.downloads@, id@) {
                Some(s) => r matches Some(x) && status_view(*x) == s,
                None => r is None,
            },
    {
        match find_download(&self.downloads, id) {
            Some(i) => {
                proof {
                    lemma_status_of_index(self.downloads@, i as int);
                }
                Some(&self.downloads[i].1)
            },
            None => {
                proof {
                    lemma_status_of_absent(self.downloads@, id@);
                }
                None
            },
        }
    }

    fn set_status(&mut self, id: &str, st: CdseDownloadUiStatus)
        requires
            ids_unique(old(self).downloads@),
        ensures
            ids_unique(final(self).downloads@),
            status_of(final(self).downloads@, id@) == Some(status_view(st)),
            forall|other: Seq<char>|
                other != id@ ==> status_of(final(self).downloads@, other) == status_of(
                    old(self).downloads@,
                    other,
                ),
            final(self).pending_downloads == old(self).pending_downloads,
            final(self).paths_to_open == old(self).paths_to_open,
            final(self).download_dir == old(self).download_dir,
            final(self).status == old(self).status,
    {
        let ghost before = self.downloads@;
        let ghost sv = st;
        match find_download(&self.downloads, id) {
            Some(i) => {
                let (k, _) = self.downloads.remove(i);
                self.downloads.insert(i, (k, st));
                proof {
                    let after = self.downloads@;
                    assert(forall|k: int| 0 <= k < after.len() && k != i ==> after[k] == before[k]);
                    assert forall|j: int| 0 <= j < before.len() && before[j].0@ != id@ implies exists|k: int|
                        0 <= k < after.len() && after[k] == before[j] by {
                        assert(after[j] == before[j]);
                    }
                    assert forall|k: int| 0 <= k < after.len() && after[k].0@ != id@ implies exists|j: int|
                        0 <= j < before.len() && before[j] == after[k] by {
                        assert(after[k] == before[k]);
                    }
                    assert(after[i as int].0@ == id@);
                    lemma_status_after_set(before, after, id@, sv);
                }
            },
            None => {
                self.downloads.push((id.to_string(), st));
                proof {
                    let after = self.downloads@;
                    let n = before.len() as int;
                    assert(after[n].0@ == id@);
                    assert forall|j: int| 0 <= j < before.len() && before[j].0@ != id@ implies exists|k: int|
                        0 <= k < after.len() && after[k] == before[j] by {
                        assert(after[j] == before[j]);
                    }
                    assert forall|k: int| 0 <= k < after.len() && after[k].0@ != id@ implies exists|j: int|
                        0 <= j < before.len() && before[j] == after[k] by {
                        assert(after[k] == before[k]);
                    }
                    lemma_status_after_set(before, after, id@, sv);
                }
            },
        }
    }

    /// The request for downloading product `id` into the chosen folder
    /// (trimmed); none while no folder is chosen.
    pub fn download_request_for(&self, product_id: &str, product_name: &str) -> (r: Option<CdseDownloadRequest>)
        ensures
            trim_ws(self.download_dir@).len() == 0 ==> r is None,
            trim_ws(self.download_dir@).len() > 0 ==> (r matches Some(q) && q.product_id@ == product_id@
                && q.product_name@ == product_name@ && q.dest_dir@ == trim_ws(self.download_dir@)
                && q.username@ == self.username@ && q.password@ == self.password@),
    {
        let cs = crate::text::str_chars(self.download_dir.as_str());
        let t = crate::text::chars_trim(&cs);
        if t.len() == 0 {
            return None;
        }
        Some(CdseDownloadRequest {
            product_id: product_id.to_string(),
            product_name: product_name.to_string(),
            dest_dir: string_from_chars(&t),
            username: clone_string(&self.username),
            password: clone_string(&self.password),
        })
    }

    /// Queue a download of product `id`: nothing while it is downloading;
    /// without a folder the status asks for one; else it is marked as
    /// downloading and its request queued.
    pub fn queue_download(&mut self, product_id: &str, product_name: &str)
        requires
            ids_unique(old(self).downloads@),
        ensures
            ids_unique(final(self).downloads@),
            status_of(old(self).downloads@, product_id@) == Some(StatusView::Downloading) ==> final(self).downloads
                == old(self).downloads && final(self).pending_downloads == old(self).pending_downloads,
            status_of(old(self).downloads@, product_id@) != Some(StatusView::Downloading) && trim_ws(
                old(self).download_dir@,
            ).len() == 0 ==> final(self).downloads == old(self).downloads && final(self).pending_downloads
                == old(self).pending_downloads && final(self).status@ == "Choose a download folder first."@,
            status_of(old(self).downloads@, product_id@) != Some(StatusView::Downloading) && trim_ws(
                old(self).download_dir@,
            ).len() > 0 ==> status_of(final(self).downloads@, product_id@) == Some(StatusView::Downloading)
                && final(self).pending_downloads@.len() == old(self).pending_downloads@.len() + 1
                && final(self).pending_downloads@.last().product_id@ == product_id@
                && final(self).status@ == "Downloading "@ + product_name@ + "…"@,
    {
        match self.download_status(product_id) {
            Some(CdseDownloadUiStatus::Downloading) => {
                return;
            },
            _ => {},
        }
        match self.download_request_for(product_id, product_name) {
            None => {
                self.status = String::from_str("Choose a download folder first.");
            },
            Some(request) => {
                self.set_status(product_id, CdseDownloadUiStatus::Downloading);
                self.pending_downloads.push(request);
                let mut buf: Vec<char> = Vec::new();
                push_text(&mut buf, "Downloading ");
                push_text(&mut buf, product_name);
                push_text(&mut buf, "…");
                self.status = string_from_chars(&buf);
            },
        }
    }

    /// Take the queued download requests.
    pub fn take_pending_downloads(&mut self) -> (r: Vec<CdseDownloadRequest>)
        ensures
            r@ == old(self).pending_downloads@,
            final(self).pending_downloads@.len() == 0,
            final(self).downloads == old(self).downloads,
    {
        let mut out: Vec<CdseDownloadRequest> = Vec::new();
        std::mem::swap(&mut out, &mut self.pending_downloads);
        out
    }

    /// Record how the download of product `id` ended: a completed one is
    /// queued for opening.
    pub fn apply_download_result(&mut self, product_id: &str, result: Result<String, String>)
        requires
            ids_unique(old(self).downloads@),
        ensures
            ids_unique(final(self).downloads@),
            forall|other: Seq<char>|
                other != product_id@ ==> status_of(final(self).downloads@, other) == status_of(
                    old(self).downloads@,
                    other,
                ),
            match result {
                Ok(path) => status_of(final(self).downloads@, product_id@) == Some(StatusView::Completed(path@))
                    && final(self).paths_to_open@ == old(self).paths_to_open@.push(path)
                    && final(self).status@ == "Download complete; opening product…"@,
                Err(message) => status_of(final(self).downloads@, product_id@) == Some(
                    StatusView::Failed(message@),
                ) && final(self).paths_to_open == old(self).paths_to_open && final(self).status@
                    == "Download failed: "@ + message@,
            },
    {
        match result {
            Ok(path) => {
                self.set_status(product_id, CdseDownloadUiStatus::Completed { path: clone_string(&path) });
                self.paths_to_open.push(path);
                self.status = String::from_str("Download complete; opening product…");
            },
            Err(message) => {
                let mut buf: Vec<char> = Vec::new();
                push_text(&mut buf, "Download failed: ");
                push_text(&mut buf, message.as_str());
                self.set_status(product_id, CdseDownloadUiStatus::Failed { message });
                self.status = string_from_chars(&buf);
            },
        }
    }

    /// Take the downloaded paths to open.
    pub fn take_paths_to_open(&mut self) -> (r: Vec<String>)
        ensures
            r@ == old(self).paths_to_open@,
            final(self).paths_to_open@.len() == 0,
    {
        let mut out: Vec<String> = Vec::new();
        std::mem::swap(&mut out, &mut self.paths_to_open);
        out
    }

    /// Say that the download at `path` could not be opened.
    pub fn note_open_failed(&mut self, path: &str, err: &str)
        ensures
            final(self).status@ == "Downloaded to "@ + path@ + "; open failed: "@ + err@
                + ". Extract SAFE archives manually or use a Zarr product."@,
    {
        let mut buf: Vec<char> = Vec::new();
        push_text(&mut buf, "Downloaded to ");
        push_text(&mut buf, path);
        push_text(&mut buf, "; open failed: ");
        push_text(&mut buf, err);
        push_text(&mut buf, ". Extract SAFE archives manually or use a Zarr product.");
        self.status = string_from_chars(&buf);
    }

    /// Take the request to pick a destination folder.
    pub fn take_pending_dest_folder_pick(&mut self) -> (r: bool)
        ensures
            r == old(self).pending_dest_folder_pick,
            !final(self).pending_dest_folder_pick,
    {
        let pending = self.pending_dest_folder_pick;
        self.pending_dest_folder_pick = false;
        pending
    }

    /// Take the request to pick a GeoJSON file.
    pub fn take_pending_geojson_pick(&mut self) -> (r: bool)
        ensures
            r == old(self).pending_geojson_pick,
            !final(self).pending_geojson_pick,
    {
        let pending = self.pending_geojson_pick;
        self.pending_geojson_pick = false;
        pending
    }

    /// Use the picked folder for downloads.
    pub fn set_download_dir(&mut self, path: String)
        ensures
            final(self).download_dir == path,
    {
        self.download_dir = path;
    }

    /// Use the picked GeoJSON file as search area.
    pub fn set_geojson_path(&mut self, path: String)
        ensures
            final(self).geojson == path,
    {
        self.geojson = path;
    }

    /// A search started.
    pub fn start_searching(&mut self)
        ensures
            final(self).searching,
            final(self).status@ == "Searching CDSE catalogue…"@,
    {
        self.searching = true;
        self.status = String::from_str("Searching CDSE catalogue…");
    }

    /// Take the search request of the Search button.
    pub fn take_pending_search(&mut self) -> (r: bool)
        ensures
            r == old(self).pending_search,
            !final(self).pending_search,
            final(self).searching == old(self).searching,
    {
        let pending = self.pending_search;
        self.pending_search = false;
        pending
    }

    /// A search ended with `found` products, or failed.
    pub fn search_finished(&mut self, found: Result<usize, String>)
        ensures
            !final(self).searching,
            match found {
                Ok(n) => final(self).status@ == "Found "@ + decimal(n as nat) + " product(s)."@,
                Err(e) => final(self).status@ == "Search failed: "@ + e@,
            },
            final(self).downloads == old(self).downloads,
    {
        self.searching = false;
        let mut buf: Vec<char> = Vec::new();
        match found {
            Ok(n) => {
                push_text(&mut buf, "Found ");
                push_text(&mut buf, u64_text(n as u64).as_str());
                push_text(&mut buf, " product(s).");
            },
            Err(e) => {
                push_text(&mut buf, "Search failed: ");
                push_text(&mut buf, e.as_str());
            },
        }
        self.status = string_from_chars(&buf);
    }
}

/// Whether the result `id` is ticked: its entry's flag (the first entry for
/// the id), unticked when it has none.
pub open spec fn ticked(sel: Seq<(String, bool)>, id: Seq<char>) -> bool
    decreases sel.len(),
{
    if sel.len() == 0 {
        false
    } else if sel[0].0@ == id {
        sel[0].1
    } else {
        ticked(sel.drop_first(), id)
    }
}

fn is_ticked(sel: &Vec<(String, bool)>, id: &String) -> (r: bool)
    ensures
        r == ticked(sel@, id@),
{
    let mut i: usize = 0;
    assert(sel@.subrange(0, sel@.len() as int) =~= sel@);
    while i < sel.len()
        invariant
            i <= sel.len(),
            ticked(sel@, id@) == ticked(sel@.subrange(i as int, sel@.len() as int), id@),
        decreases sel.len() - i,
    {
        let ghost rest = sel@.subrange(i as int, sel@.len() as int);
        assert(rest[0] == sel@[i as int]);
        assert(rest.drop_first() =~= sel@.subrange(i + 1, sel@.len() as int));
        if sel[i].0 == *id {
            return sel[i].1;
        }
        i = i + 1;
    }
    false
}

/// The positions of the ticked results among the first `n`, in order.
pub open spec fn ticked_indices(ids: Seq<String>, sel: Seq<(String, bool)>, n: int) -> Seq<int>
    decreases n,
{
    if n <= 0 {
        Seq::empty()
    } else {
        let p = ticked_indices(ids, sel, n - 1);
        if ticked(sel, ids[n - 1]@) {
            p.push(n - 1)
        } else {
            p
        }
    }
}

/// The results that "Download selected" queues: the positions of the ticked
/// results, in the order of the results.
pub fn selected_results(ids: &Vec<String>, sel: &Vec<(String, bool)>) -> (r: Vec<usize>)
    ensures
        r@.map_values(|i: usize| i as int) == ticked_indices(ids@, sel@, ids@.len() as int),
{
    let mut out: Vec<usize> = Vec::new();
    let mut i: usize = 0;
    while i < ids.len()
        invariant
            i <= ids.len(),
            out@.map_values(|k: usize| k as int) == ticked_indices(ids@, sel@, i as int),
        decreases ids.len() - i,
    {
        let ghost before = out@;
        if is_ticked(sel, &ids[i]) {
            out.push(i);
            assert(out@.map_values(|k: usize| k as int) =~= before.map_values(|k: usize| k as int).push(i as int));
        }
        i = i + 1;
    }
    out
}

/// Whether "Download selected" is offered: some result is ticked and a
/// download folder is set.
pub fn can_download_selected(sel: &Vec<(String, bool)>, download_dir: &str) -> (r: bool)
    ensures
        r == ((exists|i: int| 0 <= i < sel@.len() && sel@[i].1) && trim_ws(download_dir@).len() > 0),
{
    let mut any = false;
    let mut i: usize = 0;
    while i < sel.len()
        invariant
            i <= sel.len(),
            any == exists|k: int| 0 <= k < i && sel@[k].1,
        decreases sel.len() - i,
    {
        if sel[i].1 {
            any = true;
        }
        i = i + 1;
    }
    let cs = crate::text::str_chars(download_dir);
    let t = crate::text::chars_trim(&cs);
    any && t.len() > 0
}

} // verus!
