//! The "Open product" dialog: its location field, the browsed location and
//! its listing, and what clicking in it does.
use vstd::prelude::*;

use crate::file_browser::{
    item_location, opt_location_view, spec_from_path_hint, BrowserItem, BrowserLocation,
    BrowserLocationView,
};
use crate::text::{chars_trim, str_chars, str_is, string_from_chars, trim_ws};
use crate::zarr::location::clone_string;

verus! {

/// A copy of a browser location.
pub fn clone_location(l: &BrowserLocation) -> (r: BrowserLocation)
    ensures
        r@ == l@,
{
    match l {
        BrowserLocation::Local(p) => BrowserLocation::Local(clone_string(p)),
        BrowserLocation::S3Root => BrowserLocation::S3Root,
        BrowserLocation::S3 { bucket, prefix } => BrowserLocation::S3 {
            bucket: clone_string(bucket),
            prefix: clone_string(prefix),
        },
    }
}

/// Whether two locations are the same.
pub fn location_eq(a: &BrowserLocation, b: &BrowserLocation) -> (r: bool)
    ensures
        r == (a@ == b@),
{
    match (a, b) {
        (BrowserLocation::Local(p), BrowserLocation::Local(q)) => str_is(p.as_str(), q.as_str()),
        (BrowserLocation::S3Root, BrowserLocation::S3Root) => true,
        (BrowserLocation::S3 { bucket: b1, prefix: p1 }, BrowserLocation::S3 { bucket: b2, prefix: p2 }) => {
            str_is(b1.as_str(), b2.as_str()) && str_is(p1.as_str(), p2.as_str())
        },
        _ => false,
    }
}

/// The home location: the configured buckets when browsing S3, else the
/// home directory (`/` without one).
pub fn home_location(is_s3: bool, home: Option<String>) -> (r: BrowserLocation)
    ensures
        is_s3 ==> r@ == BrowserLocationView::S3Root,
        !is_s3 ==> r@ == BrowserLocationView::Local(
            match home {
                Some(h) => h@,
                None => "/"@,
            },
        ),
{
    if is_s3 {
        BrowserLocation::S3Root
    } else {
        match home {
            Some(h) => BrowserLocation::Local(h),
            None => BrowserLocation::Local(String::from_str("/")),
        }
    }
}

/// What a user action in the dialog asks the application to do.
#[derive(Debug)]
pub enum DialogAction {
    Nothing,
    /// Open this product; the dialog closes.
    Submit(String),
    /// Browse this location.
    Navigate(BrowserLocation),
}

/// The dialog state.
#[derive(Debug)]
pub struct OpenProductDialog {
    pub show: bool,
    pub path: String,
    pub browser_location: BrowserLocation,
    pub browse_request_id: u64,
    pub browse_items: Option<Result<Vec<BrowserItem>, String>>,
    pub browse_loading: bool,
}

impl OpenProductDialog {
    /// A hidden dialog browsing the home directory (`/` without one).
    pub fn new(home: Option<String>) -> (r: Self)
        ensures
            !r.show,
            r.path@.len() == 0,
            r.browser_location@ == BrowserLocationView::Local(
                match home {
                    Some(h) => h@,
                    None => "/"@,
                },
            ),
            r.browse_request_id == 0,
            r.browse_items is None,
            !r.browse_loading,
    {
        OpenProductDialog {
            show: false,
            path: String::new(),
            browser_location: home_location(false, home),
            browse_request_id: 0,
            browse_items: None,
            browse_loading: false,
        }
    }

    /// Ask for a listing of the browsed location: a new request id, and the
    /// location to list under it.
    pub fn request_browse_list(&mut self) -> (r: (u64, BrowserLocation))
        requires
            old(self).browse_request_id < u64::MAX,
        ensures
            final(self).browse_request_id == old(self).browse_request_id + 1,
            r.0 == final(self).browse_request_id,
            r.1@ == old(self).browser_location@,
            final(self).browse_loading,
            final(self).browser_location == old(self).browser_location,
            final(self).browse_items == old(self).browse_items,
            final(self).path == old(self).path,
            final(self).show == old(self).show,
    {
        self.browse_request_id = self.browse_request_id + 1;
        self.browse_loading = true;
        (self.browse_request_id, clone_location(&self.browser_location))
    }

    /// Browse `location` and ask for its listing.
    pub fn set_browser_location(&mut self, location: BrowserLocation) -> (r: (u64, BrowserLocation))
        requires
            old(self).browse_request_id < u64::MAX,
        ensures
            final(self).browser_location == location,
            final(self).browse_request_id == old(self).browse_request_id + 1,
            r.0 == final(self).browse_request_id,
            r.1@ == location@,
            final(self).browse_loading,
            final(self).path == old(self).path,
            final(self).show == old(self).show,
    {
        self.browser_location = location;
        self.request_browse_list()
    }

    /// A listing arrived: kept only when it answers the latest request for
    /// the location still browsed.
    pub fn browse_list_ready(
        &mut self,
        request_id: u64,
        location: &BrowserLocation,
        result: Result<Vec<BrowserItem>, String>,
    ) -> (r: bool)
        ensures
            r == (request_id == old(self).browse_request_id && location@ == old(self).browser_location@),
            r ==> !final(self).browse_loading && final(self).browse_items == Some(result),
            !r ==> final(self).browse_loading == old(self).browse_loading && final(self).browse_items
                == old(self).browse_items,
            final(self).browse_request_id == old(self).browse_request_id,
            final(self).browser_location == old(self).browser_location,
            final(self).path == old(self).path,
    {
        if request_id != self.browse_request_id {
            return false;
        }
        if !location_eq(location, &self.browser_location) {
            return false;
        }
        self.browse_loading = false;
        self.browse_items = Some(result);
        true
    }

    /// A click on a listed item selects its location.
    pub fn item_clicked(&mut self, item: &BrowserItem)
        ensures
            final(self).path@ == item_location(*item),
            final(self).browser_location == old(self).browser_location,
            final(self).show == old(self).show,
    {
        self.path = item.location().to_string();
    }

    /// A double click on a listed item: a product or archive is opened (and
    /// the dialog closes); another folder is browsed, with the field cleared.
    pub fn item_double_clicked(&mut self, item: &BrowserItem) -> (r: DialogAction)
        ensures
            match *item {
                BrowserItem::Directory { location, zarr_product, .. } => if zarr_product {
                    r matches DialogAction::Submit(p) && p@ == location@ && !final(self).show
                } else {
                    match spec_from_path_hint(location@) {
                        Some(next) => r matches DialogAction::Navigate(l) && l@ == next
                            && final(self).path@.len() == 0 && final(self).show == old(self).show,
                        None => r is Nothing && final(self).path == old(self).path && final(self).show
                            == old(self).show,
                    }
                },
                BrowserItem::ZipArchive { location, .. } => r matches DialogAction::Submit(p) && p@
                    == location@ && !final(self).show,
            },
            final(self).browser_location == old(self).browser_location,
    {
        match item {
            BrowserItem::Directory { location, zarr_product, .. } => {
                if *zarr_product {
                    self.show = false;
                    DialogAction::Submit(clone_string(location))
                } else {
                    match BrowserLocation::from_path_hint(location.as_str()) {
                        Some(next) => {
                            self.path = String::new();
                            DialogAction::Navigate(next)
                        },
                        None => DialogAction::Nothing,
                    }
                }
            },
            BrowserItem::ZipArchive { location, .. } => {
                self.show = false;
                DialogAction::Submit(clone_string(location))
            },
        }
    }

    /// The message for an empty listing.
    pub fn empty_listing_message(&self) -> (r: &'static str)
        ensures
            self.browser_location@ is S3Root ==> r@
                == "No buckets in s3.conf — add [bucket-name] sections or type s3://bucket/path above."@,
            self.browser_location@ is S3 ==> r@ == "No child prefixes here."@,
            self.browser_location@ is Local ==> r@ == "No .zarr folders or zip archives here."@,
    {
        match &self.browser_location {
            BrowserLocation::S3Root => "No buckets in s3.conf — add [bucket-name] sections or type s3://bucket/path above.",
            BrowserLocation::S3 { .. } => "No child prefixes here.",
            BrowserLocation::Local(_) => "No .zarr folders or zip archives here.",
        }
    }

    /// Whether the Open button is enabled: the field holds more than whitespace.
    pub fn can_open(&self) -> (r: bool)
        ensures
            r == (trim_ws(self.path@).len() > 0),
    {
        let cs = str_chars(self.path.as_str());
        let t = chars_trim(&cs);
        t.len() > 0
    }

    /// The Open button: the trimmed field is opened and the dialog closes;
    /// nothing happens while the field is blank.
    pub fn open_clicked(&mut self) -> (r: DialogAction)
        ensures
            trim_ws(old(self).path@).len() > 0 ==> (r matches DialogAction::Submit(p) && p@ == trim_ws(
                old(self).path@,
            )) && !final(self).show,
            trim_ws(old(self).path@).len() == 0 ==> r is Nothing && final(self).show == old(self).show,
    {
        let cs = str_chars(self.path.as_str());
        let t = chars_trim(&cs);
        if t.len() == 0 {
            return DialogAction::Nothing;
        }
        self.show = false;
        DialogAction::Submit(string_from_chars(&t))
    }

    /// The Cancel button closes the dialog.
    pub fn cancel(&mut self)
        ensures
            !final(self).show,
            final(self).path == old(self).path,
    {
        self.show = false;
    }
}

} // verus!
