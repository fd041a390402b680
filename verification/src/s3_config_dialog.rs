//! The rules of the bucket credentials editor: which entries are saved and
//! when saving is refused.
use vstd::prelude::*;

use crate::text::{chars_trim, str_chars, string_from_chars, trim_ws, push_text};
use crate::zarr::creds::{entries_view, EntryView, S3BucketEntry};
use crate::zarr::location::clone_string;

verus! {

impl S3BucketEntry {
    /// The blank entry: no fields but the region `eu-west-1`.
    pub open spec fn blank_view() -> EntryView {
        EntryView {
            bucket: Seq::empty(),
            access_key_id: Seq::empty(),
            secret_access_key: Seq::empty(),
            region: "eu-west-1"@,
            endpoint: Seq::empty(),
        }
    }
}

/// A new, empty entry (region preset to `eu-west-1`).
pub fn empty_bucket_entry() -> (r: S3BucketEntry)
    ensures
        r@ == S3BucketEntry::blank_view(),
{
    S3BucketEntry {
        bucket: String::new(),
        access_key_id: String::new(),
        secret_access_key: String::new(),
        region: String::from_str("eu-west-1"),
        endpoint: String::new(),
    }
}

/// Every field without surrounding whitespace.
pub open spec fn spec_normalize(e: EntryView) -> EntryView {
    EntryView {
        bucket: trim_ws(e.bucket),
        access_key_id: trim_ws(e.access_key_id),
        secret_access_key: trim_ws(e.secret_access_key),
        region: trim_ws(e.region),
        endpoint: trim_ws(e.endpoint),
    }
}

fn trimmed(s: &String) -> (r: String)
    ensures
        r@ == trim_ws(s@),
{
    let cs = str_chars(s.as_str());
    let t = chars_trim(&cs);
    string_from_chars(&t)
}

/// The entry with every field trimmed.
pub fn normalize_bucket_entry(entry: &S3BucketEntry) -> (r: S3BucketEntry)
    ensures
        r@ == spec_normalize(entry@),
{
    S3BucketEntry {
        bucket: trimmed(&entry.bucket),
        access_key_id: trimmed(&entry.access_key_id),
        secret_access_key: trimmed(&entry.secret_access_key),
        region: trimmed(&entry.region),
        endpoint: trimmed(&entry.endpoint),
    }
}

/// The first missing field of an entry (after trimming), if any.
pub open spec fn spec_entry_error(e: EntryView) -> Option<Seq<char>> {
    let n = spec_normalize(e);
    if n.bucket.len() == 0 {
        Some("Bucket name is required."@)
    } else if n.access_key_id.len() == 0 {
        Some("Access key ID is required."@)
    } else if n.secret_access_key.len() == 0 {
        Some("Secret access key is required."@)
    } else if n.region.len() == 0 {
        Some("Region is required."@)
    } else if n.endpoint.len() == 0 {
        Some("Endpoint is required."@)
    } else {
        None
    }
}

/// Every field of the entry must be filled in.
pub fn validate_bucket_entry(entry: &S3BucketEntry) -> (r: Result<(), String>)
    ensures
        match spec_entry_error(entry@) {
            Some(m) => r matches Err(e) && e@ == m,
            None => r is Ok,
        },
{
    let e = normalize_bucket_entry(entry);
    if e.bucket.as_str().is_empty() {
        return Err(String::from_str("Bucket name is required."));
    }
    if e.access_key_id.as_str().is_empty() {
        return Err(String::from_str("Access key ID is required."));
    }
    if e.secret_access_key.as_str().is_empty() {
        return Err(String::from_str("Secret access key is required."));
    }
    if e.region.as_str().is_empty() {
        return Err(String::from_str("Region is required."));
    }
    if e.endpoint.as_str().is_empty() {
        return Err(String::from_str("Endpoint is required."));
    }
    Ok(())
}

/// The first error among the first `n` entries: an incomplete entry, or a
/// bucket name (trimmed) that an earlier entry already has.
pub open spec fn first_entry_error(es: Seq<EntryView>, n: int) -> Option<Seq<char>>
    decreases n,
{
    if n <= 0 || n > es.len() {
        None
    } else {
        match first_entry_error(es, n - 1) {
            Some(m) => Some(m),
            None => match spec_entry_error(es[n - 1]) {
                Some(m) => Some(m),
                None => if exists|j: int|
                    0 <= j < n - 1 && trim_ws(#[trigger] es[j].bucket) == trim_ws(es[n - 1].bucket) {
                    Some("Duplicate bucket name: "@ + trim_ws(es[n - 1].bucket))
                } else {
                    None
                },
            },
        }
    }
}

proof fn lemma_first_error_stays(es: Seq<EntryView>, k: int, n: int)
    requires
        0 < k <= n <= es.len(),
        first_entry_error(es, k) is Some,
    ensures
        first_entry_error(es, n) == first_entry_error(es, k),
    decreases n - k,
{
    if k < n {
        lemma_first_error_stays(es, k, n - 1);
    }
}

/// Why a list of entries cannot be saved: none at all, or its first error.
pub open spec fn spec_validate_all(es: Seq<EntryView>) -> Option<Seq<char>> {
    if es.len() == 0 {
        Some("Add at least one bucket."@)
    } else {
        first_entry_error(es, es.len() as int)
    }
}

/// Every entry complete and every bucket name used once.
pub fn validate_all_entries(entries: &Vec<S3BucketEntry>) -> (r: Result<(), String>)
    ensures
        match spec_validate_all(entries_view(entries@)) {
            Some(m) => r matches Err(e) && e@ == m,
            None => r is Ok,
        },
{
    let ghost es = entries_view(entries@);
    if entries.len() == 0 {
        return Err(String::from_str("Add at least one bucket."));
    }
    let mut seen: Vec<String> = Vec::new();
    let mut i: usize = 0;
    while i < entries.len()
        invariant
            i <= entries.len(),
            es == entries_view(entries@),
            first_entry_error(es, i as int) is None,
            seen@.len() == i,
            forall|j: int| 0 <= j < i ==> (#[trigger] seen@[j])@ == trim_ws(es[j].bucket),
        decreases entries.len() - i,
    {
        assert(es[i as int] == entries@[i as int]@);
        match validate_bucket_entry(&entries[i]) {
            Err(m) => {
                proof {
                    assert(first_entry_error(es, i + 1) == Some(m@));
                    lemma_first_error_stays(es, i + 1, es.len() as int);
                }
                return Err(m);
            },
            Ok(()) => {},
        }
        let name = trimmed(&entries[i].bucket);
        let mut j: usize = 0;
        while j < i
            invariant
                j <= i,
                i < entries@.len(),
                seen@.len() == i,
                es == entries_view(entries@),
                name@ == trim_ws(es[i as int].bucket),
                spec_entry_error(es[i as int]) is None,
                first_entry_error(es, i as int) is None,
                forall|k: int| 0 <= k < i ==> (#[trigger] seen@[k])@ == trim_ws(es[k].bucket),
                forall|k: int| 0 <= k < j ==> trim_ws(#[trigger] es[k].bucket) != name@,
            decreases i - j,
        {
            if seen[j] == name {
                let mut msg: Vec<char> = Vec::new();
                push_text(&mut msg, "Duplicate bucket name: ");
                push_text(&mut msg, name.as_str());
                assert(trim_ws(es[j as int].bucket) == trim_ws(es[i as int].bucket));
                let err = string_from_chars(&msg);
                proof {
                    assert(spec_entry_error(es[i as int]) is None);
                    assert(first_entry_error(es, i + 1) == Some(err@));
                    lemma_first_error_stays(es, i + 1, es.len() as int);
                }
                return Err(err);
            }
            j = j + 1;
        }
        seen.push(name);
        i = i + 1;
    }
    Ok(())
}

/// An entry with nothing but (perhaps) a region: the dialog's blank row.
pub open spec fn spec_is_placeholder(e: EntryView) -> bool {
    let n = spec_normalize(e);
    n.bucket.len() == 0 && n.access_key_id.len() == 0 && n.secret_access_key.len() == 0
        && n.endpoint.len() == 0
}

pub fn is_placeholder_entry(entry: &S3BucketEntry) -> (r: bool)
    ensures
        r == spec_is_placeholder(entry@),
{
    let e = normalize_bucket_entry(entry);
    e.bucket.as_str().is_empty() && e.access_key_id.as_str().is_empty() && e.secret_access_key.as_str().is_empty()
        && e.endpoint.as_str().is_empty()
}

/// The entries that are saved: blank rows dropped, the rest trimmed.
pub open spec fn spec_entries_to_save(es: Seq<EntryView>) -> Seq<EntryView>
    decreases es.len(),
{
    if es.len() == 0 {
        Seq::empty()
    } else {
        spec_entries_to_save(es.drop_last()) + if spec_is_placeholder(es.last()) {
            Seq::empty()
        } else {
            seq![spec_normalize(es.last())]
        }
    }
}

pub fn entries_to_save(entries: &Vec<S3BucketEntry>) -> (r: Vec<S3BucketEntry>)
    ensures
        entries_view(r@) == spec_entries_to_save(entries_view(entries@)),
{
    let ghost es = entries_view(entries@);
    let mut out: Vec<S3BucketEntry> = Vec::new();
    let mut i: usize = 0;
    while i < entries.len()
        invariant
            i <= entries.len(),
            es == entries_view(entries@),
            entries_view(out@) == spec_entries_to_save(es.subrange(0, i as int)),
        decreases entries.len() - i,
    {
        let ghost pre = es.subrange(0, i as int);
        let ghost next = es.subrange(0, i + 1);
        assert(next.drop_last() =~= pre);
        assert(next.last() == entries@[i as int]@);
        if !is_placeholder_entry(&entries[i]) {
            let e = normalize_bucket_entry(&entries[i]);
            let ghost before = out@;
            out.push(e);
            assert(entries_view(out@) =~= entries_view(before).push(e@));
        }
        i = i + 1;
        assert(entries_view(out@) =~= spec_entries_to_save(next));
    }
    assert(es.subrange(0, es.len() as int) =~= es);
    out
}

/// What saving writes, or why it is refused: blank rows are ignored, at
/// least one entry must remain, and the rest must pass `validate_all_entries`.
pub fn validate_for_save(entries: &Vec<S3BucketEntry>) -> (r: Result<Vec<S3BucketEntry>, String>)
    ensures
        ({
            let s = spec_entries_to_save(entries_view(entries@));
            if s.len() == 0 {
                r matches Err(e) && e@ == "add at least one bucket with credentials"@
            } else {
                match spec_validate_all(s) {
                    Some(m) => r matches Err(e) && e@ == m,
                    None => r matches Ok(v) && entries_view(v@) == s,
                }
            }
        }),
{
    let to_save = entries_to_save(entries);
    if to_save.len() == 0 {
        return Err(String::from_str("add at least one bucket with credentials"));
    }
    match validate_all_entries(&to_save) {
        Err(m) => Err(m),
        Ok(()) => Ok(to_save),
    }
}

proof fn lemma_no_error_prefix(es: Seq<EntryView>, n: int)
    requires
        0 <= n <= es.len(),
        first_entry_error(es, n) is None,
    ensures
        forall|i: int| 0 <= i < n ==> spec_entry_error(#[trigger] es[i]) is None,
        forall|i: int, j: int| 0 <= i < j < n ==> trim_ws(#[trigger] es[i].bucket) != trim_ws(#[trigger] es[j].bucket),
    decreases n,
{
    if n > 0 {
        lemma_no_error_prefix(es, n - 1);
        assert forall|i: int, j: int| 0 <= i < j < n implies trim_ws(#[trigger] es[i].bucket) != trim_ws(
            #[trigger] es[j].bucket,
        ) by {
            if j == n - 1 {
                if trim_ws(es[i].bucket) == trim_ws(es[j].bucket) {
                    assert(exists|k: int| 0 <= k < n - 1 && trim_ws(#[trigger] es[k].bucket) == trim_ws(es[n - 1].bucket));
                }
            }
        }
    }
}

/// What passes validation can be saved as it is: every entry has all its
/// fields, and no two entries name the same bucket.
pub proof fn lemma_validated_entries_are_complete_and_distinct(es: Seq<EntryView>)
    requires
        spec_validate_all(es) is None,
    ensures
        es.len() > 0,
        forall|i: int| 0 <= i < es.len() ==> spec_entry_error(#[trigger] es[i]) is None,
        forall|i: int, j: int|
            0 <= i < j < es.len() ==> trim_ws(#[trigger] es[i].bucket) != trim_ws(#[trigger] es[j].bucket),
{
    lemma_no_error_prefix(es, es.len() as int);
}

/// A copy of an entry.
pub fn clone_entry(e: &S3BucketEntry) -> (r: S3BucketEntry)
    ensures
        r@ == e@,
{
    S3BucketEntry {
        bucket: clone_string(&e.bucket),
        access_key_id: clone_string(&e.access_key_id),
        secret_access_key: clone_string(&e.secret_access_key),
        region: clone_string(&e.region),
        endpoint: clone_string(&e.endpoint),
    }
}

/// The list label of an entry: its bucket name, `(new bucket)` while blank.
pub fn bucket_label(entry: &S3BucketEntry) -> (r: String)
    ensures
        trim_ws(entry.bucket@).len() == 0 ==> r@ == "(new bucket)"@,
        trim_ws(entry.bucket@).len() > 0 ==> r@ == entry.bucket@,
{
    let t = trimmed(&entry.bucket);
    if t.as_str().is_empty() {
        String::from_str("(new bucket)")
    } else {
        clone_string(&entry.bucket)
    }
}

/// The bucket credentials editor: the entries being edited, the selected
/// one, the messages shown, the connection test under way, and whether the
/// last save succeeded.
pub struct S3ConfigDialog {
    pub open: bool,
    /// The file edited (`None` when the platform gives none).
    pub config_path: Option<String>,
    pub using_env_override: bool,
    pub buckets: Vec<S3BucketEntry>,
    pub selected: usize,
    /// `(success, message)` of the last test or load.
    pub feedback: Option<(bool, String)>,
    pub save_error: Option<String>,
    pub test_in_progress: bool,
    pub test_request_id: u64,
    pub saved: bool,
}

impl S3ConfigDialog {
    /// A closed dialog with no entries.
    pub fn new() -> (r: Self)
        ensures
            !r.open && r.buckets@.len() == 0 && r.selected == 0 && r.feedback is None && r.save_error is None
                && !r.test_in_progress && r.test_request_id == 0 && !r.saved,
            r.config_path is None,
            !r.using_env_override,
    {
        S3ConfigDialog {
            open: false,
            config_path: None,
            using_env_override: false,
            buckets: Vec::new(),
            selected: 0,
            feedback: None,
            save_error: None,
            test_in_progress: false,
            test_request_id: 0,
            saved: false,
        }
    }

    /// Open the dialog on the file `config_path` with the entries read from
    /// it (or the error reading gave, shown as feedback); without entries a
    /// blank one is offered. The first entry is selected.
    pub fn show(&mut self, config_path: Option<String>, using_env_override: bool, loaded: Result<Vec<S3BucketEntry>, String>)
        ensures
            final(self).open,
            !final(self).saved,
            final(self).save_error is None,
            !final(self).test_in_progress,
            final(self).selected == 0,
            final(self).config_path == config_path,
            final(self).using_env_override == using_env_override,
            final(self).test_request_id == old(self).test_request_id,
            match loaded {
                Ok(v) => final(self).feedback is None && if v@.len() == 0 {
                    final(self).buckets@.len() == 1 && final(self).buckets@[0]@ == S3BucketEntry::blank_view()
                } else {
                    final(self).buckets@ == v@
                },
                Err(e) => final(self).feedback == Some((false, e)) && final(self).buckets@.len() == 1
                    && final(self).buckets@[0]@ == S3BucketEntry::blank_view(),
            },
    {
        self.open = true;
        self.saved = false;
        self.feedback = None;
        self.save_error = None;
        self.test_in_progress = false;
        self.using_env_override = using_env_override;
        self.config_path = config_path;
        self.buckets = match loaded {
            Ok(v) => v,
            Err(e) => {
                self.feedback = Some((false, e));
                Vec::new()
            },
        };
        if self.buckets.len() == 0 {
            self.buckets.push(empty_bucket_entry());
        }
        self.selected = 0;
    }

    /// Whether the last save succeeded; the flag is cleared.
    pub fn take_saved(&mut self) -> (r: bool)
        ensures
            r == old(self).saved,
            !final(self).saved,
    {
        let saved = self.saved;
        self.saved = false;
        saved
    }

    /// Select entry `index`; the messages are cleared.
    pub fn select(&mut self, index: usize)
        ensures
            final(self).selected == index,
            final(self).feedback is None,
            final(self).save_error is None,
            final(self).buckets == old(self).buckets,
    {
        self.selected = index;
        self.feedback = None;
        self.save_error = None;
    }

    /// Add a blank entry and select it.
    pub fn add_bucket(&mut self)
        ensures
            final(self).buckets@.len() == old(self).buckets@.len() + 1,
            final(self).buckets@.drop_last() == old(self).buckets@,
            final(self).buckets@.last()@ == S3BucketEntry::blank_view(),
            final(self).selected == old(self).buckets@.len(),
            final(self).feedback is None,
            final(self).save_error is None,
    {
        self.buckets.push(empty_bucket_entry());
        self.selected = self.buckets.len() - 1;
        self.feedback = None;
        self.save_error = None;
    }

    /// Whether the selected entry can be removed: one entry always stays.
    pub fn can_remove(&self) -> (r: bool)
        ensures
            r == (self.buckets@.len() > 1),
    {
        self.buckets.len() > 1
    }

    /// Remove the selected entry; the selection stays at its place or moves
    /// to the new last entry.
    pub fn remove_selected(&mut self)
        requires
            old(self).buckets@.len() > 1,
            old(self).selected < old(self).buckets@.len(),
        ensures
            final(self).buckets@ == old(self).buckets@.remove(old(self).selected as int),
            final(self).selected == (if old(self).selected < final(self).buckets@.len() {
                old(self).selected as int
            } else {
                final(self).buckets@.len() - 1
            }),
            final(self).feedback is None,
            final(self).save_error is None,
    {
        self.buckets.remove(self.selected);
        if self.selected >= self.buckets.len() {
            self.selected = self.buckets.len() - 1;
        }
        self.feedback = None;
        self.save_error = None;
    }

    /// Whether "Test connection" is enabled: the selected entry is complete
    /// and no test is running.
    pub fn can_test(&self) -> (r: bool)
        ensures
            r == (self.selected < self.buckets@.len() && spec_entry_error(self.buckets@[self.selected as int]@) is None
                && !self.test_in_progress),
    {
        if self.selected >= self.buckets.len() || self.test_in_progress {
            return false;
        }
        validate_bucket_entry(&self.buckets[self.selected]).is_ok()
    }

    /// Start testing the selected entry: an incomplete entry only gets its
    /// error as feedback; a complete one gets a new request id, and the
    /// id and a copy of the entry are returned for the test to run.
    pub fn start_connection_test(&mut self) -> (r: Option<(u64, S3BucketEntry)>)
        requires
            old(self).test_request_id < u64::MAX,
        ensures
            old(self).selected >= old(self).buckets@.len() ==> r is None && final(self).feedback == old(
                self,
            ).feedback && final(self).test_request_id == old(self).test_request_id,
            old(self).selected < old(self).buckets@.len() ==> match spec_entry_error(
                old(self).buckets@[old(self).selected as int]@,
            ) {
                Some(m) => r is None && (final(self).feedback matches Some((ok, e)) && !ok && e@ == m)
                    && final(self).test_request_id == old(self).test_request_id,
                None => final(self).test_request_id == old(self).test_request_id + 1 && final(self).test_in_progress
                    && final(self).feedback is None && (r matches Some((id, e)) && id == final(self).test_request_id
                    && e@ == old(self).buckets@[old(self).selected as int]@),
            },
            final(self).buckets == old(self).buckets,
    {
        if self.selected >= self.buckets.len() {
            return None;
        }
        let entry = clone_entry(&self.buckets[self.selected]);
        match validate_bucket_entry(&entry) {
            Err(e) => {
                self.feedback = Some((false, e));
                return None;
            },
            Ok(()) => {},
        }
        self.test_request_id = self.test_request_id + 1;
        self.test_in_progress = true;
        self.feedback = None;
        Some((self.test_request_id, entry))
    }

    /// A connection test finished: only the latest one counts.
    pub fn test_result(&mut self, request_id: u64, result: Result<(), String>)
        ensures
            request_id != old(self).test_request_id ==> final(self).feedback == old(self).feedback
                && final(self).test_in_progress == old(self).test_in_progress,
            request_id == old(self).test_request_id ==> !final(self).test_in_progress && match result {
                Ok(()) => final(self).feedback matches Some((ok, m)) && ok && m@ == "Connection successful."@,
                Err(e) => final(self).feedback == Some((false, e)),
            },
            final(self).buckets == old(self).buckets,
    {
        if request_id != self.test_request_id {
            return;
        }
        self.test_in_progress = false;
        self.feedback = Some(
            match result {
                Ok(()) => (true, String::from_str("Connection successful.")),
                Err(e) => (false, e),
            },
        );
    }

    /// Why Save is disabled, if it is: no config file path, or the first
    /// reason the entries cannot be saved.
    pub fn save_disabled_reason(&self) -> (r: Option<String>)
        ensures
            self.config_path is None ==> (r matches Some(m) && m@
                == "Save is disabled: cannot resolve a config file path."@),
            self.config_path is Some ==> match validate_for_save_reason(entries_view(self.buckets@)) {
                Some(reason) => r matches Some(m) && m@ == "Save is disabled: "@ + reason,
                None => r is None,
            },
    {
        if self.config_path.is_none() {
            return Some(String::from_str("Save is disabled: cannot resolve a config file path."));
        }
        match validate_for_save(&self.buckets) {
            Ok(_) => None,
            Err(reason) => {
                let mut buf: Vec<char> = Vec::new();
                crate::text::push_text(&mut buf, "Save is disabled: ");
                crate::text::push_text(&mut buf, reason.as_str());
                Some(string_from_chars(&buf))
            },
        }
    }

    /// Start saving: the messages are cleared; entries that cannot be saved
    /// give the reason as save error, else the entries to write are returned.
    pub fn begin_save(&mut self) -> (r: Option<Vec<S3BucketEntry>>)
        ensures
            final(self).feedback is None,
            match validate_for_save_reason(entries_view(old(self).buckets@)) {
                Some(reason) => r is None && (final(self).save_error matches Some(e) && e@ == reason),
                None => final(self).save_error is None && (r matches Some(v) && entries_view(v@)
                    == spec_entries_to_save(entries_view(old(self).buckets@))),
            },
            final(self).buckets == old(self).buckets,
    {
        self.save_error = None;
        self.feedback = None;
        match validate_for_save(&self.buckets) {
            Ok(entries) => Some(entries),
            Err(err) => {
                self.save_error = Some(err);
                None
            },
        }
    }

    /// Writing the entries ended: on success they become the edited list
    /// and the save is recorded; else the error is shown.
    pub fn finish_save(&mut self, entries: Vec<S3BucketEntry>, written: Result<(), String>)
        ensures
            match written {
                Ok(()) => final(self).buckets == entries && final(self).saved,
                Err(e) => final(self).save_error == Some(e) && final(self).buckets == old(self).buckets
                    && final(self).saved == old(self).saved,
            },
    {
        match written {
            Ok(()) => {
                self.buckets = entries;
                self.saved = true;
            },
            Err(e) => {
                self.save_error = Some(e);
            },
        }
    }

    /// After a frame: the dialog stays open while its window was kept open
    /// and neither Save nor Cancel closed it.
    pub fn after_frame(&mut self, keep_open: bool, dismiss: bool)
        ensures
            final(self).open == (keep_open && !dismiss),
            final(self).buckets == old(self).buckets,
    {
        self.open = keep_open && !dismiss;
    }
}

/// Why entries cannot be saved, if they cannot (see `validate_for_save`).
pub open spec fn validate_for_save_reason(es: Seq<EntryView>) -> Option<Seq<char>> {
    let s = spec_entries_to_save(es);
    if s.len() == 0 {
        Some("add at least one bucket with credentials"@)
    } else {
        spec_validate_all(s)
    }
}

} // verus!
