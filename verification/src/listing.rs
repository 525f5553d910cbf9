//! Directory listings, remote and local: what is shown of each entry, and
//! in which order.
//!
//! The embedding application reads the directory and hands over what it
//! found as plain values. Directories come first; within each kind entries
//! are ordered by name.

use vstd::prelude::*;
use crate::error::CoreError;
use crate::order::{items_of, ranked, sort_keyed, sorted_of, KeyView, Keyed, Ranked, SortKey};
use crate::text::chars_of;

verus! {

/// The permission bits that a remote listing shows.
#[derive(Debug, Clone, Copy, PartialEq, Eq, Structural)]
pub struct Permissions {
    pub group_read: bool,
    pub group_write: bool,
    pub group_exec: bool,
    pub other_read: bool,
    pub other_write: bool,
    pub other_exec: bool,
}

/// What the file-transfer protocol reported of one directory entry.
/// `modified` is in seconds since the Unix epoch.
#[derive(Debug, Clone, PartialEq, Eq)]
pub struct RemoteEntry {
    pub name: String,
    pub is_dir: bool,
    pub size: u64,
    pub modified: Option<u64>,
    pub permissions: Permissions,
}

/// The model of a [`RemoteEntry`].
pub struct RemoteEntryView {
    pub name: Seq<char>,
    pub is_dir: bool,
    pub size: u64,
    pub modified: Option<u64>,
    pub permissions: Permissions,
}

impl View for RemoteEntry {
    type V = RemoteEntryView;

    open spec fn view(&self) -> RemoteEntryView {
        RemoteEntryView {
            name: self.name@,
            is_dir: self.is_dir,
            size: self.size,
            modified: self.modified,
            permissions: self.permissions,
        }
    }
}

/// One line of a remote listing.
#[derive(Debug, Clone, PartialEq, Eq)]
pub struct SftpFileInfo {
    pub name: String,
    pub is_dir: bool,
    pub size: u64,
    pub modified: Option<u64>,
    pub permissions: String,
}

/// The model of an [`SftpFileInfo`].
pub struct SftpFileView {
    pub name: Seq<char>,
    pub is_dir: bool,
    pub size: u64,
    pub modified: Option<u64>,
    pub permissions: Seq<char>,
}

impl View for SftpFileInfo {
    type V = SftpFileView;

    open spec fn view(&self) -> SftpFileView {
        SftpFileView {
            name: self.name@,
            is_dir: self.is_dir,
            size: self.size,
            modified: self.modified,
            permissions: self.permissions@,
        }
    }
}

/// `letter` where the bit is set, a dash where it is not.
pub open spec fn flag(set: bool, letter: char) -> char {
    if set {
        letter
    } else {
        '-'
    }
}

/// The nine characters shown for an entry's permissions: three dashes in
/// the owner's place, then `rwx` or dashes for the group and for others.
pub open spec fn permission_chars(p: Permissions) -> Seq<char> {
    seq![
        '-',
        '-',
        '-',
        flag(p.group_read, 'r'),
        flag(p.group_write, 'w'),
        flag(p.group_exec, 'x'),
        flag(p.other_read, 'r'),
        flag(p.other_write, 'w'),
        flag(p.other_exec, 'x'),
    ]
}

/// The listing line of a remote entry.
pub open spec fn remote_file_of(e: RemoteEntryView) -> SftpFileView {
    SftpFileView {
        name: e.name,
        is_dir: e.is_dir,
        size: e.size,
        modified: e.modified,
        permissions: permission_chars(e.permissions),
    }
}

/// The listing line of a remote entry with the key it is ordered by: its
/// kind and its name.
pub open spec fn remote_rank(e: RemoteEntryView) -> Ranked<SftpFileView> {
    Ranked { key: KeyView { directory: e.is_dir, name: e.name }, item: remote_file_of(e) }
}

/// The remote listing of a directory: one line per entry, directories
/// first, then by name; entries that agree in both keep their order.
pub open spec fn remote_listing(entries: Seq<RemoteEntryView>) -> Seq<SftpFileView> {
    items_of(sorted_of(entries.map_values(|e: RemoteEntryView| remote_rank(e))))
}

/// The models of a list of remote entries.
pub open spec fn entry_views(entries: Seq<RemoteEntry>) -> Seq<RemoteEntryView> {
    entries.map_values(|e: RemoteEntry| e@)
}

/// The models of a list of listing lines.
pub open spec fn file_views(files: Seq<SftpFileInfo>) -> Seq<SftpFileView> {
    files.map_values(|f: SftpFileInfo| f@)
}

fn flag_of(set: bool, letter: char) -> (c: char)
    ensures
        c == flag(set, letter),
{
    if set {
        letter
    } else {
        '-'
    }
}

/// The nine characters shown for an entry's permissions.
pub fn permission_text(p: Permissions) -> (text: String)
    ensures
        text@ == permission_chars(p),
{
    let mut text = String::new();
    text.push('-');
    text.push('-');
    text.push('-');
    text.push(flag_of(p.group_read, 'r'));
    text.push(flag_of(p.group_write, 'w'));
    text.push(flag_of(p.group_exec, 'x'));
    text.push(flag_of(p.other_read, 'r'));
    text.push(flag_of(p.other_write, 'w'));
    text.push(flag_of(p.other_exec, 'x'));
    assert(text@ =~= permission_chars(p));
    text
}

fn strip<T: View>(sorted: Vec<Keyed<T>>) -> (items: Vec<T>)
    ensures
        items@.map_values(|t: T| t@) == items_of(ranked(sorted@)),
{
    let mut items: Vec<T> = Vec::new();
    let ghost all = items_of(ranked(sorted@));
    assert(items@.map_values(|t: T| t@) =~= all.take(0));
    for keyed in it: sorted
        invariant
            all == items_of(ranked(it.seq())),
            items@.map_values(|t: T| t@) == all.take(it.index() as int),
    {
        assert(all[it.index() as int] == keyed.item@);
        assert(all.take(it.index() + 1) =~= all.take(it.index() as int).push(keyed.item@));
        assert(items@.push(keyed.item).map_values(|t: T| t@) =~= items@.map_values(|t: T| t@).push(
            keyed.item@,
        ));
        items.push(keyed.item);
    }
    assert(all.take(all.len() as int) =~= all);
    items
}

/// Makes the listing of a remote directory out of its entries.
pub fn list_remote(entries: Vec<RemoteEntry>) -> (files: Vec<SftpFileInfo>)
    ensures
        file_views(files@) == remote_listing(entry_views(entries@)),
{
    let mut keyed: Vec<Keyed<SftpFileInfo>> = Vec::new();
    let ghost all = entry_views(entries@).map_values(|e: RemoteEntryView| remote_rank(e));
    assert(ranked(keyed@) =~= all.take(0));
    for entry in it: entries
        invariant
            all == entry_views(it.seq()).map_values(|e: RemoteEntryView| remote_rank(e)),
            ranked(keyed@) == all.take(it.index() as int),
    {
        let key = SortKey { directory: entry.is_dir, name: chars_of(entry.name.as_str()) };
        let item = SftpFileInfo {
            name: entry.name,
            is_dir: entry.is_dir,
            size: entry.size,
            modified: entry.modified,
            permissions: permission_text(entry.permissions),
        };
        let one = Keyed { key, item };
        assert(all[it.index() as int] == one@);
        assert(all.take(it.index() + 1) =~= all.take(it.index() as int).push(one@));
        assert(ranked(keyed@.push(one)) =~= ranked(keyed@).push(one@));
        keyed.push(one);
    }
    assert(all.take(all.len() as int) =~= all);
    let sorted = sort_keyed(keyed);
    let files = strip(sorted);
    assert(file_views(files@) =~= files@.map_values(|t: SftpFileInfo| t@));
    files
}

/// The text that `chrono` writes for a moment given in seconds since the
/// Unix epoch: the date and time in UTC as RFC 3339 has them, or nothing
/// where the moment is outside the range of dates that `chrono` holds.
pub uninterp spec fn rfc3339_of(seconds: i64) -> Option<Seq<char>>;

/// Asks `chrono` for the RFC 3339 text of a moment: `DateTime::from_timestamp`
/// with no nanoseconds, then `to_rfc3339` on what it returns. The result is
/// a function of the seconds alone; the contract gives it its name and says
/// no more.
#[verifier::external_body]
fn rfc3339(seconds: i64) -> (text: Option<String>)
    ensures
        match text {
            Some(t) => rfc3339_of(seconds) == Some(t@),
            None => rfc3339_of(seconds) is None,
        },
{
    chrono::DateTime::from_timestamp(seconds, 0).map(|moment| moment.to_rfc3339())
}

/// What `str::to_lowercase` makes of a text: every character replaced by
/// its lower-case mapping in Unicode.
pub uninterp spec fn lowercase_of(text: Seq<char>) -> Seq<char>;

/// Lower-cases a text with `str::to_lowercase`. The result is a function of
/// the text alone; the contract gives it its name and says no more.
#[verifier::external_body]
fn lowercase(text: &str) -> (lower: String)
    ensures
        lower@ == lowercase_of(text@),
{
    text.to_lowercase()
}

/// What the local file system reported of one directory entry. `len` is
/// the length from the entry's metadata and `modified` its modification
/// time in seconds since the Unix epoch, each absent where it could not be
/// read.
#[derive(Debug, Clone, PartialEq, Eq)]
pub struct LocalEntry {
    pub name: String,
    pub path: String,
    pub is_directory: bool,
    pub len: Option<u64>,
    pub modified: Option<u64>,
}

/// The model of a [`LocalEntry`].
pub struct LocalEntryView {
    pub name: Seq<char>,
    pub path: Seq<char>,
    pub is_directory: bool,
    pub len: Option<u64>,
    pub modified: Option<u64>,
}

impl View for LocalEntry {
    type V = LocalEntryView;

    open spec fn view(&self) -> LocalEntryView {
        LocalEntryView {
            name: self.name@,
            path: self.path@,
            is_directory: self.is_directory,
            len: self.len,
            modified: self.modified,
        }
    }
}

/// One line of a local listing. `modified` is an RFC 3339 text.
#[derive(Debug, Clone, PartialEq, Eq)]
pub struct FileItem {
    pub name: String,
    pub path: String,
    pub is_directory: bool,
    pub size: Option<u64>,
    pub modified: Option<String>,
    pub is_hidden: bool,
}

/// The model of a [`FileItem`].
pub struct FileItemView {
    pub name: Seq<char>,
    pub path: Seq<char>,
    pub is_directory: bool,
    pub size: Option<u64>,
    pub modified: Option<Seq<char>>,
    pub is_hidden: bool,
}

impl View for FileItem {
    type V = FileItemView;

    open spec fn view(&self) -> FileItemView {
        FileItemView {
            name: self.name@,
            path: self.path@,
            is_directory: self.is_directory,
            size: self.size,
            modified: match self.modified {
                Some(text) => Some(text@),
                None => None,
            },
            is_hidden: self.is_hidden,
        }
    }
}

/// A name is hidden where it starts with a dot.
pub open spec fn hidden(name: Seq<char>) -> bool {
    name.len() > 0 && name[0] == '.'
}

/// Seconds counted without a sign, read as a signed number of the same 64
/// bits.
pub open spec fn signed_of(seconds: u64) -> i64 {
    if seconds <= i64::MAX {
        seconds as i64
    } else {
        (seconds - 0x1_0000_0000_0000_0000) as i64
    }
}

/// The listing line of a local entry. A directory shows no size; the
/// modification time is shown as text.
pub open spec fn local_item_of(e: LocalEntryView) -> FileItemView {
    FileItemView {
        name: e.name,
        path: e.path,
        is_directory: e.is_directory,
        size: if e.is_directory {
            None
        } else {
            e.len
        },
        modified: match e.modified {
            Some(seconds) => rfc3339_of(signed_of(seconds)),
            None => None,
        },
        is_hidden: hidden(e.name),
    }
}

/// The listing line of a local entry with the key it is ordered by: its
/// kind and its name in lower case.
pub open spec fn local_rank(e: LocalEntryView) -> Ranked<FileItemView> {
    Ranked {
        key: KeyView { directory: e.is_directory, name: lowercase_of(e.name) },
        item: local_item_of(e),
    }
}

/// The entries that a listing shows, each with its key, in the order in
/// which they came: all of them, or only those that are not hidden.
pub open spec fn local_shown(entries: Seq<LocalEntryView>, show_hidden: bool) -> Seq<
    Ranked<FileItemView>,
>
    decreases entries.len(),
{
    if entries.len() == 0 {
        seq![]
    } else {
        let front = local_shown(entries.drop_last(), show_hidden);
        if show_hidden || !hidden(entries.last().name) {
            front.push(local_rank(entries.last()))
        } else {
            front
        }
    }
}

/// The local listing of a directory: one line per shown entry, directories
/// first, then by name without regard to case; entries that agree in both
/// keep their order.
pub open spec fn local_listing(entries: Seq<LocalEntryView>, show_hidden: bool) -> Seq<
    FileItemView,
> {
    items_of(sorted_of(local_shown(entries, show_hidden)))
}

/// The models of a list of local entries.
pub open spec fn local_views(entries: Seq<LocalEntry>) -> Seq<LocalEntryView> {
    entries.map_values(|e: LocalEntry| e@)
}

/// The models of a list of local listing lines.
pub open spec fn item_views(items: Seq<FileItem>) -> Seq<FileItemView> {
    items.map_values(|f: FileItem| f@)
}

fn signed(seconds: u64) -> (r: i64)
    ensures
        r == signed_of(seconds),
{
    if seconds <= 0x7fff_ffff_ffff_ffff {
        seconds as i64
    } else {
        let low: i64 = (seconds - 0x8000_0000_0000_0000) as i64;
        low + i64::MIN
    }
}

fn is_hidden_name(name: &Vec<char>) -> (b: bool)
    ensures
        b == hidden(name@),
{
    name.len() > 0 && name[0] == '.'
}

/// The listing line of a local entry, given the time of its last change as
/// text.
pub fn local_item(entry: LocalEntry, modified: Option<String>) -> (item: FileItem)
    ensures
        item@ == (FileItemView {
            modified: match modified {
                Some(text) => Some(text@),
                None => None,
            },
            ..local_item_of(entry@)
        }),
{
    let name = chars_of(entry.name.as_str());
    FileItem {
        name: entry.name,
        path: entry.path,
        is_directory: entry.is_directory,
        size: if entry.is_directory {
            None
        } else {
            entry.len
        },
        modified,
        is_hidden: is_hidden_name(&name),
    }
}

/// Makes the listing of a local directory out of its entries.
pub fn list_local(entries: Vec<LocalEntry>, show_hidden: bool) -> (items: Vec<FileItem>)
    ensures
        item_views(items@) == local_listing(local_views(entries@), show_hidden),
{
    let mut keyed: Vec<Keyed<FileItem>> = Vec::new();
    let ghost all = local_views(entries@);
    assert(all.take(0) =~= Seq::<LocalEntryView>::empty());
    assert(ranked(keyed@) =~= local_shown(all.take(0), show_hidden));
    for entry in it: entries
        invariant
            all == local_views(it.seq()),
            ranked(keyed@) == local_shown(all.take(it.index() as int), show_hidden),
    {
        proof {
            assert(all.take(it.index() + 1).drop_last() =~= all.take(it.index() as int));
            assert(all.take(it.index() + 1).last() == entry@);
        }
        let name = chars_of(entry.name.as_str());
        if show_hidden || !is_hidden_name(&name) {
            let lower = lowercase(entry.name.as_str());
            let key = SortKey { directory: entry.is_directory, name: chars_of(lower.as_str()) };
            let modified = match entry.modified {
                Some(seconds) => rfc3339(signed(seconds)),
                None => None,
            };
            let one = Keyed { key, item: local_item(entry, modified) };
            assert(one@ == local_rank(entry@));
            assert(ranked(keyed@.push(one)) =~= ranked(keyed@).push(one@));
            keyed.push(one);
        }
    }
    assert(all.take(all.len() as int) =~= all);
    let sorted = sort_keyed(keyed);
    let items = strip(sorted);
    assert(item_views(items@) =~= items@.map_values(|t: FileItem| t@));
    items
}

/// What is known of a remote file before it is downloaded. `modified` is in
/// seconds since the Unix epoch.
#[derive(Debug, Clone, PartialEq, Eq)]
pub struct FileInfo {
    pub name: String,
    pub size: u64,
    pub modified: Option<u64>,
}

} // verus!
