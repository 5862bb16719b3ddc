//! Directory statistics and the save inventory.
//!
//! The caller walks a directory and hands the walk over as a list of
//! [`WalkItem`]s; the statistics, the cache policy and the ordered list of
//! saves are computed here.

use crate::text::str_eq;
use crate::ui::{paint_as, painted, Look};
use std::fmt::Write;
use vstd::prelude::*;
use vstd::string::StringExecFns;

verus! {

/// One entry of a directory walk, as far as the engine reads it.
#[derive(Clone, Debug, PartialEq, Eq)]
pub enum WalkItem {
    /// A directory.
    Dir,
    /// A regular file: its name, and its length where its metadata could be
    /// read.
    File { name: String, len: Option<u64> },
    /// Anything else, such as a symbolic link.
    Other { name: String },
    /// An entry that the walk could not read.
    Unreadable,
}

/// A [`WalkItem`] with its name as a sequence of characters.
pub enum WalkItemView {
    Dir,
    File { name: Seq<char>, len: Option<u64> },
    Other { name: Seq<char> },
    Unreadable,
}

impl View for WalkItem {
    type V = WalkItemView;

    open spec fn view(&self) -> WalkItemView {
        match self {
            WalkItem::Dir => WalkItemView::Dir,
            WalkItem::File { name, len } => WalkItemView::File { name: name@, len: *len },
            WalkItem::Other { name } => WalkItemView::Other { name: name@ },
            WalkItem::Unreadable => WalkItemView::Unreadable,
        }
    }
}

/// The items of a walk, each by its view.
pub open spec fn walk_view(items: Seq<WalkItem>) -> Seq<WalkItemView> {
    items.map_values(|item: WalkItem| item@)
}

/// Whether `item` is a file that the statistics count: a regular file whose
/// metadata could be read and that is not the cache sidecar.
pub open spec fn is_counted(item: WalkItemView, sidecar: Seq<char>) -> bool {
    match item {
        WalkItemView::File { name, len: Some(_) } => name != sidecar,
        _ => false,
    }
}

/// The bytes that `item` adds to a directory's size: the length of a counted
/// file, and nothing otherwise.
pub open spec fn counted_len(item: WalkItemView, sidecar: Seq<char>) -> nat {
    match item {
        WalkItemView::File { name, len: Some(len) } => if name != sidecar {
            len as nat
        } else {
            0
        },
        _ => 0,
    }
}

/// Sum of the lengths of the counted files of a walk.
pub open spec fn total_size(items: Seq<WalkItemView>, sidecar: Seq<char>) -> nat
    decreases items.len(),
{
    if items.len() == 0 {
        0
    } else {
        total_size(items.drop_last(), sidecar) + counted_len(items.last(), sidecar)
    }
}

/// Number of counted files of a walk.
pub open spec fn file_count(items: Seq<WalkItemView>, sidecar: Seq<char>) -> nat
    decreases items.len(),
{
    if items.len() == 0 {
        0
    } else {
        file_count(items.drop_last(), sidecar) + if is_counted(items.last(), sidecar) {
            1nat
        } else {
            0nat
        }
    }
}

/// Number of directories of a walk.
pub open spec fn dir_count(items: Seq<WalkItemView>) -> nat
    decreases items.len(),
{
    if items.len() == 0 {
        0
    } else {
        dir_count(items.drop_last()) + if items.last() is Dir {
            1nat
        } else {
            0nat
        }
    }
}

/// The largest `u64` not above `n`.
pub open spec fn clip64(n: nat) -> u64 {
    if n <= u64::MAX {
        n as u64
    } else {
        u64::MAX
    }
}

/// Size and number of files of a directory tree.
#[derive(Clone, Copy, Debug, PartialEq, Eq, Structural)]
pub struct SaveStat {
    /// Total length of the files, in bytes.
    pub size: u64,
    /// Number of files.
    pub count: usize,
}

/// The statistics of a walk: the sum of the lengths of its counted files,
/// held at `u64::MAX` where the sum is larger, and their number.
pub open spec fn scan_of(items: Seq<WalkItemView>, sidecar: Seq<char>) -> SaveStat {
    SaveStat {
        size: clip64(total_size(items, sidecar)),
        count: file_count(items, sidecar) as usize,
    }
}

/// A walk has no more counted files, and no more directories, than items.
pub proof fn lemma_counts_bounded(items: Seq<WalkItemView>, sidecar: Seq<char>)
    ensures
        file_count(items, sidecar) <= items.len(),
        dir_count(items) <= items.len(),
        file_count(items, sidecar) + dir_count(items) <= items.len(),
    decreases items.len(),
{
    if items.len() > 0 {
        lemma_counts_bounded(items.drop_last(), sidecar);
    }
}

/// Taking one item out of a walk takes its share out of the totals.
pub proof fn lemma_totals_remove(items: Seq<WalkItemView>, sidecar: Seq<char>, i: int)
    requires
        0 <= i < items.len(),
    ensures
        total_size(items, sidecar) == total_size(items.remove(i), sidecar) + counted_len(
            items[i],
            sidecar,
        ),
        file_count(items, sidecar) == file_count(items.remove(i), sidecar) + if is_counted(
            items[i],
            sidecar,
        ) {
            1nat
        } else {
            0nat
        },
    decreases items.len(),
{
    if i == items.len() - 1 {
        assert(items.remove(i) == items.drop_last());
    } else {
        assert(items.remove(i).drop_last() == items.drop_last().remove(i));
        assert(items.remove(i).last() == items.last());
        lemma_totals_remove(items.drop_last(), sidecar, i);
    }
}

/// The statistics of a walk do not depend on the order in which the walk
/// visits the entries.
pub proof fn lemma_scan_order_independent(
    a: Seq<WalkItemView>,
    b: Seq<WalkItemView>,
    sidecar: Seq<char>,
)
    requires
        a.to_multiset() == b.to_multiset(),
    ensures
        total_size(a, sidecar) == total_size(b, sidecar),
        file_count(a, sidecar) == file_count(b, sidecar),
        scan_of(a, sidecar) == scan_of(b, sidecar),
    decreases a.len(),
{
    broadcast use vstd::seq_lib::group_to_multiset_ensures;

    a.to_multiset_ensures();
    b.to_multiset_ensures();
    if a.len() == 0 {
        assert(b.len() == 0);
    } else {
        let x = a.last();
        assert(a.contains(x));
        assert(b.to_multiset().count(x) > 0);
        assert(b.contains(x));
        let j = choose|j: int| 0 <= j < b.len() && b[j] == x;
        assert(a.drop_last() == a.remove(a.len() - 1));
        assert(a.remove(a.len() - 1).to_multiset() == a.to_multiset().remove(x)) by {
            vstd::seq_lib::to_multiset_remove(a, a.len() - 1);
        }
        assert(b.remove(j).to_multiset() == b.to_multiset().remove(x)) by {
            vstd::seq_lib::to_multiset_remove(b, j);
        }
        lemma_scan_order_independent(a.drop_last(), b.remove(j), sidecar);
        lemma_totals_remove(b, sidecar, j);
    }
}

impl SaveStat {
    /// The statistics of the tree that `items` is a walk of: the files are
    /// counted and their lengths summed, the sidecar named `cache_file_name`
    /// left out of both. What could not be read adds to neither: an entry that
    /// the walk could not read, and a file whose metadata could not be read.
    /// The size stays at `u64::MAX` where the sum is larger.
    pub fn scan(items: &Vec<WalkItem>, cache_file_name: &str) -> (stat: SaveStat)
        ensures
            stat == scan_of(walk_view(items@), cache_file_name@),
            total_size(walk_view(items@), cache_file_name@) <= u64::MAX ==> stat.size
                == total_size(walk_view(items@), cache_file_name@),
            stat.count == file_count(walk_view(items@), cache_file_name@),
    {
        let ghost walk = walk_view(items@);
        let ghost sidecar = cache_file_name@;
        let mut size: u64 = 0;
        let mut count: usize = 0;
        let mut i: usize = 0;
        while i < items.len()
            invariant
                i <= items.len(),
                walk == walk_view(items@),
                sidecar == cache_file_name@,
                size == clip64(total_size(walk.take(i as int), sidecar)),
                count == file_count(walk.take(i as int), sidecar),
                count <= i,
            decreases items.len() - i,
        {
            proof {
                assert(walk.take(i + 1).drop_last() == walk.take(i as int));
                assert(walk.take(i + 1).last() == items@[i as int]@);
            }
            match &items[i] {
                WalkItem::File { name, len } => {
                    if !str_eq(name.as_str(), cache_file_name) {
                        if let Some(len) = len {
                            count = count + 1;
                            size = size.saturating_add(*len);
                        }
                    }
                },
                _ => {},
            }
            i = i + 1;
        }
        proof {
            assert(walk.take(items.len() as int) == walk);
            lemma_counts_bounded(walk, sidecar);
        }
        SaveStat { size, count }
    }

    /// Whether the statistics have to come from a walk: always where the cache
    /// is not to be read, and otherwise where the sidecar gave nothing.
    pub fn needs_scan(read_cache: bool, cached: &Option<SaveStat>) -> (needed: bool)
        ensures
            needed == !(read_cache && cached is Some),
    {
        !(read_cache && cached.is_some())
    }

    /// The statistics of a directory under the cache policy. `cached` is what
    /// the sidecar held, if it could be read, and `items` the walk of the tree.
    /// Where `read_cache` is set and the sidecar gave a value, that value is
    /// returned as it is, whatever the tree holds now; otherwise the walk is
    /// scanned.
    pub fn new(
        read_cache: bool,
        cached: Option<SaveStat>,
        items: &Vec<WalkItem>,
        cache_file_name: &str,
    ) -> (stat: SaveStat)
        ensures
            stat == stat_under_policy(read_cache, cached, walk_view(items@), cache_file_name@),
    {
        if read_cache {
            match cached {
                Some(stat) => stat,
                None => SaveStat::scan(items, cache_file_name),
            }
        } else {
            SaveStat::scan(items, cache_file_name)
        }
    }

    /// The statistics of a directory whose sidecar is trusted where it exists.
    pub fn read_cache_or_scan(
        cached: Option<SaveStat>,
        items: &Vec<WalkItem>,
        cache_file_name: &str,
    ) -> (stat: SaveStat)
        ensures
            stat == stat_under_policy(true, cached, walk_view(items@), cache_file_name@),
    {
        SaveStat::new(true, cached, items, cache_file_name)
    }
}

/// The statistics that the cache policy gives: the sidecar's value where the
/// cache is read and the sidecar gave one, and the scan of the walk otherwise.
pub open spec fn stat_under_policy(
    read_cache: bool,
    cached: Option<SaveStat>,
    items: Seq<WalkItemView>,
    sidecar: Seq<char>,
) -> SaveStat {
    if read_cache && cached is Some {
        cached->0
    } else {
        scan_of(items, sidecar)
    }
}

/// With the cache read, a directory without a sidecar gets the statistics
/// that it gets with the cache not read, and a directory with a sidecar gets
/// the sidecar's value, whatever its tree holds.
pub proof fn lemma_cache_policy(
    cached: Option<SaveStat>,
    items: Seq<WalkItemView>,
    sidecar: Seq<char>,
)
    ensures
        cached is None ==> stat_under_policy(true, cached, items, sidecar) == stat_under_policy(
            false,
            cached,
            items,
            sidecar,
        ),
        cached is Some ==> stat_under_policy(true, cached, items, sidecar) == cached->0,
        stat_under_policy(false, cached, items, sidecar) == scan_of(items, sidecar),
{
}

/// When a path was created and last changed, as far as the file system
/// tells, in nanoseconds since the Unix epoch.
#[derive(Clone, Copy, Debug, PartialEq, Eq)]
pub struct FileTimes {
    pub created: Option<i128>,
    pub modified: Option<i128>,
}

impl FileTimes {
    /// The time by which a save is ordered: its creation time, or, where the
    /// file system gives none, the time of its last change.
    pub open spec fn spec_ctime(self) -> Option<i128> {
        match self.created {
            Some(t) => Some(t),
            None => self.modified,
        }
    }

    /// The time by which a save is ordered.
    pub fn ctime(&self) -> (t: Option<i128>)
        ensures
            t == self.spec_ctime(),
    {
        match self.created {
            Some(t) => Some(t),
            None => self.modified,
        }
    }
}

/// One save: where it lies, the name it is shown under, when it was created
/// (nanoseconds since the Unix epoch) and its statistics.
#[derive(Debug, PartialEq, Eq)]
pub struct SaveInfo {
    pub path: std::path::PathBuf,
    pub name: String,
    pub ctime: i128,
    pub stat: SaveStat,
}

/// The saves that were found, in the order of the listing.
pub open spec fn present(found: Seq<Option<SaveInfo>>) -> Seq<SaveInfo>
    decreases found.len(),
{
    if found.len() == 0 {
        Seq::empty()
    } else {
        match found.last() {
            Some(save) => present(found.drop_last()).push(save),
            None => present(found.drop_last()),
        }
    }
}

/// `saves`, which are in order, with `save` put behind all that are not
/// younger than it.
pub open spec fn inserted(saves: Seq<SaveInfo>, save: SaveInfo) -> Seq<SaveInfo>
    decreases saves.len(),
{
    if saves.len() == 0 || saves.last().ctime <= save.ctime {
        saves.push(save)
    } else {
        inserted(saves.drop_last(), save).push(saves.last())
    }
}

/// `saves` by creation time, oldest first; saves of the same time stay in
/// the order in which they came.
pub open spec fn by_ctime(saves: Seq<SaveInfo>) -> Seq<SaveInfo>
    decreases saves.len(),
{
    if saves.len() == 0 {
        Seq::empty()
    } else {
        inserted(by_ctime(saves.drop_last()), saves.last())
    }
}

/// Whether no save stands before an older one.
pub open spec fn is_ordered(saves: Seq<SaveInfo>) -> bool {
    forall|i: int, j: int| 0 <= i <= j < saves.len() ==> saves[i].ctime <= saves[j].ctime
}

/// Inserting keeps the order, adds the one save and loses none.
pub proof fn lemma_inserted(saves: Seq<SaveInfo>, save: SaveInfo)
    requires
        is_ordered(saves),
    ensures
        is_ordered(inserted(saves, save)),
        inserted(saves, save).len() == saves.len() + 1,
        inserted(saves, save).to_multiset() == saves.to_multiset().insert(save),
    decreases saves.len(),
{
    broadcast use vstd::seq_lib::group_to_multiset_ensures;

    if saves.len() == 0 || saves.last().ctime <= save.ctime {
    } else {
        let rest = saves.drop_last();
        lemma_inserted(rest, save);
        let r = inserted(rest, save);
        assert(saves == rest.push(saves.last()));
        assert forall|x: SaveInfo| r.contains(x) implies x.ctime <= saves.last().ctime by {
            r.to_multiset_ensures();
            rest.to_multiset_ensures();
            if x != save {
                assert(r.to_multiset().count(x) > 0);
                assert(rest.to_multiset().insert(save).count(x) == rest.to_multiset().count(x));
                assert(rest.to_multiset().count(x) > 0);
                assert(rest.contains(x));
            }
        }
        assert forall|i: int, j: int| 0 <= i <= j < r.push(saves.last()).len() implies r.push(
            saves.last(),
        )[i].ctime <= r.push(saves.last())[j].ctime by {
            if j == r.len() && i < r.len() {
                assert(r.contains(r[i]));
            }
        }
        assert(r.push(saves.last()).to_multiset() =~= saves.to_multiset().insert(save));
    }
}

/// The ordered list is in order and holds exactly the saves it was made of.
pub proof fn lemma_by_ctime(saves: Seq<SaveInfo>)
    ensures
        is_ordered(by_ctime(saves)),
        by_ctime(saves).len() == saves.len(),
        by_ctime(saves).to_multiset() == saves.to_multiset(),
    decreases saves.len(),
{
    broadcast use vstd::seq_lib::group_to_multiset_ensures;

    if saves.len() > 0 {
        lemma_by_ctime(saves.drop_last());
        lemma_inserted(by_ctime(saves.drop_last()), saves.last());
        assert(saves == saves.drop_last().push(saves.last()));
    }
}

/// A list that is in order already is its own ordered list.
pub proof fn lemma_by_ctime_of_ordered(saves: Seq<SaveInfo>)
    requires
        is_ordered(saves),
    ensures
        by_ctime(saves) == saves,
    decreases saves.len(),
{
    if saves.len() > 0 {
        let rest = saves.drop_last();
        assert forall|i: int, j: int| 0 <= i <= j < rest.len() implies rest[i].ctime
            <= rest[j].ctime by {
            assert(rest[i] == saves[i] && rest[j] == saves[j]);
        }
        lemma_by_ctime_of_ordered(rest);
        if rest.len() > 0 {
            assert(rest.last() == saves[rest.len() - 1]);
        }
        assert(rest.push(saves.last()) == saves);
    }
}

/// Where the last save that is not younger than `save` ends: the place at
/// which `save` is inserted.
proof fn lemma_inserted_at(saves: Seq<SaveInfo>, save: SaveInfo, k: int)
    requires
        0 <= k <= saves.len(),
        k > 0 ==> saves[k - 1].ctime <= save.ctime,
        forall|i: int| k <= i < saves.len() ==> saves[i].ctime > save.ctime,
    ensures
        inserted(saves, save) == saves.insert(k, save),
    decreases saves.len() - k,
{
    if k == saves.len() {
        assert(saves.insert(k, save) =~= saves.push(save));
    } else {
        lemma_inserted_at(saves.drop_last(), save, k);
        assert(saves.insert(k, save) =~= saves.drop_last().insert(k, save).push(saves.last()));
    }
}

fn insert_by_ctime(saves: &mut Vec<SaveInfo>, save: SaveInfo)
    ensures
        final(saves)@ == inserted(old(saves)@, save),
{
    let mut k: usize = saves.len();
    while k > 0 && saves[k - 1].ctime > save.ctime
        invariant
            k <= saves.len(),
            saves@ == old(saves)@,
            forall|i: int| k <= i < saves.len() ==> saves@[i].ctime > save.ctime,
        decreases k,
    {
        k = k - 1;
    }
    proof {
        lemma_inserted_at(saves@, save, k as int);
    }
    saves.insert(k, save);
}

impl SaveInfo {
    /// The live save at `path`: always with statistics from a fresh scan of
    /// `items`, and with an empty name. There is none where the path has no
    /// metadata or the metadata holds no time.
    pub fn current(
        path: std::path::PathBuf,
        times: Option<FileTimes>,
        items: &Vec<WalkItem>,
        cache_file_name: &str,
    ) -> (current: Option<SaveInfo>)
        ensures
            match times {
                Some(times) => match times.spec_ctime() {
                    Some(ctime) => current matches Some(save) && save.path == path && save.name@
                        == Seq::<char>::empty() && save.ctime == ctime && save.stat == scan_of(
                        walk_view(items@),
                        cache_file_name@,
                    ),
                    None => current is None,
                },
                None => current is None,
            },
    {
        let times = match times {
            Some(times) => times,
            None => { return None; },
        };
        let ctime = match times.ctime() {
            Some(ctime) => ctime,
            None => { return None; },
        };
        Some(
            SaveInfo {
                path,
                name: String::new(),
                ctime,
                stat: SaveStat::scan(items, cache_file_name),
            },
        )
    }

    /// The save named `name` at `path`, with statistics from the sidecar where
    /// it gave a value and from the walk otherwise. There is none where the
    /// path does not exist, has no metadata, or the metadata holds no time.
    pub fn new(
        path: std::path::PathBuf,
        name: String,
        times: Option<FileTimes>,
        cached: Option<SaveStat>,
        items: &Vec<WalkItem>,
        cache_file_name: &str,
    ) -> (found: Option<SaveInfo>)
        ensures
            match times {
                Some(times) => match times.spec_ctime() {
                    Some(ctime) => found matches Some(save) && save.path == path && save.name
                        == name && save.ctime == ctime && save.stat == stat_under_policy(
                        true,
                        cached,
                        walk_view(items@),
                        cache_file_name@,
                    ),
                    None => found is None,
                },
                None => found is None,
            },
    {
        let times = match times {
            Some(times) => times,
            None => { return None; },
        };
        let stat = SaveStat::read_cache_or_scan(cached, items, cache_file_name);
        let ctime = match times.ctime() {
            Some(ctime) => ctime,
            None => { return None; },
        };
        Some(SaveInfo { path, name, ctime, stat })
    }

    /// The ordered save list: the saves that were found, oldest first. Where
    /// the save store could not be listed there is no list; an entry of the
    /// listing that gave no save is left out.
    pub fn all(listing: Option<Vec<Option<SaveInfo>>>) -> (saves: Option<Vec<SaveInfo>>)
        ensures
            match listing {
                Some(found) => saves matches Some(saves) && saves@ == by_ctime(present(found@))
                    && is_ordered(saves@) && saves@.to_multiset() == present(
                    found@,
                ).to_multiset(),
                None => saves is None,
            },
    {
        let found = match listing {
            Some(found) => found,
            None => { return None; },
        };
        let ghost all_found = found@;
        let mut saves: Vec<SaveInfo> = Vec::new();
        for entry in it: found
            invariant
                it.seq() == all_found,
                saves@ == by_ctime(present(all_found.take(it.index()))),
        {
            proof {
                let i = it.index();
                assert(all_found.take(i + 1).drop_last() == all_found.take(i));
                let sofar = present(all_found.take(i));
                if entry is Some {
                    assert(sofar.push(entry->0).drop_last() == sofar);
                }
            }
            if let Some(save) = entry {
                insert_by_ctime(&mut saves, save);
            }
        }
        proof {
            assert(all_found.take(all_found.len() as int) == all_found);
            lemma_by_ctime(present(all_found));
        }
        Some(saves)
    }

    /// Whether this save is what the live save holds: whether there is a live
    /// save and its size and file count are this save's. Two saves of the same
    /// size and count are not told apart.
    pub fn is_current(&self, current_save: Option<&SaveInfo>) -> (is: bool)
        ensures
            is == (current_save matches Some(current) && current.stat == self.stat),
            is == self.spec_is_current(current_save),
    {
        match current_save {
            Some(current) => current.stat == self.stat,
            None => false,
        }
    }
}

/// What `bytesize` writes for a number of bytes: the number with its unit,
/// such as `1.5 KiB`.
pub uninterp spec fn byte_size_text(bytes: u64) -> Seq<char>;

/// Writes a number of bytes as `bytesize::ByteSize::b(bytes)` displays it.
/// The text is a function of the number alone.
#[verifier::external_body]
pub(crate) fn size_text(bytes: u64) -> (text: String)
    ensures
        text@ == byte_size_text(bytes),
{
    bytesize::ByteSize::b(bytes).to_string()
}

/// Nanoseconds in a second.
pub const NANOS_PER_SEC: i128 = 1_000_000_000;

/// How the time of a save is written: month, day, and time of day.
pub const TIME_FORMAT: &'static str = "%b %-d %H:%M:%S";

/// The whole seconds of a time in nanoseconds, and the nanoseconds beyond
/// them; nothing where the seconds do not fit.
pub fn split_time(ctime: i128) -> (parts: Option<(i64, u32)>)
    ensures
        match parts {
            Some((secs, nanos)) => secs == ctime / NANOS_PER_SEC && nanos == ctime % NANOS_PER_SEC,
            None => ctime / NANOS_PER_SEC < i64::MIN || ctime / NANOS_PER_SEC > i64::MAX,
        },
{
    let (secs, nanos): (i128, i128) = if ctime >= 0 {
        (ctime / NANOS_PER_SEC, ctime % NANOS_PER_SEC)
    } else {
        let below: i128 = -(ctime + 1);
        (-(below / NANOS_PER_SEC) - 1, NANOS_PER_SEC - 1 - below % NANOS_PER_SEC)
    };
    assert(secs == ctime / NANOS_PER_SEC && nanos == ctime % NANOS_PER_SEC) by (nonlinear_arith)
        requires
            secs * NANOS_PER_SEC + nanos == ctime,
            0 <= nanos < NANOS_PER_SEC,
            NANOS_PER_SEC == 1_000_000_000,
    ;
    if secs < i64::MIN as i128 || secs > i64::MAX as i128 {
        None
    } else {
        Some((secs as i64, nanos as u32))
    }
}

/// Writes the time that lies `secs` seconds and `nanos` nanoseconds after
/// the Unix epoch as `chrono` formats it, by `format`, in the time zone of
/// this machine: `chrono::DateTime::from_timestamp`, then
/// `DateTime::with_timezone` and `DateTime::format`. There is no text where
/// `chrono` cannot hold the time or cannot follow the format. The text
/// depends on the time zone, so nothing is said of it.
#[verifier::external_body]
fn local_time_text(secs: i64, nanos: u32, format: &str) -> (text: Option<String>) {
    let utc = chrono::DateTime::from_timestamp(secs, nanos)?;
    let mut text = String::new();
    write!(text, "{}", utc.with_timezone(&chrono::Local).format(format)).ok()?;
    Some(text)
}

/// The time of a save, written out for the reader in the time zone of this
/// machine. The text is empty where the time cannot be written.
fn time_text(ctime: i128) -> (text: String)
    ensures
        !time_fits(ctime) ==> text@ == Seq::<char>::empty(),
{
    let written = match split_time(ctime) {
        Some((secs, nanos)) => local_time_text(secs, nanos, TIME_FORMAT),
        None => None,
    };
    text_or_blank(written)
}

/// Whether the whole seconds of a time in nanoseconds fit the number that
/// the writing of times takes.
pub open spec fn time_fits(ctime: i128) -> bool {
    i64::MIN <= ctime / NANOS_PER_SEC <= i64::MAX
}

/// The text that was written, or the empty text where none was.
fn text_or_blank(written: Option<String>) -> (text: String)
    ensures
        text@ == match written {
            Some(given) => given@,
            None => Seq::<char>::empty(),
        },
{
    match written {
        Some(text) => text,
        None => String::new(),
    }
}

/// What stands behind a save's name: when it was made and how large it is.
pub open spec fn info_text(when: Seq<char>, size: Seq<char>) -> Seq<char> {
    seq!['['] + when + seq![' ', '|', ' '] + size + seq![']']
}

/// The mark on the save that the live save holds.
pub open spec fn current_tag() -> Seq<char> {
    seq!['<', 'C', 'u', 'r', 'r', 'e', 'n', 't', '>']
}

/// Whether `line` shows a save: its label and its information two blanks
/// apart. The information is dimmed; the line of the save that the live save
/// holds is styled as a whole instead and ends in the dimmed mark.
pub open spec fn is_save_line(
    label: Seq<char>,
    info: Seq<char>,
    current: bool,
    line: Seq<char>,
) -> bool {
    if current {
        exists|tag: Seq<char>| #[trigger]
            painted(current_tag(), Look::Dim, tag) && painted(
                label + seq![' ', ' '] + info + seq![' ', ' '] + tag,
                Look::GreenBold,
                line,
            )
    } else {
        exists|dimmed: Seq<char>| #[trigger]
            painted(info, Look::Dim, dimmed) && line == label + seq![' ', ' '] + dimmed
    }
}

/// The line that shows a save under `label`. `when` is the time of the
/// save, written out, and `size` its size.
pub fn save_line(label: &str, when: &str, size: &str, current: bool) -> (line: String)
    ensures
        is_save_line(label@, info_text(when@, size@), current, line@),
{
    proof {
        reveal_strlit("[");
        reveal_strlit(" | ");
        reveal_strlit("]");
        reveal_strlit("  ");
        reveal_strlit("<Current>");
        assert("["@ =~= seq!['[']);
        assert(" | "@ =~= seq![' ', '|', ' ']);
        assert("]"@ =~= seq![']']);
        assert("  "@ =~= seq![' ', ' ']);
        assert("<Current>"@ =~= current_tag());
    }
    let mut additional_info = String::new();
    additional_info.append("[");
    additional_info.append(when);
    additional_info.append(" | ");
    additional_info.append(size);
    additional_info.append("]");
    let mut text = label.to_owned();
    text.append("  ");
    if current {
        let tag = paint_as("<Current>", Look::Dim);
        text.append(additional_info.as_str());
        text.append("  ");
        text.append(tag.as_str());
        let line = paint_as(text.as_str(), Look::GreenBold);
        line
    } else {
        let dimmed = paint_as(additional_info.as_str(), Look::Dim);
        text.append(dimmed.as_str());
        text
    }
}

/// Whether `line` shows a save of the time `ctime` and of `size` bytes under
/// `label`: with some text for its time, which is empty where the time
/// cannot be written.
pub open spec fn shows_save(
    label: Seq<char>,
    ctime: i128,
    size: u64,
    current: bool,
    line: Seq<char>,
) -> bool {
    exists|when: Seq<char>| #[trigger]
        is_save_line(label, info_text(when, byte_size_text(size)), current, line) && (!time_fits(
            ctime,
        ) ==> when == Seq::<char>::empty())
}

/// The line that shows `save` under `label`. The time of the save is
/// written in the time zone of this machine.
pub fn describe(label: &str, save: &SaveInfo, current_save: Option<&SaveInfo>) -> (line: String)
    ensures
        shows_save(
            label@,
            save.ctime,
            save.stat.size,
            save.spec_is_current(current_save),
            line@,
        ),
{
    let when = time_text(save.ctime);
    let size = size_text(save.stat.size);
    let line = save_line(label, when.as_str(), size.as_str(), save.is_current(current_save));
    line
}

impl SaveInfo {
    /// Whether this save is what `current_save` holds.
    pub open spec fn spec_is_current(&self, current_save: Option<&SaveInfo>) -> bool {
        current_save matches Some(current) && current.stat == self.stat
    }

    /// The line that shows this save: its name, then its time and its size;
    /// marked where it is what the live save holds.
    pub fn to_string(&self, current_save: Option<&SaveInfo>) -> (line: String)
        ensures
            shows_save(
                self.name@,
                self.ctime,
                self.stat.size,
                self.spec_is_current(current_save),
                line@,
            ),
    {
        describe(self.name.as_str(), self, current_save)
    }
}

} // verus!
