//! The directory lister: from what the host reported about each child of a
//! directory to the entries shown to the front end.

use vstd::prelude::*;

verus! {

/// Nanoseconds in one second.
pub const NANOS_PER_SEC: u32 = 1_000_000_000;

/// When a child was last modified, as the host reported it.
#[derive(Clone, Copy, Debug, PartialEq, Eq)]
pub enum ModifiedTime {
    /// At or after the Unix epoch: whole seconds, and the nanoseconds past them.
    SinceEpoch { secs: u64, subsec_nanos: u32 },
    /// Before the Unix epoch, which an unsigned count of seconds cannot hold.
    BeforeEpoch,
    /// The host could not tell.
    Unavailable,
}

/// The metadata of one child, read without following a symbolic link.
#[derive(Clone, Copy, Debug, PartialEq, Eq)]
pub struct ChildMetadata {
    /// Size in bytes.
    pub len: u64,
    /// Whether the host classifies the child as a directory.
    pub is_dir: bool,
    /// Time of the last modification.
    pub modified: ModifiedTime,
}

/// What probing one child of a directory gave.
#[derive(Clone, Debug, PartialEq, Eq)]
pub struct ChildProbe {
    /// Base name of the child, not its full path.
    pub name: String,
    /// Its metadata, or `None` where the query failed.
    pub metadata: Option<ChildMetadata>,
}

/// One line of a directory listing.
#[derive(Clone, Debug, PartialEq, Eq)]
pub struct FileEntry {
    /// Base name of the child.
    pub name: String,
    /// Last modification, in whole seconds since the Unix epoch.
    pub mtime: u64,
    /// Size in bytes.
    pub size: u64,
    /// Whether the child is a directory.
    pub is_dir: bool,
}

impl ModifiedTime {
    /// A count of nanoseconds past the second stays below one second.
    pub open spec fn wf(self) -> bool {
        self matches ModifiedTime::SinceEpoch { subsec_nanos, .. } ==> subsec_nanos < NANOS_PER_SEC
    }

    /// The modification time in nanoseconds since the epoch, where it has one.
    pub open spec fn nanos_since_epoch(self) -> Option<int> {
        match self {
            ModifiedTime::SinceEpoch { secs, subsec_nanos } => Some(
                secs * NANOS_PER_SEC + subsec_nanos,
            ),
            _ => None,
        }
    }

    /// The modification time truncated to whole seconds, where it has one.
    pub open spec fn whole_seconds(self) -> Option<u64> {
        match self {
            ModifiedTime::SinceEpoch { secs, .. } => Some(secs),
            _ => None,
        }
    }

    /// Whole seconds since the epoch; `None` for a time before the epoch or
    /// one the host could not tell.
    pub fn as_secs(&self) -> (secs: Option<u64>)
        ensures
            secs == self.whole_seconds(),
    {
        match self {
            ModifiedTime::SinceEpoch { secs, .. } => Some(*secs),
            _ => None,
        }
    }
}

impl ChildProbe {
    /// The entry that stands for this child in a listing, or `None` where the
    /// child is dropped: its metadata or its modification time could not be
    /// had, or the time lies before the epoch.
    pub open spec fn listing(self) -> Option<FileEntry> {
        match self.metadata {
            Some(m) => match m.modified.whole_seconds() {
                Some(secs) => Some(
                    FileEntry { name: self.name, mtime: secs, size: m.len, is_dir: m.is_dir },
                ),
                None => None,
            },
            None => None,
        }
    }

    /// The entry for this child, or `None` where it is dropped from the
    /// listing.
    pub fn to_entry(&self) -> (entry: Option<FileEntry>)
        ensures
            entry == self.listing(),
    {
        match &self.metadata {
            Some(m) => match m.modified.as_secs() {
                Some(secs) => Some(
                    FileEntry { name: self.name.clone(), mtime: secs, size: m.len, is_dir: m.is_dir },
                ),
                None => None,
            },
            None => None,
        }
    }
}

/// The rule that turns a probe into its entry, as a function value.
pub open spec fn listing_rule() -> spec_fn(ChildProbe) -> Option<FileEntry> {
    |p: ChildProbe| p.listing()
}

/// The listing of a directory whose children gave `probes`: every child that
/// has an entry, as that entry, in the order in which the children were
/// probed.
pub open spec fn listed(probes: Seq<ChildProbe>) -> Seq<FileEntry> {
    probes.filter_map(listing_rule())
}

/// Lists the children that were probed, dropping those without an entry.
pub fn list_children(probes: &Vec<ChildProbe>) -> (entries: Vec<FileEntry>)
    ensures
        entries@ == listed(probes@),
{
    let mut entries: Vec<FileEntry> = Vec::new();
    let mut i: usize = 0;
    while i < probes.len()
        invariant
            i <= probes.len(),
            entries@ == listed(probes@.take(i as int)),
        decreases probes.len() - i,
    {
        proof {
            probes@.lemma_filter_map_take_succ(listing_rule(), i as int);
        }
        match probes[i].to_entry() {
            Some(entry) => {
                entries.push(entry);
            },
            None => {},
        }
        i += 1;
    }
    assert(probes@.take(i as int) =~= probes@);
    entries
}

/// The directory lister. `read` is what opening and walking the directory
/// gave: the probes of its immediate children, or the host's error message
/// where the path could not be opened as a directory.
///
/// An error is handed on unchanged and never becomes an empty listing. A
/// directory that could be read always yields a listing, empty where it has
/// no child with an entry.
pub fn list_directory_with_times(read: Result<Vec<ChildProbe>, String>) -> (result: Result<
    Vec<FileEntry>,
    String,
>)
    ensures
        read is Ok <==> result is Ok,
        read matches Ok(probes) ==> result->Ok_0@ == listed(probes@),
        read matches Err(message) ==> result->Err_0 == message,
{
    match read {
        Ok(probes) => Ok(list_children(&probes)),
        Err(message) => Err(message),
    }
}

/// A directory without children lists as the empty sequence.
pub proof fn lemma_empty_directory()
    ensures
        listed(Seq::<ChildProbe>::empty()) == Seq::<FileEntry>::empty(),
{
}

/// Where every child has an entry, the listing has one entry per child, in
/// the children's order, and each entry carries the child's name, its size,
/// its classification as a directory, and its modification time in whole
/// seconds.
pub proof fn lemma_one_entry_per_child(probes: Seq<ChildProbe>)
    requires
        forall|i: int| 0 <= i < probes.len() ==> (#[trigger] probes[i]).listing() is Some,
    ensures
        listed(probes).len() == probes.len(),
        forall|i: int|
            0 <= i < probes.len() ==> {
                let entry = #[trigger] listed(probes)[i];
                let meta = probes[i].metadata->0;
                &&& entry.name == probes[i].name
                &&& entry.size == meta.len
                &&& entry.is_dir == meta.is_dir
                &&& Some(entry.mtime) == meta.modified.whole_seconds()
            },
    decreases probes.len(),
{
    if probes.len() > 0 {
        let rest = probes.drop_last();
        assert forall|i: int| 0 <= i < rest.len() implies (#[trigger] rest[i]).listing() is Some by {
            assert(rest[i] == probes[i]);
        }
        lemma_one_entry_per_child(rest);
        assert(probes.last() == probes[probes.len() - 1]);
        assert(listed(probes) == listed(rest) + seq![probes.last().listing()->0]);
        assert forall|i: int| 0 <= i < probes.len() implies {
            let entry = #[trigger] listed(probes)[i];
            let meta = probes[i].metadata->0;
            &&& entry.name == probes[i].name
            &&& entry.size == meta.len
            &&& entry.is_dir == meta.is_dir
            &&& Some(entry.mtime) == meta.modified.whole_seconds()
        } by {
            if i < rest.len() {
                assert(listed(probes)[i] == listed(rest)[i]);
                assert(rest[i] == probes[i]);
            }
        }
    }
}

/// Every entry of a listing stands for a probed child that has that entry:
/// nothing is listed that was not probed.
pub proof fn lemma_entries_come_from_children(probes: Seq<ChildProbe>, entry: FileEntry)
    requires
        listed(probes).contains(entry),
    ensures
        exists|i: int| 0 <= i < probes.len() && (#[trigger] probes[i]).listing() == Some(entry),
{
    probes.lemma_filter_map_contains(listing_rule(), entry);
    let p = choose|p: ChildProbe| #[trigger] probes.contains(p) && listing_rule()(p) == Some(entry);
    let i = choose|i: int| 0 <= i < probes.len() && probes[i] == p;
    assert(probes[i].listing() == Some(entry));
}

/// Every child that has an entry is listed.
pub proof fn lemma_children_are_listed(probes: Seq<ChildProbe>, i: int)
    requires
        0 <= i < probes.len(),
        probes[i].listing() is Some,
    ensures
        listed(probes).contains(probes[i].listing()->0),
    decreases probes.len(),
{
    let rest = probes.drop_last();
    let entry = probes[i].listing()->0;
    if i == probes.len() - 1 {
        let all = listed(probes);
        assert(all == listed(rest) + seq![entry]);
        assert(all[all.len() - 1] == entry);
    } else {
        assert(rest[i] == probes[i]);
        lemma_children_are_listed(rest, i);
        let j = choose|j: int| 0 <= j < listed(rest).len() && listed(rest)[j] == entry;
        assert(listed(probes)[j] == entry);
    }
}

/// A listing has exactly as many entries as there are children with an
/// entry: a child without one adds nothing, and none is listed twice.
pub proof fn lemma_listing_len(probes: Seq<ChildProbe>)
    ensures
        listed(probes).len() == probes.filter(|p: ChildProbe| p.listing() is Some).len(),
    decreases probes.len(),
{
    reveal(Seq::filter);
    if probes.len() > 0 {
        lemma_listing_len(probes.drop_last());
    }
}

/// The time of an entry is the floor of the child's modification time in
/// seconds: the whole seconds are what dividing the nanoseconds since the
/// epoch by the nanoseconds in a second gives.
pub proof fn lemma_mtime_is_floor(modified: ModifiedTime)
    requires
        modified.wf(),
        modified is SinceEpoch,
    ensures
        modified.whole_seconds()->0 == modified.nanos_since_epoch()->0 / (NANOS_PER_SEC as int),
{
}

} // verus!
