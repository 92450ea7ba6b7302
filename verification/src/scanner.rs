//! The directory scanner: which entry of a listing was modified last.
use vstd::prelude::*;

verus! {

/// One entry of a directory listing: its name, and how long before the scan
/// it was last modified.
#[derive(Clone, Debug, PartialEq, Eq)]
pub struct FileEntry {
    pub name: String,
    pub age_secs: u64,
}

/// Whether entry `i` is the most recently modified one, and the first such
/// entry of the listing if several share that age.
pub open spec fn is_first_youngest(entries: Seq<FileEntry>, i: int) -> bool {
    &&& 0 <= i < entries.len()
    &&& forall|j: int|
        0 <= j < entries.len() ==> entries[i].age_secs <= (#[trigger] entries[j]).age_secs
    &&& forall|j: int| 0 <= j < i ==> entries[i].age_secs < (#[trigger] entries[j]).age_secs
}

/// The index of the entry to read: the first youngest one, or `None` for an
/// empty listing.
pub open spec fn latest(entries: Seq<FileEntry>) -> Option<int> {
    if entries.len() == 0 {
        None
    } else {
        Some(choose|i: int| is_first_youngest(entries, i))
    }
}

/// At most one entry is the first youngest.
pub proof fn lemma_first_youngest_unique(entries: Seq<FileEntry>, i: int, j: int)
    requires
        is_first_youngest(entries, i),
        is_first_youngest(entries, j),
    ensures
        i == j,
{
    if i < j {
        assert(entries[j].age_secs < entries[i].age_secs);
    } else if j < i {
        assert(entries[i].age_secs < entries[j].age_secs);
    }
}

/// Selects the most recently modified entry of a listing. Entries of equal
/// age are ranked in listing order. An empty listing selects nothing.
pub fn select_latest(entries: &[FileEntry]) -> (selected: Option<usize>)
    ensures
        match selected {
            Some(i) => is_first_youngest(entries@, i as int) && latest(entries@) == Some(i as int),
            None => entries@.len() == 0 && latest(entries@) is None,
        },
{
    if entries.len() == 0 {
        return None;
    }
    let mut best: usize = 0;
    let mut i: usize = 1;
    while i < entries.len()
        invariant
            0 <= best < i <= entries@.len(),
            forall|j: int|
                0 <= j < i ==> entries@[best as int].age_secs <= (#[trigger] entries@[j]).age_secs,
            forall|j: int|
                0 <= j < best ==> entries@[best as int].age_secs < (
                #[trigger] entries@[j]).age_secs,
        decreases entries@.len() - i,
    {
        if entries[i].age_secs < entries[best].age_secs {
            best = i;
        }
        i += 1;
    }
    proof {
        let chosen = choose|k: int| is_first_youngest(entries@, k);
        lemma_first_youngest_unique(entries@, best as int, chosen);
    }
    Some(best)
}

} // verus!
