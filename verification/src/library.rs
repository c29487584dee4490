//! The sample library: which buffer a note plays.
//!
//! The library is built once, from the outcome of decoding every file of the
//! start-up list, and is never changed afterwards. Where two entries carry the
//! same note the earlier one wins: a lookup returns the first match in list
//! order, and the later entry is kept but never played.

use vstd::prelude::*;
use crate::decode::DecodeError;
use crate::pcm::{PcmBuffer, PcmView};

verus! {

/// One sample: the note that triggers it and its buffer.
pub struct SampleEntry {
    pub note: u8,
    pub buffer: PcmBuffer,
}

/// What a [`SampleEntry`] holds.
pub struct EntryView {
    pub note: u8,
    pub buffer: PcmView,
}

impl View for SampleEntry {
    type V = EntryView;

    open spec fn view(&self) -> EntryView {
        EntryView { note: self.note, buffer: self.buffer@ }
    }
}

/// One line of the start-up list after its file was decoded.
pub struct Loaded {
    pub note: u8,
    pub decoded: Result<PcmBuffer, DecodeError>,
}

/// What a [`Loaded`] holds.
pub struct LoadedView {
    pub note: u8,
    pub decoded: Result<PcmView, DecodeError>,
}

impl View for Loaded {
    type V = LoadedView;

    open spec fn view(&self) -> LoadedView {
        LoadedView {
            note: self.note,
            decoded: match self.decoded {
                Ok(buffer) => Ok(buffer@),
                Err(e) => Err(e),
            },
        }
    }
}

/// The entry that stopped a build: its place in the list, its note, and why
/// its file gave no buffer.
#[derive(Clone, Copy, Debug, PartialEq, Eq, Structural)]
pub struct BuildError {
    pub index: usize,
    pub note: u8,
    pub cause: DecodeError,
}

/// Whether `i` is the first entry of `entries` that carries `note`.
pub open spec fn is_first_match(entries: Seq<EntryView>, note: u8, i: int) -> bool {
    &&& 0 <= i < entries.len()
    &&& entries[i].note == note
    &&& forall|j: int| 0 <= j < i ==> (#[trigger] entries[j]).note != note
}

/// The buffer that `note` plays: that of the first entry carrying it.
pub open spec fn lookup(entries: Seq<EntryView>, note: u8) -> Option<PcmView> {
    if exists|i: int| is_first_match(entries, note, i) {
        Some(entries[choose|i: int| is_first_match(entries, note, i)].buffer)
    } else {
        None
    }
}

/// Whether `i` is the first line of `loaded` whose file gave no buffer.
pub open spec fn is_first_failure(loaded: Seq<LoadedView>, i: int) -> bool {
    &&& 0 <= i < loaded.len()
    &&& loaded[i].decoded is Err
    &&& forall|j: int| 0 <= j < i ==> (#[trigger] loaded[j]).decoded is Ok
}

/// What building from `loaded` must give. With every file decoded, the
/// library holds one entry per line, in list order. Otherwise the build
/// fails on the first line whose file gave no buffer: there is no library of
/// the remaining lines.
pub open spec fn is_build_of(
    result: Result<Seq<EntryView>, BuildError>,
    loaded: Seq<LoadedView>,
) -> bool {
    match result {
        Ok(entries) => {
            &&& entries.len() == loaded.len()
            &&& forall|i: int|
                0 <= i < loaded.len() ==> (#[trigger] loaded[i]).decoded == Ok::<
                    PcmView,
                    DecodeError,
                >(entries[i].buffer) && entries[i].note == loaded[i].note
        },
        Err(e) => {
            &&& is_first_failure(loaded, e.index as int)
            &&& loaded[e.index as int].note == e.note
            &&& loaded[e.index as int].decoded == Err::<PcmView, DecodeError>(e.cause)
        },
    }
}

/// The immutable mapping from notes to buffers.
pub struct SampleLibrary {
    entries: Vec<SampleEntry>,
}

impl View for SampleLibrary {
    type V = Seq<EntryView>;

    closed spec fn view(&self) -> Seq<EntryView> {
        self.entries@.map_values(|e: SampleEntry| e@)
    }
}

impl SampleLibrary {
    /// Builds the library, or names the first line that stops it.
    pub fn build(loaded: Vec<Loaded>) -> (r: Result<SampleLibrary, BuildError>)
        ensures
            is_build_of(
                match r {
                    Ok(library) => Ok(library@),
                    Err(e) => Err(e),
                },
                loaded@.map_values(|l: Loaded| l@),
            ),
    {
        let ghost all = loaded@.map_values(|l: Loaded| l@);
        let mut entries: Vec<SampleEntry> = Vec::new();
        for line in it: loaded
            invariant
                it.seq().map_values(|l: Loaded| l@) == all,
                entries@.len() == it.index(),
                forall|i: int|
                    0 <= i < entries@.len() ==> (#[trigger] all[i]).decoded == Ok::<
                        PcmView,
                        DecodeError,
                    >(entries@[i]@.buffer) && entries@[i]@.note == all[i].note,
        {
            assert(all[it.index()] == line@);
            match line.decoded {
                Ok(buffer) => {
                    entries.push(SampleEntry { note: line.note, buffer });
                },
                Err(cause) => {
                    return Err(BuildError { index: entries.len(), note: line.note, cause });
                },
            }
        }
        let library = SampleLibrary { entries };
        assert(library@.len() == all.len());
        Ok(library)
    }

    /// The number of entries, those that share a note with an earlier one
    /// included.
    pub fn len(&self) -> (n: usize)
        ensures
            n == self@.len(),
    {
        self.entries.len()
    }

    pub fn is_empty(&self) -> (empty: bool)
        ensures
            empty == (self@.len() == 0),
    {
        self.entries.len() == 0
    }

    /// The buffer that `note` plays, if any.
    pub fn find(&self, note: u8) -> (r: Option<&PcmBuffer>)
        ensures
            match r {
                Some(buffer) => lookup(self@, note) == Some(buffer@) && buffer@.wf(),
                None => lookup(self@, note) is None,
            },
    {
        let n: usize = self.entries.len();
        let mut i: usize = 0;
        while i < n
            invariant
                n == self.entries@.len(),
                i <= n,
                forall|j: int| 0 <= j < i ==> (#[trigger] self@[j]).note != note,
            decreases n - i,
        {
            if self.entries[i].note == note {
                let buffer = &self.entries[i].buffer;
                proof {
                    assert(is_first_match(self@, note, i as int));
                    lemma_first_match_unique(
                        self@,
                        note,
                        i as int,
                        choose|k: int| is_first_match(self@, note, k),
                    );
                }
                let _ = buffer.len();
                return Some(buffer);
            }
            i = i + 1;
        }
        proof {
            assert forall|k: int| !is_first_match(self@, note, k) by {
                if 0 <= k < self@.len() {
                    assert(self@[k].note != note);
                }
            }
        }
        None
    }
}

/// A note has at most one first match.
pub proof fn lemma_first_match_unique(entries: Seq<EntryView>, note: u8, i: int, k: int)
    requires
        is_first_match(entries, note, i),
        is_first_match(entries, note, k),
    ensures
        i == k,
{
    if i < k {
        assert(entries[i].note != note);
    } else if k < i {
        assert(entries[k].note != note);
    }
}

/// A lookup gives `Some` exactly for the notes that an entry carries, and
/// then the buffer of the first such entry.
pub proof fn law_lookup_is_first_match(entries: Seq<EntryView>, note: u8)
    ensures
        lookup(entries, note) is Some <==> exists|i: int|
            0 <= i < entries.len() && (#[trigger] entries[i]).note == note,
        forall|i: int|
            is_first_match(entries, note, i) ==> lookup(entries, note) == Some(entries[i].buffer),
{
    assert forall|i: int| is_first_match(entries, note, i) implies lookup(entries, note) == Some(
        entries[i].buffer,
    ) by {
        lemma_first_match_unique(entries, note, i, choose|k: int| is_first_match(entries, note, k));
    }
    if exists|i: int| 0 <= i < entries.len() && (#[trigger] entries[i]).note == note {
        let i = choose|i: int| 0 <= i < entries.len() && (#[trigger] entries[i]).note == note;
        lemma_first_match_exists(entries, note, i);
    }
}

/// Where some entry up to `i` carries `note`, a first one does.
pub proof fn lemma_first_match_exists(entries: Seq<EntryView>, note: u8, i: int)
    requires
        0 <= i < entries.len(),
        entries[i].note == note,
    ensures
        exists|k: int| is_first_match(entries, note, k),
    decreases i,
{
    if exists|j: int| 0 <= j < i && (#[trigger] entries[j]).note == note {
        let j = choose|j: int| 0 <= j < i && (#[trigger] entries[j]).note == note;
        lemma_first_match_exists(entries, note, j);
    } else {
        assert(is_first_match(entries, note, i));
    }
}

/// Building is repeatable: the start-up list fixes the outcome, so two
/// libraries built from the same list answer every lookup alike.
pub proof fn law_build_is_repeatable(
    first: Result<Seq<EntryView>, BuildError>,
    second: Result<Seq<EntryView>, BuildError>,
    loaded: Seq<LoadedView>,
)
    requires
        is_build_of(first, loaded),
        is_build_of(second, loaded),
    ensures
        first == second,
        first matches Ok(a) ==> second matches Ok(b) && forall|note: u8|
            lookup(a, note) == lookup(b, note),
{
    match (first, second) {
        (Ok(a), Ok(b)) => {
            assert forall|i: int| 0 <= i < a.len() implies a[i] == b[i] by {
                assert(loaded[i].decoded == Ok::<PcmView, DecodeError>(a[i].buffer));
                assert(loaded[i].decoded == Ok::<PcmView, DecodeError>(b[i].buffer));
            }
            assert(a =~= b);
        },
        (Ok(a), Err(e)) => {
            assert(loaded[e.index as int].decoded is Err);
        },
        (Err(e), Ok(b)) => {
            assert(loaded[e.index as int].decoded is Err);
        },
        (Err(e), Err(f)) => {
            if e.index < f.index {
                assert(loaded[e.index as int].decoded is Ok);
            } else if f.index < e.index {
                assert(loaded[f.index as int].decoded is Ok);
            }
        },
    }
}

} // verus!
