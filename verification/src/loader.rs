//! From the files of the start-up list to the sample library.

use vstd::prelude::*;
use crate::decode::{DecodeError, outcome_view};
use crate::library::{BuildError, Loaded, SampleLibrary};
use crate::pcm::PcmView;
use crate::session::{decode, decodes_to};

verus! {

/// One line of the start-up list: its note and the bytes of its file, or
/// `None` where the file could not be read.
pub struct SampleFile {
    pub note: u8,
    pub bytes: Option<Vec<u8>>,
}

/// Whether `outcome` is what loading `file` comes to: `Unreadable` without
/// its bytes, and else what decoding them comes to.
pub open spec fn loads_to<F>(
    file: SampleFile,
    convert: &F,
    outcome: Result<PcmView, DecodeError>,
) -> bool
    where
        F: Fn(symphonia::core::audio::AudioBufferRef<'_>) -> Vec<u32>,
{
    match file.bytes {
        Some(bytes) => decodes_to(bytes@, convert, outcome) && outcome != Err::<
            PcmView,
            DecodeError,
        >(DecodeError::Unreadable),
        None => outcome == Err::<PcmView, DecodeError>(DecodeError::Unreadable),
    }
}

/// Whether loading `file` gives a buffer.
pub open spec fn loads<F>(file: SampleFile, convert: &F) -> bool
    where
        F: Fn(symphonia::core::audio::AudioBufferRef<'_>) -> Vec<u32>,
{
    exists|buffer: PcmView| loads_to(file, convert, Ok::<PcmView, DecodeError>(buffer))
}

/// Decodes the files in list order and builds the library: one entry per
/// line, in list order, each with the buffer that [`decode`] made of its
/// file. The first file that could not be read or gives no buffer stops the
/// load: the files behind it are not decoded, and there is no library of the
/// others.
pub fn load_library<F>(files: Vec<SampleFile>, convert: &F) -> (r: Result<
    SampleLibrary,
    BuildError,
>)
    where
        F: Fn(symphonia::core::audio::AudioBufferRef<'_>) -> Vec<u32>,
    requires
        forall|audio: symphonia::core::audio::AudioBufferRef<'_>| call_requires(*convert, (audio,)),
    ensures
        match r {
            Ok(library) => {
                &&& library@.len() == files@.len()
                &&& forall|i: int|
                    0 <= i < files@.len() ==> (#[trigger] library@[i]).note == files@[i].note
                        && library@[i].buffer.wf() && loads_to(
                        files@[i],
                        convert,
                        Ok::<PcmView, DecodeError>(library@[i].buffer),
                    )
            },
            Err(e) => {
                &&& e.index < files@.len()
                &&& e.note == files@[e.index as int].note
                &&& loads_to(files@[e.index as int], convert, Err::<PcmView, DecodeError>(e.cause))
                &&& forall|j: int| 0 <= j < e.index ==> loads(#[trigger] files@[j], convert)
            },
        },
{
    let ghost all = files@;
    let mut loaded: Vec<Loaded> = Vec::new();
    let mut failed = false;
    for file in it: files
        invariant
            it.seq() == all,
            forall|audio: symphonia::core::audio::AudioBufferRef<'_>|
                call_requires(*convert, (audio,)),
            loaded@.len() <= it.index(),
            !failed ==> loaded@.len() == it.index(),
            failed ==> loaded@.len() > 0,
            forall|i: int|
                0 <= i < loaded@.len() ==> (#[trigger] loaded@[i]).note == all[i].note && loads_to(
                    all[i],
                    convert,
                    outcome_view(loaded@[i].decoded),
                ) && (loaded@[i].decoded matches Ok(buffer) ==> buffer@.wf()),
            forall|i: int|
                0 <= i < loaded@.len() ==> ((#[trigger] loaded@[i]).decoded is Err <==> failed
                    && i == loaded@.len() - 1),
    {
        if !failed {
            let decoded = match file.bytes {
                Some(bytes) => decode(bytes, convert),
                None => Err(DecodeError::Unreadable),
            };
            failed = decoded.is_err();
            loaded.push(Loaded { note: file.note, decoded });
        }
    }
    let ghost lines = loaded@.map_values(|l: Loaded| l@);
    let r = SampleLibrary::build(loaded);
    proof {
        match &r {
            Ok(library) => {
                assert(!failed) by {
                    if failed {
                        assert(lines[lines.len() - 1].decoded is Err);
                    }
                }
                assert forall|i: int| 0 <= i < all.len() implies (#[trigger] library@[i]).note
                    == all[i].note && library@[i].buffer.wf() && loads_to(
                    all[i],
                    convert,
                    Ok::<PcmView, DecodeError>(library@[i].buffer),
                ) by {
                    assert(lines[i].decoded is Ok);
                    assert(loaded@[i].decoded is Ok);
                    assert(lines[i] == loaded@[i]@);
                }
            },
            Err(e) => {
                assert(lines[e.index as int].decoded is Err);
                assert(loaded@[e.index as int].decoded is Err);
                assert(lines[e.index as int] == loaded@[e.index as int]@);
                assert forall|j: int| 0 <= j < e.index implies loads(#[trigger] all[j], convert) by {
                    assert(lines[j].decoded is Ok);
                    assert(loaded@[j].decoded is Ok);
                    assert(loads_to(all[j], convert, outcome_view(loaded@[j].decoded)));
                    assert(loads_to(
                        all[j],
                        convert,
                        Ok::<PcmView, DecodeError>(loaded@[j].decoded->Ok_0@),
                    ));
                }
            },
        }
    }
    r
}

} // verus!
