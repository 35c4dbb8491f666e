//! Extraction of individual frames from encapsulated (fragmented) pixel data.
//!
//! Encapsulated pixel data arrives as a sequence of byte fragments together
//! with an offset table. When the table is non-empty, the fragments form one
//! contiguous buffer and entry `i` of the table gives the byte offset where
//! frame `i` starts; the frame ends where the next one starts, or at the end
//! of the buffer for the last entry. When the table is empty, the fragments
//! themselves are the frames, one fragment per frame.

use vstd::prelude::*;

verus! {

/// Failure of a frame-extraction request.
#[derive(Clone, Copy, Debug, PartialEq, Eq, Structural)]
pub enum FrameError {
    /// The requested frame index is beyond the offset table (or, without a
    /// table, beyond the fragment list).
    FrameNotFound,
    /// An offset-table entry produces a byte range that does not fit the
    /// concatenated fragment buffer.
    InvalidFrameRange,
}

/// The concatenation of all fragments, in order.
pub open spec fn concat_fragments(frags: Seq<Seq<u8>>) -> Seq<u8>
    decreases frags.len(),
{
    if frags.len() == 0 {
        Seq::empty()
    } else {
        concat_fragments(frags.drop_last()) + frags.last()
    }
}

/// Where frame `i` of the offset table starts in the concatenated buffer.
pub open spec fn frame_start(offsets: Seq<u32>, i: int) -> int {
    offsets[i] as int
}

/// Where frame `i` of the offset table ends: at the next offset, or at the
/// end of the buffer for the last table entry.
pub open spec fn frame_end(offsets: Seq<u32>, i: int, total: int) -> int {
    if i + 1 < offsets.len() {
        offsets[i + 1] as int
    } else {
        total
    }
}

/// Whether entry `i` of the offset table yields a byte range that fits a
/// buffer of length `total`.
pub open spec fn frame_range_valid(offsets: Seq<u32>, i: int, total: int) -> bool {
    frame_start(offsets, i) <= frame_end(offsets, i, total) <= total
}

/// The bytes of frame `i` per the offset table.
pub open spec fn frame_bytes(offsets: Seq<u32>, i: int, data: Seq<u8>) -> Seq<u8> {
    data.subrange(frame_start(offsets, i), frame_end(offsets, i, data.len() as int))
}

/// What frame extraction returns: the requested frame, or every frame in
/// table order; without an offset table, fragments stand for frames.
pub open spec fn extract_frames_result(
    frags: Seq<Seq<u8>>,
    offsets: Seq<u32>,
    index: Option<usize>,
) -> Result<Seq<Seq<u8>>, FrameError> {
    let data = concat_fragments(frags);
    match index {
        Some(i) => {
            if offsets.len() > 0 {
                if i >= offsets.len() {
                    Err(FrameError::FrameNotFound)
                } else if frame_range_valid(offsets, i as int, data.len() as int) {
                    Ok(seq![frame_bytes(offsets, i as int, data)])
                } else {
                    Err(FrameError::InvalidFrameRange)
                }
            } else {
                if i < frags.len() {
                    Ok(seq![frags[i as int]])
                } else {
                    Err(FrameError::FrameNotFound)
                }
            }
        },
        None => {
            if offsets.len() > 0 {
                if forall|i: int|
                    0 <= i < offsets.len() ==> frame_range_valid(offsets, i, data.len() as int) {
                    Ok(Seq::new(offsets.len(), |i: int| frame_bytes(offsets, i, data)))
                } else {
                    Err(FrameError::InvalidFrameRange)
                }
            } else {
                Ok(frags)
            }
        },
    }
}

proof fn lemma_nested_deep_view(v: &Vec<Vec<u8>>)
    ensures
        v.deep_view().len() == v@.len(),
        forall|k: int| 0 <= k < v@.len() ==> #[trigger] v.deep_view()[k] == v@[k]@,
{
    assert forall|k: int| 0 <= k < v@.len() implies #[trigger] v.deep_view()[k] == v@[k]@ by {
        assert(v@[k].deep_view() =~= v@[k]@);
    }
}

/// Concatenate all fragments into one contiguous buffer.
fn concat_all(fragments: &Vec<Vec<u8>>) -> (r: Vec<u8>)
    ensures
        r@ == concat_fragments(fragments.deep_view()),
{
    let mut full: Vec<u8> = Vec::new();
    let ghost all = fragments.deep_view();
    let mut i: usize = 0;
    while i < fragments.len()
        invariant
            i <= fragments.len(),
            all == fragments.deep_view(),
            all.len() == fragments.len(),
            forall|k: int| 0 <= k < all.len() ==> all[k] == #[trigger] fragments[k]@,
            full@ == concat_fragments(all.take(i as int)),
        decreases fragments.len() - i,
    {
        let frag = &fragments[i];
        let mut j: usize = 0;
        while j < frag.len()
            invariant
                j <= frag.len(),
                full@ == concat_fragments(all.take(i as int)) + frag@.take(j as int),
            decreases frag.len() - j,
        {
            full.push(frag[j]);
            assert(frag@.take(j + 1 as int) == frag@.take(j as int).push(frag@[j as int]));
            j += 1;
        }
        proof {
            assert(frag@.take(frag@.len() as int) == frag@);
            assert(all.take(i + 1 as int).drop_last() == all.take(i as int));
            assert(all.take(i + 1 as int).last() == all[i as int]);
        }
        i += 1;
    }
    proof {
        assert(all.take(all.len() as int) == all);
    }
    full
}

/// Copy the byte range `[start, end)` out of `data`.
fn copy_range(data: &Vec<u8>, start: usize, end: usize) -> (r: Vec<u8>)
    requires
        start <= end <= data@.len(),
    ensures
        r@ == data@.subrange(start as int, end as int),
{
    let mut out: Vec<u8> = Vec::new();
    let mut k: usize = start;
    while k < end
        invariant
            start <= k <= end <= data@.len(),
            out@ == data@.subrange(start as int, k as int),
        decreases end - k,
    {
        out.push(data[k]);
        assert(data@.subrange(start as int, k + 1 as int) == data@.subrange(
            start as int,
            k as int,
        ).push(data@[k as int]));
        k += 1;
    }
    out
}

/// Extract frames from encapsulated pixel data.
///
/// With a non-empty offset table, the fragments are concatenated and each
/// table entry addresses one frame; a requested index returns exactly that
/// slice, no index returns every frame in table order. With an empty table
/// the fragments are taken frame-aligned: an index selects that fragment,
/// no index returns all fragments unchanged. An index beyond the table (or
/// fragment list) fails with `FrameNotFound`; a table entry whose byte range
/// does not fit the buffer fails with `InvalidFrameRange`.
pub fn extract_frames_from_raw_pixel_data(
    fragments: &Vec<Vec<u8>>,
    offset_table: &Vec<u32>,
    frame_index: Option<usize>,
) -> (r: Result<Vec<Vec<u8>>, FrameError>)
    ensures
        match r {
            Ok(frames) => extract_frames_result(
                fragments.deep_view(),
                offset_table@,
                frame_index,
            ) == Ok::<_, FrameError>(frames.deep_view()),
            Err(e) => extract_frames_result(fragments.deep_view(), offset_table@, frame_index)
                == Err::<Seq<Seq<u8>>, _>(e),
        },
{
    let ghost all = fragments.deep_view();
    let full = concat_all(fragments);
    match frame_index {
        Some(index) => {
            if offset_table.len() > 0 {
                if index >= offset_table.len() {
                    return Err(FrameError::FrameNotFound);
                }
                let start = offset_table[index] as usize;
                let end = if index + 1 < offset_table.len() {
                    offset_table[index + 1] as usize
                } else {
                    full.len()
                };
                if start <= end && end <= full.len() {
                    let slice = copy_range(&full, start, end);
                    let mut frames: Vec<Vec<u8>> = Vec::new();
                    frames.push(slice);
                    proof {
                        lemma_nested_deep_view(&frames);
                        assert(frames.deep_view() =~= seq![
                            frame_bytes(offset_table@, index as int, full@),
                        ]);
                    }
                    Ok(frames)
                } else {
                    Err(FrameError::InvalidFrameRange)
                }
            } else {
                if index < fragments.len() {
                    let src = &fragments[index];
                    let frame = copy_range(src, 0, src.len());
                    proof {
                        assert(frame@ =~= all[index as int]);
                    }
                    let mut frames: Vec<Vec<u8>> = Vec::new();
                    frames.push(frame);
                    proof {
                        lemma_nested_deep_view(&frames);
                        assert(frames.deep_view() =~= seq![all[index as int]]);
                    }
                    Ok(frames)
                } else {
                    Err(FrameError::FrameNotFound)
                }
            }
        },
        None => {
            if offset_table.len() > 0 {
                let mut frames: Vec<Vec<u8>> = Vec::new();
                let mut idx: usize = 0;
                while idx < offset_table.len()
                    invariant
                        idx <= offset_table@.len(),
                        all == fragments.deep_view(),
                        frame_index is None,
                        full@ == concat_fragments(all),
                        frames@.len() == idx,
                        forall|k: int|
                            0 <= k < idx ==> frame_range_valid(offset_table@, k, full@.len() as int),
                        forall|k: int|
                            0 <= k < idx ==> #[trigger] frames@[k]@ == frame_bytes(
                                offset_table@,
                                k,
                                full@,
                            ),
                    decreases offset_table@.len() - idx,
                {
                    let start = offset_table[idx] as usize;
                    let end = if idx + 1 < offset_table.len() {
                        offset_table[idx + 1] as usize
                    } else {
                        full.len()
                    };
                    if !(start <= end && end <= full.len()) {
                        proof {
                            assert(!frame_range_valid(offset_table@, idx as int, full@.len() as int));
                        }
                        return Err(FrameError::InvalidFrameRange);
                    }
                    let slice = copy_range(&full, start, end);
                    frames.push(slice);
                    idx += 1;
                }
                proof {
                    lemma_nested_deep_view(&frames);
                    assert(frames.deep_view() =~= Seq::new(
                        offset_table@.len(),
                        |k: int| frame_bytes(offset_table@, k, full@),
                    ));
                }
                Ok(frames)
            } else {
                let mut frames: Vec<Vec<u8>> = Vec::new();
                let mut idx: usize = 0;
                while idx < fragments.len()
                    invariant
                        idx <= fragments@.len(),
                        all == fragments.deep_view(),
                        all.len() == fragments@.len(),
                        frames@.len() == idx,
                        forall|k: int| 0 <= k < idx ==> #[trigger] frames@[k]@ == all[k],
                    decreases fragments@.len() - idx,
                {
                    let src = &fragments[idx];
                    let frame = copy_range(src, 0, src.len());
                    proof {
                        assert(frame@ =~= all[idx as int]);
                    }
                    frames.push(frame);
                    idx += 1;
                }
                proof {
                    lemma_nested_deep_view(&frames);
                    assert(frames.deep_view() =~= all);
                }
                Ok(frames)
            }
        },
    }
}

} // verus!
