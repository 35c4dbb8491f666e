use dicom_archive::frames::{extract_frames_from_raw_pixel_data, FrameError};

fn abc_fragments() -> Vec<Vec<u8>> {
    vec![b"AAAA".to_vec(), b"BBBB".to_vec(), b"CCCC".to_vec()]
}

#[test]
fn offset_table_single_frame() {
    let frags = abc_fragments();
    let offsets: Vec<u32> = vec![0, 4, 8];
    let r = extract_frames_from_raw_pixel_data(&frags, &offsets, Some(1)).unwrap();
    assert_eq!(r, vec![b"BBBB".to_vec()]);
}

#[test]
fn offset_table_all_frames() {
    let frags = abc_fragments();
    let offsets: Vec<u32> = vec![0, 4, 8];
    let r = extract_frames_from_raw_pixel_data(&frags, &offsets, None).unwrap();
    assert_eq!(r, vec![b"AAAA".to_vec(), b"BBBB".to_vec(), b"CCCC".to_vec()]);
}

#[test]
fn offset_table_out_of_range_index() {
    let frags = abc_fragments();
    let offsets: Vec<u32> = vec![0, 4, 8];
    let r = extract_frames_from_raw_pixel_data(&frags, &offsets, Some(5));
    assert_eq!(r.unwrap_err(), FrameError::FrameNotFound);
}

#[test]
fn no_offset_table_single_fragment() {
    let frags = abc_fragments();
    let offsets: Vec<u32> = Vec::new();
    let r = extract_frames_from_raw_pixel_data(&frags, &offsets, Some(0)).unwrap();
    assert_eq!(r, vec![b"AAAA".to_vec()]);
}

#[test]
fn no_offset_table_all_fragments() {
    let frags = abc_fragments();
    let offsets: Vec<u32> = Vec::new();
    let r = extract_frames_from_raw_pixel_data(&frags, &offsets, None).unwrap();
    assert_eq!(r, abc_fragments());
}

#[test]
fn no_offset_table_index_beyond_fragments() {
    let frags = abc_fragments();
    let offsets: Vec<u32> = Vec::new();
    let r = extract_frames_from_raw_pixel_data(&frags, &offsets, Some(3));
    assert_eq!(r.unwrap_err(), FrameError::FrameNotFound);
}

#[test]
fn descending_offsets_are_an_invalid_range() {
    let frags = abc_fragments();
    let offsets: Vec<u32> = vec![8, 4];
    let r = extract_frames_from_raw_pixel_data(&frags, &offsets, Some(0));
    assert_eq!(r.unwrap_err(), FrameError::InvalidFrameRange);
}

#[test]
fn offset_beyond_buffer_is_an_invalid_range() {
    let frags = abc_fragments();
    let offsets: Vec<u32> = vec![0, 40];
    let r = extract_frames_from_raw_pixel_data(&frags, &offsets, None);
    assert_eq!(r.unwrap_err(), FrameError::InvalidFrameRange);
}

#[test]
fn single_fragment_with_offset_table() {
    let frags = vec![b"AAAABBBB".to_vec()];
    let offsets: Vec<u32> = vec![0, 4];
    let r = extract_frames_from_raw_pixel_data(&frags, &offsets, None).unwrap();
    assert_eq!(r, vec![b"AAAA".to_vec(), b"BBBB".to_vec()]);
}
