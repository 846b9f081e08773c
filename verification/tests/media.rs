use crackhead::foundation::FileSystem;
use crackhead::photos::{
    ensure_photos_selected, find_photo_dir, is_photo_file, photo_id, pick_new_photos, refresh_photos_feed,
};
use crackhead::riff::{
    align_audio_offset, audio_format, avi_part_name, recording_parts, avi_header_bytes, avi_index_bytes, chunk_header_bytes, read_wav, split_parts,
    wav_header_bytes, MAX_AVI_VIDEO_BYTES,
};

fn le32(b: &[u8], at: usize) -> u32 {
    u32::from_le_bytes([b[at], b[at + 1], b[at + 2], b[at + 3]])
}

#[test]
fn wav_header_layout() {
    let h = wav_header_bytes(2, 48000, 32, true, 100);
    assert_eq!(h.len(), 44);
    assert_eq!(&h[0..4], b"RIFF");
    assert_eq!(le32(&h, 4), 136);
    assert_eq!(&h[8..16], b"WAVEfmt ");
    assert_eq!(le32(&h, 16), 16);
    assert_eq!(u16::from_le_bytes([h[20], h[21]]), 3);
    assert_eq!(u16::from_le_bytes([h[22], h[23]]), 2);
    assert_eq!(le32(&h, 24), 48000);
    assert_eq!(le32(&h, 28), 384000);
    assert_eq!(u16::from_le_bytes([h[32], h[33]]), 8);
    assert_eq!(u16::from_le_bytes([h[34], h[35]]), 32);
    assert_eq!(&h[36..40], b"data");
    assert_eq!(le32(&h, 40), 100);
    let pcm = wav_header_bytes(1, 44100, 16, false, 0);
    assert_eq!(u16::from_le_bytes([pcm[20], pcm[21]]), 1);
}

#[test]
fn wav_roundtrip() {
    let data: Vec<u8> = (0..11u8).collect();
    let mut file = wav_header_bytes(2, 44100, 16, false, data.len() as u32);
    file.extend_from_slice(&data);
    assert_eq!(read_wav(&file), Some((2, 44100, 16, data)));
}

#[test]
fn read_wav_rejects_other_files() {
    assert_eq!(read_wav(&b"RIFF0000AVI ".to_vec()), None);
    assert_eq!(read_wav(&b"RIFF".to_vec()), None);
    // a bare RIFF WAVE header gives the empty format
    assert_eq!(read_wav(&b"RIFF\0\0\0\0WAVE".to_vec()), Some((0, 0, 0, vec![])));
}

#[test]
fn read_wav_skips_unknown_chunks_and_cuts_data() {
    let mut file = b"RIFF\0\0\0\0WAVE".to_vec();
    file.extend_from_slice(b"LIST");
    file.extend_from_slice(&3u32.to_le_bytes());
    file.extend_from_slice(&[1, 2, 3, 0]);
    file.extend_from_slice(b"data");
    file.extend_from_slice(&100u32.to_le_bytes());
    file.extend_from_slice(&[9, 8, 7]);
    assert_eq!(read_wav(&file), Some((0, 0, 0, vec![9, 8, 7])));
}

#[test]
fn parts_split_at_the_limit() {
    let big = (MAX_AVI_VIDEO_BYTES / 2) as u32;
    let sizes = vec![big, big, 10, big];
    assert_eq!(split_parts(&sizes), vec![(0, 1), (1, 3), (3, 4)]);
    assert_eq!(split_parts(&vec![1, 2, 3]), vec![(0, 3)]);
    assert_eq!(split_parts(&vec![]), vec![(0, 0)]);
    assert_eq!(split_parts(&vec![u32::MAX, u32::MAX]), vec![(0, 1), (1, 2)]);
}

#[test]
fn audio_offsets_align() {
    assert_eq!(align_audio_offset(1001, 5000, 8), 1000);
    assert_eq!(align_audio_offset(9000, 5003, 4), 5000);
    assert_eq!(align_audio_offset(7, 100, 1), 7);
}

#[test]
fn audio_format_values() {
    let f = audio_format(2, 48000, 32);
    assert_eq!((f.block_align, f.avg_bytes_per_sec, f.is_float), (8, 384000, true));
    let g = audio_format(0, 8000, 16);
    assert_eq!((g.block_align, g.avg_bytes_per_sec, g.is_float), (1, 8000, false));
}

#[test]
fn avi_file_is_consistent() {
    let sizes = vec![5u32, 6];
    let audio_len = 3u32;
    let fmt = audio_format(2, 48000, 16);
    let header = avi_header_bytes(&sizes, audio_len, 30, &fmt, 1280, 960);
    assert_eq!(header.len(), 342);
    assert_eq!(&header[0..4], b"RIFF");
    assert_eq!(&header[8..12], b"AVI ");
    assert_eq!(&header[12..16], b"LIST");
    assert_eq!(le32(&header, 16), 310);
    assert_eq!(&header[20..28], b"hdrlavih");
    assert_eq!(le32(&header, 32), 1_000_000 / 30);
    assert_eq!(le32(&header, 48), 2);
    assert_eq!(le32(&header, 60), 6);
    assert_eq!(&header[header.len() - 4..], b"movi");
    let movi = le32(&header, header.len() - 8);
    // frames: (8+5+1) + (8+6); audio: 8+3+1
    assert_eq!(movi, 4 + 14 + 14 + 12);
    let index = avi_index_bytes(&sizes, audio_len);
    assert_eq!(index.len(), 8 + 3 * 16);
    assert_eq!(&index[0..4], b"idx1");
    assert_eq!(le32(&index, 4), 48);
    assert_eq!(&index[8..12], b"00dc");
    assert_eq!(le32(&index, 12), 0x10);
    assert_eq!(le32(&index, 16), 0);
    assert_eq!(le32(&index, 20), 5);
    assert_eq!(le32(&index, 32), 14);
    assert_eq!(&index[40..44], b"01wb");
    assert_eq!(le32(&index, 48), 28);
    assert_eq!(le32(&index, 52), 3);
    let total = header.len() as u32 + 14 + 14 + 12 + index.len() as u32;
    assert_eq!(le32(&header, 4), total - 8);
    // the picture is stored top-down: a negative height in the bitmap header
    let strf_v = header.windows(4).position(|w| w == b"strf").unwrap();
    assert_eq!(le32(&header, strf_v + 16) as i32, -960);
}

#[test]
fn avi_without_audio() {
    let sizes = vec![4u32];
    let fmt = audio_format(2, 48000, 32);
    let header = avi_header_bytes(&sizes, 0, 0, &fmt, 640, 480);
    assert_eq!(le32(&header, 32), 1_000_000);
    let index = avi_index_bytes(&sizes, 0);
    assert_eq!(index.len(), 24);
    assert_eq!(le32(&header, 4), 342 + 12 + 24 - 8);
    assert_eq!(chunk_header_bytes(false, 4), b"00dc\x04\0\0\0".to_vec());
    assert_eq!(chunk_header_bytes(true, 258), b"01wb\x02\x01\0\0".to_vec());
}

#[test]
fn photo_names() {
    assert!(is_photo_file("a.JPG"));
    assert!(is_photo_file("b.jpeg"));
    assert!(is_photo_file("c.Png"));
    assert!(!is_photo_file(".png"));
    assert!(!is_photo_file("d.gif"));
    assert!(!is_photo_file("png"));
    assert_eq!(photo_id(Some("hintImage"), "h.jpg"), "hintImage/h.jpg");
    assert_eq!(photo_id(None, "h.jpg"), "h.jpg");
    assert_eq!(find_photo_dir(&vec![false, true, true]), Some(1));
    assert_eq!(find_photo_dir(&vec![false]), None);
}

#[test]
fn picked_photos_are_fresh_and_at_most_ten() {
    let entries: Vec<String> = (0..15).map(|i| format!("p{i}.jpg")).collect();
    let exclude = vec!["p0.jpg".to_string(), "p1.jpg".to_string()];
    let picked = pick_new_photos(entries.clone(), &exclude, 42);
    assert_eq!(picked.len(), 10);
    for p in &picked {
        assert!(entries.contains(p));
        assert!(!exclude.contains(p));
    }
    let mut sorted = picked.clone();
    sorted.sort();
    sorted.dedup();
    assert_eq!(sorted.len(), 10);
    // the same seed picks the same photos
    assert_eq!(pick_new_photos(entries.clone(), &exclude, 42), picked);
    assert_eq!(pick_new_photos(vec!["a.jpg".to_string()], &vec![], 0), vec!["a.jpg".to_string()]);
}

#[test]
fn feed_keeps_and_refreshes() {
    let entries: Vec<String> = (0..4).map(|i| format!("p{i}.jpg")).collect();
    let mut fs = FileSystem::new();
    ensure_photos_selected(&mut fs, entries.clone(), 7);
    let first = fs.current_photos().clone();
    assert_eq!(first.len(), 4);
    ensure_photos_selected(&mut fs, entries.clone(), 99);
    assert_eq!(fs.current_photos(), &first);
    refresh_photos_feed(&mut fs, entries.clone(), 3);
    // every photo was seen already
    assert!(fs.current_photos().is_empty());
    assert_eq!(fs.seen_photos().len(), 4);
}

#[test]
fn frames_are_flipped_and_alpha_dropped() {
    let px: Vec<u8> = (1..=16).collect();
    let rgb = crackhead::frames::upright_rgb_frame(2, 2, &px);
    assert_eq!(rgb, vec![9, 10, 11, 13, 14, 15, 1, 2, 3, 5, 6, 7]);
    assert!(crackhead::frames::upright_rgb_frame(0, 5, &vec![]).is_empty());
}

#[test]
fn frames_encode_as_jpeg() {
    let px: Vec<u8> = (0..(8 * 8 * 4)).map(|i| (i % 251) as u8).collect();
    let jpeg = crackhead::frames::encode_frame(8, 8, &px).expect("an 8x8 frame encodes");
    assert_eq!(&jpeg[0..2], &[0xFF, 0xD8]);
    assert_eq!(&jpeg[jpeg.len() - 2..], &[0xFF, 0xD9]);
    assert_eq!(
        crackhead::frames::encode_frame(0, 0, &vec![]),
        Err(crackhead::frames::FrameError::Encode)
    );
}

#[test]
fn recording_part_names() {
    assert_eq!(avi_part_name(1, 0), "output.avi");
    assert_eq!(avi_part_name(3, 0), "output_001.avi");
    assert_eq!(avi_part_name(200, 99), "output_100.avi");
    assert_eq!(avi_part_name(2000, 1234), "output_1235.avi");
    assert!(recording_parts(&vec![]).is_empty());
    assert_eq!(recording_parts(&vec![1, 2]), vec![(0, 2)]);
}
