use grayscale::buffer::ImageBuf;
use grayscale::pixel::luminance;
use grayscale::transform::{
    convert_to_grayscale, convert_to_grayscale_par, convert_to_grayscale_par_chunks,
    gray_chunk_bytes, gray_pixel_bytes, transform, GrayscaleError, Strategy,
};

fn buf(width: u32, height: u32, data: Vec<u8>) -> ImageBuf {
    ImageBuf::try_new(width, height, data).expect("dimensions must match the data")
}

/// A small 2x2 test card: red, green, blue, white, with varied alphas.
fn two_by_two() -> ImageBuf {
    buf(
        2,
        2,
        vec![
            255, 0, 0, 255, //
            0, 255, 0, 200, //
            0, 0, 255, 50, //
            255, 255, 255, 0,
        ],
    )
}

/// A 3x3 test card whose pixel count 9 is not divisible by most chunk sizes.
fn three_by_three() -> ImageBuf {
    let mut data = Vec::new();
    for j in 0..9u8 {
        data.extend_from_slice(&[j * 20, 255 - j * 20, j * 7, 100 + j]);
    }
    buf(3, 3, data)
}

#[test]
fn luminance_exact_values() {
    assert_eq!(luminance(0, 0, 0), 0);
    assert_eq!(luminance(255, 0, 0), 76);
    assert_eq!(luminance(0, 255, 0), 149);
    assert_eq!(luminance(0, 0, 255), 29);
    assert_eq!(luminance(255, 255, 255), 255);
    assert_eq!(luminance(10, 20, 30), 18);
}

#[test]
fn sequential_two_by_two() {
    let img = two_by_two();
    let out = convert_to_grayscale(&img);
    assert_eq!(out.width, 2);
    assert_eq!(out.height, 2);
    assert_eq!(
        out.data,
        vec![
            76, 76, 76, 255, //
            149, 149, 149, 200, //
            29, 29, 29, 50, //
            255, 255, 255, 0,
        ]
    );
}

#[test]
fn per_pixel_matches_sequential() {
    let img = three_by_three();
    let seq_out = convert_to_grayscale(&img);
    let par_out = convert_to_grayscale_par(&img);
    assert_eq!(par_out.width, seq_out.width);
    assert_eq!(par_out.height, seq_out.height);
    assert_eq!(par_out.data, seq_out.data);
    // The parallel path must really transform, not hand the input back.
    assert_ne!(par_out.data, img.data);
}

#[test]
fn chunked_matches_sequential_for_every_valid_chunk_size() {
    let img = three_by_three();
    let seq_out = convert_to_grayscale(&img);
    for k in 1..=9usize {
        let out = convert_to_grayscale_par_chunks(&img, k).expect("valid chunk size");
        assert_eq!(out.width, seq_out.width);
        assert_eq!(out.height, seq_out.height);
        assert_eq!(out.data, seq_out.data);
    }
}

#[test]
fn chunked_handles_partial_final_chunk() {
    // 9 pixels with chunk size 2: four full chunks and one clipped chunk.
    let img = three_by_three();
    let seq_out = convert_to_grayscale(&img);
    let out = convert_to_grayscale_par_chunks(&img, 2).expect("valid chunk size");
    assert_eq!(out.data.len(), img.data.len());
    assert_eq!(out.data, seq_out.data);
}

#[test]
fn chunked_rejects_zero_chunk_size() {
    let img = two_by_two();
    let err = convert_to_grayscale_par_chunks(&img, 0).unwrap_err();
    assert_eq!(err, GrayscaleError::InvalidChunkSize);
}

#[test]
fn chunked_rejects_oversized_chunk_size() {
    let img = two_by_two();
    let err = convert_to_grayscale_par_chunks(&img, 5).unwrap_err();
    assert_eq!(err, GrayscaleError::InvalidChunkSize);
}

#[test]
fn alpha_preserved_by_every_strategy() {
    let img = three_by_three();
    let outputs = [
        convert_to_grayscale(&img),
        convert_to_grayscale_par(&img),
        convert_to_grayscale_par_chunks(&img, 4).expect("valid chunk size"),
    ];
    for out in outputs.iter() {
        for j in 0..9 {
            assert_eq!(out.data[4 * j + 3], img.data[4 * j + 3]);
        }
    }
}

#[test]
fn gray_channels_agree_in_output() {
    let img = three_by_three();
    let out = convert_to_grayscale(&img);
    for j in 0..9 {
        assert_eq!(out.data[4 * j], out.data[4 * j + 1]);
        assert_eq!(out.data[4 * j], out.data[4 * j + 2]);
    }
}

#[test]
fn converting_twice_changes_nothing() {
    let img = two_by_two();
    let once = convert_to_grayscale(&img);
    let twice = convert_to_grayscale(&once);
    assert_eq!(twice.data, once.data);
    assert_eq!(twice.width, once.width);
    assert_eq!(twice.height, once.height);
}

#[test]
fn dimensions_preserved_by_every_strategy() {
    let img = buf(4, 1, vec![9; 16]);
    let a = convert_to_grayscale(&img);
    let b = convert_to_grayscale_par(&img);
    let c = convert_to_grayscale_par_chunks(&img, 3).expect("valid chunk size");
    for out in [&a, &b, &c] {
        assert_eq!(out.width, 4);
        assert_eq!(out.height, 1);
        assert_eq!(out.data.len(), 16);
    }
}

#[test]
fn transform_dispatches_all_strategies() {
    let img = two_by_two();
    let seq_out = transform(&img, Strategy::Sequential).expect("sequential never fails");
    let px_out = transform(&img, Strategy::PerPixelParallel).expect("per-pixel never fails");
    let ch_out = transform(&img, Strategy::ChunkedParallel(3)).expect("valid chunk size");
    assert_eq!(px_out.data, seq_out.data);
    assert_eq!(ch_out.data, seq_out.data);
    let err = transform(&img, Strategy::ChunkedParallel(0)).unwrap_err();
    assert_eq!(err, GrayscaleError::InvalidChunkSize);
}

#[test]
fn empty_image_converts_to_empty_image() {
    let img = buf(0, 0, Vec::new());
    let out = convert_to_grayscale(&img);
    assert_eq!(out.data.len(), 0);
    let out_par = convert_to_grayscale_par(&img);
    assert_eq!(out_par.data.len(), 0);
    // No chunk size fits an image without pixels.
    let err = convert_to_grayscale_par_chunks(&img, 1).unwrap_err();
    assert_eq!(err, GrayscaleError::InvalidChunkSize);
}

#[test]
fn try_new_rejects_mismatched_length() {
    assert!(ImageBuf::try_new(2, 2, vec![0; 15]).is_none());
    assert!(ImageBuf::try_new(2, 2, vec![0; 17]).is_none());
    let img = ImageBuf::try_new(2, 2, vec![0; 16]).expect("matching length");
    assert_eq!(img.width, 2);
    assert_eq!(img.height, 2);
    assert_eq!(img.data.len(), 16);
}

#[test]
fn pixel_work_item_recovers_its_position() {
    let img = two_by_two();
    assert_eq!(gray_pixel_bytes(&img, 0), vec![76, 76, 76, 255]);
    assert_eq!(gray_pixel_bytes(&img, 1), vec![149, 149, 149, 200]);
    assert_eq!(gray_pixel_bytes(&img, 2), vec![29, 29, 29, 50]);
    assert_eq!(gray_pixel_bytes(&img, 3), vec![255, 255, 255, 0]);
}

#[test]
fn chunk_work_item_clips_the_last_chunk() {
    let img = two_by_two();
    // Chunks of 3 pixels over 4 pixels: a full chunk and a 1-pixel chunk.
    let first = gray_chunk_bytes(&img, 0, 3);
    let last = gray_chunk_bytes(&img, 1, 3);
    assert_eq!(first.len(), 12);
    assert_eq!(last, vec![255, 255, 255, 0]);
    let mut joined = first.clone();
    joined.extend_from_slice(&last);
    assert_eq!(joined, convert_to_grayscale(&img).data);
}

#[test]
fn single_pixel_image() {
    let img = buf(1, 1, vec![200, 100, 50, 7]);
    let out = convert_to_grayscale_par_chunks(&img, 1).expect("valid chunk size");
    // 0.299*200 + 0.587*100 + 0.114*50 = 124.2, truncated to 124.
    assert_eq!(out.data, vec![124, 124, 124, 7]);
}
