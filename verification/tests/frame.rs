//! Tests for segmentation, reassembly and decoded-frame plane access.

use serialwarp::frame::{
    pack_plane, pack_yuv420p, DecodedFrame, EncodedFrame, FrameMetadata, FrameReassembler,
};
use serialwarp::protocol::FrameHeader;

fn header_of(segment: &serialwarp::frame::FrameSegment) -> FrameHeader {
    FrameHeader::new(
        segment.metadata.frame_number,
        segment.metadata.pts_us,
        segment.metadata.capture_ts_us,
        segment.frame_size,
        segment.segment_index,
        segment.segment_count,
    )
}

#[test]
fn test_single_segment() {
    let metadata = FrameMetadata::new(1, 1000, 1000, true);
    let data = vec![0u8; 1024]; // Small frame, single segment
    let frame = EncodedFrame::new(metadata, data);

    let segments = frame.into_segments();
    assert_eq!(segments.len(), 1);
    assert_eq!(segments[0].segment_index, 0);
    assert_eq!(segments[0].segment_count, 1);
}

#[test]
fn test_multiple_segments() {
    let metadata = FrameMetadata::new(1, 1000, 1000, true);
    let data = vec![0u8; 200_000]; // 200 KB, should be 4 segments
    let frame = EncodedFrame::new(metadata, data.clone());

    let segments = frame.into_segments();
    assert_eq!(segments.len(), 4);

    // Verify all segments have correct metadata
    for (i, segment) in segments.iter().enumerate() {
        assert_eq!(segment.segment_index, i as u16);
        assert_eq!(segment.segment_count, 4);
        assert_eq!(segment.frame_size, 200_000);
    }

    // Verify total data
    let mut reassembled = Vec::new();
    for segment in segments {
        reassembled.extend_from_slice(&segment.data);
    }
    assert_eq!(reassembled, data);
}

#[test]
fn test_frame_reassembly() {
    let metadata = FrameMetadata::new(1, 1000, 1000, true);
    let original_data = vec![42u8; 200_000];
    let frame = EncodedFrame::new(metadata, original_data.clone());
    let segments = frame.into_segments();

    let mut reassembler = FrameReassembler::new();

    // Add segments in order
    for segment in &segments[..segments.len() - 1] {
        let header = header_of(segment);
        let result = reassembler.add_segment(&header, segment.data.clone());
        assert!(result.is_none());
    }

    // Add last segment - should complete
    let last = segments.last().unwrap();
    let header = header_of(last);
    let result = reassembler.add_segment(&header, last.data.clone());
    assert!(result.is_some());

    let reassembled = result.unwrap();
    assert_eq!(reassembled.data, original_data);
}

#[test]
fn test_decoded_frame_planes() {
    // 4x4 YUV420P frame
    let width = 4u32;
    let height = 4u32;
    let y_size = (width * height) as usize; // 16
    let uv_size = y_size / 4; // 4

    let mut yuv_data = Vec::with_capacity(y_size + uv_size * 2);
    yuv_data.extend(vec![1u8; y_size]); // Y plane
    yuv_data.extend(vec![2u8; uv_size]); // U plane
    yuv_data.extend(vec![3u8; uv_size]); // V plane

    let frame = DecodedFrame::new(1, 1000, width, height, yuv_data);

    assert_eq!(frame.y_plane().len(), 16);
    assert_eq!(frame.u_plane().len(), 4);
    assert_eq!(frame.v_plane().len(), 4);
    assert!(frame.y_plane().iter().all(|&b| b == 1));
    assert!(frame.u_plane().iter().all(|&b| b == 2));
    assert!(frame.v_plane().iter().all(|&b| b == 3));
}

#[test]
fn decoded_frame_strides() {
    let yuv_data = vec![0u8; 6 * 4 + 2 * ((6 * 4) / 4)];
    let frame = DecodedFrame::new(2, 2000, 6, 4, yuv_data);
    assert_eq!(frame.y_stride(), 6);
    assert_eq!(frame.uv_stride(), 3);
}

#[test]
fn segmentation_of_empty_frame() {
    let frame = EncodedFrame::new(FrameMetadata::new(9, 0, 0, false), Vec::new());
    let segments = frame.into_segments();
    assert_eq!(segments.len(), 1);
    assert_eq!(segments[0].frame_size, 0);
    assert_eq!(segments[0].data.len(), 0);
}

#[test]
fn segmentation_at_exact_boundary() {
    let frame = EncodedFrame::new(FrameMetadata::new(3, 0, 0, false), vec![7u8; 65536]);
    let segments = frame.into_segments();
    assert_eq!(segments.len(), 1);
    assert_eq!(segments[0].data.len(), 65536);

    let frame = EncodedFrame::new(FrameMetadata::new(4, 0, 0, false), vec![7u8; 65537]);
    let segments = frame.into_segments();
    assert_eq!(segments.len(), 2);
    assert_eq!(segments[0].data.len(), 65536);
    assert_eq!(segments[1].data.len(), 1);
}

#[test]
fn reassembly_in_any_order() {
    let mut data: Vec<u8> = Vec::with_capacity(150_000);
    for i in 0..150_000usize {
        data.push((i % 251) as u8);
    }
    let frame = EncodedFrame::new(FrameMetadata::new(11, 50, 60, false), data.clone());
    let segments = frame.into_segments();
    assert_eq!(segments.len(), 3);

    // Feed the segments out of order, within the one frame.
    let order = [2usize, 0, 1];
    let mut reassembler = FrameReassembler::new();
    let mut completed = None;
    for &i in &order {
        let header = header_of(&segments[i]);
        let result = reassembler.add_segment(&header, segments[i].data.clone());
        if result.is_some() {
            assert!(completed.is_none());
            completed = result;
        }
    }
    let completed = completed.expect("frame should complete on the last segment");
    assert_eq!(completed.metadata.frame_number, 11);
    assert_eq!(completed.data, data);
}

#[test]
fn duplicate_segment_is_ignored() {
    let frame = EncodedFrame::new(FrameMetadata::new(5, 0, 0, false), vec![9u8; 100_000]);
    let segments = frame.into_segments();
    assert_eq!(segments.len(), 2);

    let mut reassembler = FrameReassembler::new();
    let header = header_of(&segments[0]);
    assert!(reassembler.add_segment(&header, segments[0].data.clone()).is_none());
    // The same segment again: no effect.
    assert!(reassembler.add_segment(&header, segments[0].data.clone()).is_none());

    let header = header_of(&segments[1]);
    let completed = reassembler.add_segment(&header, segments[1].data.clone()).unwrap();
    assert_eq!(completed.data.len(), 100_000);
}

#[test]
fn newer_frame_discards_partial_frame() {
    let old_frame = EncodedFrame::new(FrameMetadata::new(5, 0, 0, false), vec![1u8; 100_000]);
    let old_segments = old_frame.into_segments();

    let new_data = vec![2u8; 1000];
    let new_frame = EncodedFrame::new(FrameMetadata::new(6, 0, 0, false), new_data.clone());
    let new_segments = new_frame.into_segments();

    let mut reassembler = FrameReassembler::new();
    let header = header_of(&old_segments[0]);
    assert!(reassembler.add_segment(&header, old_segments[0].data.clone()).is_none());
    assert_eq!(reassembler.pending_frame_number(), Some(5));

    // A segment of the next frame abandons the partial one.
    let header = header_of(&new_segments[0]);
    let completed = reassembler.add_segment(&header, new_segments[0].data.clone()).unwrap();
    assert_eq!(completed.metadata.frame_number, 6);
    assert_eq!(completed.data, new_data);
    assert_eq!(reassembler.pending_frame_number(), None);
}

#[test]
fn reset_clears_pending_frame() {
    let frame = EncodedFrame::new(FrameMetadata::new(8, 0, 0, false), vec![0u8; 100_000]);
    let segments = frame.into_segments();

    let mut reassembler = FrameReassembler::new();
    let header = header_of(&segments[0]);
    assert!(reassembler.add_segment(&header, segments[0].data.clone()).is_none());
    assert_eq!(reassembler.pending_frame_number(), Some(8));

    reassembler.reset();
    assert_eq!(reassembler.pending_frame_number(), None);
}

#[test]
fn emitted_frame_numbers_are_nondecreasing() {
    let mut reassembler = FrameReassembler::new();
    let mut emitted: Vec<u64> = Vec::new();
    for n in [5u64, 7, 9] {
        let frame = EncodedFrame::new(FrameMetadata::new(n, 0, 0, false), vec![n as u8; 10]);
        let segments = frame.into_segments();
        let header = header_of(&segments[0]);
        if let Some(f) = reassembler.add_segment(&header, segments[0].data.clone()) {
            emitted.push(f.metadata.frame_number);
        }
    }
    assert_eq!(emitted, vec![5, 7, 9]);
}

#[test]
fn pack_plane_drops_stride_padding() {
    let data = vec![1u8, 2, 3, 9, 4, 5, 6, 9];
    let packed = pack_plane(&data, 4, 3, 2);
    assert_eq!(packed, vec![1, 2, 3, 4, 5, 6]);
}

#[test]
fn packed_planes_feed_a_decoded_frame() {
    // A 2x2 frame: Y rows with one padding byte of stride, single U and V
    // samples with their own stride.
    let y = vec![10u8, 11, 99, 12, 13, 99];
    let u = vec![20u8, 99];
    let v = vec![30u8, 99];
    let yuv = pack_yuv420p(&y, &u, &v, 3, 2, 2, 2);
    assert_eq!(yuv, vec![10, 11, 12, 13, 20, 30]);

    let frame = DecodedFrame::new(1, 0, 2, 2, yuv);
    assert_eq!(frame.y_plane(), &[10, 11, 12, 13]);
    assert_eq!(frame.u_plane(), &[20]);
    assert_eq!(frame.v_plane(), &[30]);
}
