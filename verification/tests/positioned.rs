use positioned_io::read_exact_at;
use positioned_io::write_all_at;
use positioned_io::Cursor;
use positioned_io::IoError;
use positioned_io::ReadAt;
use positioned_io::SeekFrom;
use positioned_io::Size;
use positioned_io::Slice;
use positioned_io::SliceBound;
use positioned_io::StreamMem;
use positioned_io::WriteAt;

fn ten_bytes() -> Vec<u8> {
    vec![0u8, 1, 2, 3, 4, 5, 6, 7, 8, 9]
}

#[test]
fn read_at_returns_available_bytes() {
    let data = ten_bytes();
    let mut buf = vec![0u8; 4];
    assert_eq!(data.read_at(3, &mut buf), Ok(4));
    assert_eq!(buf, vec![3u8, 4, 5, 6]);
}

#[test]
fn read_at_past_end_returns_zero() {
    let data = ten_bytes();
    let mut buf = vec![7u8; 4];
    assert_eq!(data.read_at(10, &mut buf), Ok(0));
    assert_eq!(data.read_at(u64::MAX, &mut buf), Ok(0));
    assert_eq!(buf, vec![7u8; 4]);
}

#[test]
fn read_at_short_near_end() {
    let data = ten_bytes();
    let mut buf = vec![0u8; 4];
    assert_eq!(data.read_at(8, &mut buf), Ok(2));
    assert_eq!(buf, vec![8u8, 9, 0, 0]);
}

#[test]
fn write_at_overwrites_in_place() {
    let mut data = ten_bytes();
    assert_eq!(data.write_at(2, &vec![20u8, 21]), Ok(2));
    assert_eq!(data, vec![0u8, 1, 20, 21, 4, 5, 6, 7, 8, 9]);
}

#[test]
fn write_at_extends_and_fills_gap_with_zeros() {
    let mut data = vec![1u8, 2, 3];
    assert_eq!(data.write_at(5, &vec![9u8, 9]), Ok(2));
    assert_eq!(data, vec![1u8, 2, 3, 0, 0, 9, 9]);
}

#[test]
fn size_of_vec_is_its_length() {
    let mut data = ten_bytes();
    assert_eq!(data.size(), Ok(Some(10)));
    assert_eq!(data.flush(), Ok(()));
}

#[test]
fn reads_do_not_interfere() {
    // Non-overlapping reads on a shared resource, issued in either order,
    // return the same bytes as issuing them alone.
    let data = ten_bytes();
    let mut first = vec![0u8; 3];
    let mut second = vec![0u8; 3];
    assert_eq!(data.read_at(1, &mut first), Ok(3));
    assert_eq!(data.read_at(6, &mut second), Ok(3));
    let mut first_again = vec![0u8; 3];
    let mut second_again = vec![0u8; 3];
    assert_eq!(data.read_at(6, &mut second_again), Ok(3));
    assert_eq!(data.read_at(1, &mut first_again), Ok(3));
    assert_eq!(first, first_again);
    assert_eq!(second, second_again);
    assert_eq!(first, vec![1u8, 2, 3]);
    assert_eq!(second, vec![6u8, 7, 8]);
}

#[test]
fn cursor_round_trip() {
    // Writing n bytes at position p, then reading n bytes from a fresh
    // cursor at p, yields the original bytes.
    let payload = vec![42u8, 43, 44, 45];
    let mut writer = Cursor::new_pos(ten_bytes(), 7);
    assert_eq!(writer.write(&payload), Ok(4));
    assert_eq!(writer.position(), 11);
    let data = writer.into_inner();
    let mut reader = Cursor::new_pos(data, 7);
    let mut buf = vec![0u8; 4];
    assert_eq!(reader.read(&mut buf), Ok(4));
    assert_eq!(buf, payload);
    assert_eq!(reader.position(), 11);
}

#[test]
fn cursor_read_advances_position() {
    let mut cur = Cursor::new(ten_bytes());
    let mut buf = vec![0u8; 6];
    assert_eq!(cur.read(&mut buf), Ok(6));
    assert_eq!(buf, vec![0u8, 1, 2, 3, 4, 5]);
    assert_eq!(cur.position(), 6);
    assert_eq!(cur.read(&mut buf), Ok(4));
    assert_eq!(buf, vec![6u8, 7, 8, 9, 4, 5]);
    assert_eq!(cur.position(), 10);
    assert_eq!(cur.read(&mut buf), Ok(0));
    assert_eq!(cur.position(), 10);
}

#[test]
fn cursor_getters_and_setters() {
    let mut cur = Cursor::new(ten_bytes());
    assert_eq!(cur.position(), 0);
    cur.set_position(4);
    assert_eq!(cur.position(), 4);
    assert_eq!(cur.get_ref()[4], 4);
    cur.get_mut().push(10);
    assert_eq!(cur.into_inner().len(), 11);
}

#[test]
fn cursor_negative_seek_fails_and_moves_nothing() {
    let mut cur = Cursor::new_pos(ten_bytes(), 5);
    assert_eq!(cur.seek(SeekFrom::Current(-10)), Err(IoError::InvalidSeek));
    assert_eq!(cur.position(), 5);
}

#[test]
fn cursor_seek_from_all_anchors() {
    let mut cur = Cursor::new(ten_bytes());
    assert_eq!(cur.seek(SeekFrom::Start(8)), Ok(8));
    assert_eq!(cur.seek(SeekFrom::Current(-3)), Ok(5));
    assert_eq!(cur.seek(SeekFrom::Current(4)), Ok(9));
    assert_eq!(cur.seek(SeekFrom::End(-2)), Ok(8));
    assert_eq!(cur.seek(SeekFrom::End(3)), Ok(13));
    assert_eq!(cur.position(), 13);
}

#[test]
fn cursor_seek_from_unknown_end_fails() {
    let stream = StreamMem { data: ten_bytes() };
    assert_eq!(stream.size(), Ok(None));
    let mut cur = Cursor::new_pos(stream, 3);
    assert_eq!(cur.seek(SeekFrom::End(-1)), Err(IoError::InvalidSeek));
    assert_eq!(cur.position(), 3);
}

#[test]
fn cursor_flush_keeps_position() {
    let mut cur = Cursor::new_pos(ten_bytes(), 2);
    assert_eq!(cur.flush(), Ok(()));
    assert_eq!(cur.position(), 2);
}

#[test]
fn slice_read_within_window() {
    // A ten-byte resource sliced to [4, 8): reading 4 bytes at slice
    // offset 2 returns the 2 bytes before the boundary and touches no more
    // of the buffer.
    let slice = Slice::new(ten_bytes(), SliceBound::Included(4), SliceBound::Excluded(8));
    let mut buf = vec![0u8; 4];
    assert_eq!(slice.read_at(2, &mut buf), Ok(2));
    assert_eq!(buf, vec![6u8, 7, 0, 0]);
}

#[test]
fn slice_read_at_boundary_returns_zero() {
    let slice = Slice::new(ten_bytes(), SliceBound::Included(4), SliceBound::Excluded(8));
    let mut buf = vec![9u8; 4];
    assert_eq!(slice.read_at(4, &mut buf), Ok(0));
    assert_eq!(slice.read_at(100, &mut buf), Ok(0));
    assert_eq!(buf, vec![9u8; 4]);
}

#[test]
fn slice_write_clips_at_boundary() {
    // Writing 3 bytes one position before the declared end writes only one
    // byte and reports one, never an error.
    let mut slice = Slice::new(ten_bytes(), SliceBound::Included(2), SliceBound::Excluded(6));
    assert_eq!(slice.write_at(3, &vec![70u8, 71, 72]), Ok(1));
    assert_eq!(slice.io, vec![0u8, 1, 2, 3, 4, 70, 6, 7, 8, 9]);
    assert_eq!((slice.offset, slice.size), (2, 4));
}

#[test]
fn slice_sizes() {
    let bounded = Slice::new(ten_bytes(), SliceBound::Included(4), SliceBound::Excluded(8));
    assert_eq!(bounded.size(), Ok(Some(4)));
    let unbounded = Slice::new(ten_bytes(), SliceBound::Included(2), SliceBound::Unbounded);
    assert_eq!(unbounded.size(), Ok(None));
    let inclusive = Slice::new(ten_bytes(), SliceBound::Excluded(1), SliceBound::Included(8));
    assert_eq!(inclusive.size(), Ok(Some(7)));
    let empty = Slice::new(ten_bytes(), SliceBound::Included(8), SliceBound::Excluded(3));
    assert_eq!(empty.size(), Ok(Some(0)));
    // An inclusive upper end at the largest offset saturates to the
    // unbounded sentinel when the slice starts at zero.
    let saturated = Slice::new(ten_bytes(), SliceBound::Unbounded, SliceBound::Included(u64::MAX));
    assert_eq!(saturated.size(), Ok(None));
}

#[test]
fn unbounded_slice_never_clips() {
    // Reads through an unbounded slice are clipped only by the wrapped
    // resource's own extent.
    let slice = Slice::new(ten_bytes(), SliceBound::Included(6), SliceBound::Unbounded);
    assert_eq!(slice.size(), Ok(None));
    let mut buf = vec![0u8; 10];
    assert_eq!(slice.read_at(0, &mut buf), Ok(4));
    assert_eq!(buf, vec![6u8, 7, 8, 9, 0, 0, 0, 0, 0, 0]);
    assert_eq!(slice.read_at(4, &mut buf), Ok(0));
}

#[test]
fn slice_of_slice_composes() {
    // Reading through two nested slices equals one read of the innermost
    // resource at the composed offset.
    let outer = Slice::new(ten_bytes(), SliceBound::Included(2), SliceBound::Excluded(9));
    let inner = Slice::new(outer, SliceBound::Included(3), SliceBound::Excluded(6));
    let mut through = vec![0u8; 5];
    assert_eq!(inner.read_at(1, &mut through), Ok(2));
    let mut direct = vec![0u8; 2];
    assert_eq!(ten_bytes().read_at(2 + 3 + 1, &mut direct), Ok(2));
    assert_eq!(through[..2], direct[..]);
    assert_eq!(through, vec![6u8, 7, 0, 0, 0]);
}

#[test]
fn slice_new_to_end_takes_reported_size() {
    let slice = Slice::new_to_end(ten_bytes(), 6).unwrap();
    assert_eq!(slice.size(), Ok(Some(4)));
    let mut buf = vec![0u8; 8];
    assert_eq!(slice.read_at(0, &mut buf), Ok(4));
    assert_eq!(buf, vec![6u8, 7, 8, 9, 0, 0, 0, 0]);
}

#[test]
fn slice_new_to_end_needs_a_size() {
    let stream = StreamMem { data: ten_bytes() };
    match Slice::new_to_end(stream, 2) {
        Err(e) => assert_eq!(e, IoError::UnavailableSize),
        Ok(_) => panic!("an end-anchored slice over a size-unaware resource"),
    }
}

#[test]
fn stream_mem_reads_like_its_buffer() {
    let stream = StreamMem { data: ten_bytes() };
    let mut buf = vec![0u8; 3];
    assert_eq!(stream.read_at(7, &mut buf), Ok(3));
    assert_eq!(buf, vec![7u8, 8, 9]);
}

#[test]
fn slice_avail_counts_bytes_within_boundary() {
    let slice = Slice::new(ten_bytes(), SliceBound::Included(4), SliceBound::Excluded(8));
    assert_eq!(slice.avail(0, 10), 4);
    assert_eq!(slice.avail(3, 10), 1);
    assert_eq!(slice.avail(3, 1), 1);
    assert_eq!(slice.avail(4, 10), 0);
    assert_eq!(slice.avail(9, 10), 0);
}

#[test]
fn read_exact_through_a_slice() {
    let slice = Slice::new(ten_bytes(), SliceBound::Included(4), SliceBound::Excluded(8));
    let mut buf = vec![0u8; 4];
    assert_eq!(read_exact_at(&slice, 0, &mut buf), Ok(()));
    assert_eq!(buf, vec![4u8, 5, 6, 7]);
    let mut big = vec![0u8; 5];
    assert_eq!(read_exact_at(&slice, 0, &mut big), Err(IoError::UnexpectedEof));
}

#[test]
fn read_exact_at_fills_the_buffer() {
    let data = ten_bytes();
    let mut buf = vec![0u8; 5];
    assert_eq!(read_exact_at(&data, 3, &mut buf), Ok(()));
    assert_eq!(buf, vec![3u8, 4, 5, 6, 7]);
}

#[test]
fn read_exact_at_reports_early_end() {
    let data = ten_bytes();
    let mut buf = vec![0u8; 5];
    assert_eq!(read_exact_at(&data, 8, &mut buf), Err(IoError::UnexpectedEof));
}

#[test]
fn write_all_at_extends_the_resource() {
    let mut data = vec![0u8, 1, 2, 3, 4, 5];
    assert_eq!(write_all_at(&mut data, 5, &vec![9u8, 9, 9]), Ok(()));
    assert_eq!(data, vec![0u8, 1, 2, 3, 4, 9, 9, 9]);
}

#[test]
fn write_all_through_slice_boundary_fails() {
    // A write-everything that crosses a slice boundary writes the bytes
    // that fit and then fails, since the boundary accepts no more.
    let mut slice = Slice::new(ten_bytes(), SliceBound::Included(0), SliceBound::Excluded(4));
    assert_eq!(write_all_at(&mut slice, 2, &vec![50u8, 51, 52]), Err(IoError::Failed));
    assert_eq!(slice.io, vec![0u8, 1, 50, 51, 4, 5, 6, 7, 8, 9]);
}

#[test]
fn empty_transfers_move_nothing() {
    let mut data = ten_bytes();
    let mut empty: Vec<u8> = Vec::new();
    assert_eq!(data.read_at(3, &mut empty), Ok(0));
    assert_eq!(data.write_at(3, &empty), Ok(0));
    assert_eq!(read_exact_at(&data, 3, &mut empty), Ok(()));
    assert_eq!(write_all_at(&mut data, 3, &empty), Ok(()));
    assert_eq!(data, ten_bytes());
}

#[test]
fn slice_at_extreme_offsets() {
    let far = Slice::new(ten_bytes(), SliceBound::Excluded(u64::MAX), SliceBound::Unbounded);
    assert_eq!((far.offset, far.size), (u64::MAX, u64::MAX));
    let mut buf = vec![3u8; 2];
    assert_eq!(far.read_at(0, &mut buf), Ok(0));
    assert_eq!(far.read_at(u64::MAX, &mut buf), Ok(0));
    assert_eq!(buf, vec![3u8; 2]);
}

#[test]
fn unbounded_slice_of_unbounded_slice() {
    let outer = Slice::new(ten_bytes(), SliceBound::Included(2), SliceBound::Unbounded);
    let inner = Slice::new(outer, SliceBound::Included(3), SliceBound::Unbounded);
    assert_eq!(inner.size(), Ok(None));
    let mut through = vec![0u8; 8];
    assert_eq!(inner.read_at(1, &mut through), Ok(4));
    assert_eq!(through, vec![6u8, 7, 8, 9, 0, 0, 0, 0]);
}

#[test]
fn write_through_cursor_over_slice() {
    let slice = Slice::new(ten_bytes(), SliceBound::Included(3), SliceBound::Excluded(8));
    let mut cur = Cursor::new_pos(slice, 4);
    assert_eq!(cur.write(&vec![90u8, 91, 92]), Ok(1));
    assert_eq!(cur.position(), 5);
    let mut buf = vec![0u8; 1];
    assert_eq!(cur.get_ref().read_at(4, &mut buf), Ok(1));
    assert_eq!(buf, vec![90u8]);
}
