use termusic::scan::{scan, ScanEnd};
use termusic::stream::StreamScanner;

fn stream_data() -> Vec<u8> {
    let mut data = vec![0x00, 0x11];
    for i in 0..6u32 {
        let word: u32 = if i % 2 == 0 { 0xFFFB_9000 } else { 0xFFFB_A000 };
        let len = if i % 2 == 0 { 417 } else { 522 };
        let mut f = word.to_be_bytes().to_vec();
        f.resize(len, 0);
        data.extend(f);
    }
    data.extend_from_slice(&[0xFF, 0xFB, 0x90, 0x00, 0x01]);
    data
}

#[test]
fn chunked_scan_matches_whole_scan() {
    let data = stream_data();
    let whole = scan(&data, 0, None);
    for size in [1usize, 3, 4, 100, 417, 5000] {
        let mut s = StreamScanner::new(None);
        for chunk in data.chunks(size) {
            s.feed(chunk);
        }
        let r = s.finish();
        assert_eq!(r.frames, whole.frames);
        assert_eq!(r.end, ScanEnd::TruncatedFrame);
        assert_eq!(r.end, whole.end);
        assert_eq!(r.bytes_consumed, whole.bytes_consumed);
        assert_eq!(r.sync_losses, whole.sync_losses);
        assert_eq!(r.sync_losses, 2);
        assert_eq!(r.frames.len(), 6);
    }
}

#[test]
fn chunked_scan_with_bound() {
    let data = stream_data();
    let mut s = StreamScanner::new(Some(3));
    for chunk in data.chunks(50) {
        s.feed(chunk);
    }
    let r = s.finish();
    assert_eq!(r.end, ScanEnd::MaxFramesReached);
    assert_eq!(r.frames.len(), 3);
}

#[test]
fn chunked_scan_of_nothing() {
    let r = StreamScanner::new(None).finish();
    assert_eq!(r.frames.len(), 0);
    assert_eq!(r.end, ScanEnd::EndOfInput);
}
