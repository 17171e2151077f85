use openclaw_helper::stream::{capture_line, output_line, LineSplitter};

fn feed_all(bytes: &[u8]) -> (Vec<Vec<u8>>, Option<Vec<u8>>) {
    let mut s = LineSplitter::new();
    let lines = s.feed(bytes);
    (lines, s.finish())
}

#[test]
fn output_is_cut_at_line_breaks() {
    let (lines, rest) = feed_all(b"one\r\ntwo\n\nthree\rfour");
    assert_eq!(lines, vec![b"one".to_vec(), b"two".to_vec(), b"three".to_vec()]);
    assert_eq!(rest, Some(b"four".to_vec()));
    let (lines, rest) = feed_all(b"\n\r\n");
    assert!(lines.is_empty());
    assert_eq!(rest, None);
}

#[test]
fn bytes_split_across_reads_join_up() {
    let mut s = LineSplitter::new();
    let mut lines = s.feed(b"hel");
    lines.extend(s.feed(b"lo\nwor"));
    lines.extend(s.feed(b"ld\n"));
    assert_eq!(lines, vec![b"hello".to_vec(), b"world".to_vec()]);
    assert_eq!(s.finish(), None);
}

#[test]
fn long_lines_are_cut_after_the_limit() {
    let data = vec![b'a'; 16_385 * 2 + 3];
    let (lines, rest) = feed_all(&data);
    assert_eq!(lines.len(), 2);
    assert!(lines.iter().all(|l| l.len() == 16_385));
    assert_eq!(rest, Some(vec![b'a'; 3]));
}

#[test]
fn every_byte_but_line_breaks_is_kept() {
    let data: Vec<u8> = (0..5000u32).map(|i| (i % 251) as u8).collect();
    let (lines, rest) = feed_all(&data);
    let mut joined: Vec<u8> = lines.concat();
    joined.extend(rest.unwrap_or_default());
    let kept: Vec<u8> = data.iter().copied().filter(|b| *b != b'\n' && *b != b'\r').collect();
    assert_eq!(joined, kept);
    assert!(lines.iter().all(|l| !l.is_empty() && !l.contains(&b'\n') && !l.contains(&b'\r')));
}

#[test]
fn lines_are_decoded_and_labelled() {
    assert_eq!(output_line(false, "编译中".as_bytes()), "编译中");
    assert_eq!(output_line(true, b"warn"), "[stderr] warn");
    assert_eq!(output_line(false, &[0x66, 0xff, 0x6f]), "f\u{fffd}o");
}

#[test]
fn capture_stops_after_the_limit() {
    let mut buf = String::new();
    capture_line(&mut buf, "first");
    capture_line(&mut buf, "second");
    assert_eq!(buf, "first\nsecond\n");
    let mut big = "x".repeat(119_999);
    capture_line(&mut big, "y");
    assert_eq!(big.len(), 120_001);
    capture_line(&mut big, "z");
    assert_eq!(big.len(), 120_001);
}
