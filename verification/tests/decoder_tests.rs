use ollama_sdk::decoder::FrameDecoder;

#[test]
fn take_line_reassembles_split_line() {
    let mut dec = FrameDecoder::new();
    dec.feed(b"{\"a\":");
    assert!(dec.take_line().is_none());
    dec.feed(b"1}\n");
    assert_eq!(dec.take_line().unwrap(), "{\"a\":1}");
    assert!(dec.take_line().is_none());
}

#[test]
fn take_line_skips_blank_lines() {
    let mut dec = FrameDecoder::new();
    dec.feed(b"\n  \n\t\r\nhello\n\n");
    assert_eq!(dec.take_line().unwrap(), "hello");
    assert!(dec.take_line().is_none());
}

#[test]
fn take_line_trims_whitespace() {
    let mut dec = FrameDecoder::new();
    dec.feed(b"  spaced out \r\n");
    assert_eq!(dec.take_line().unwrap(), "spaced out");
}

#[test]
fn take_line_yields_lines_in_order() {
    let mut dec = FrameDecoder::new();
    dec.feed(b"first\nsecond\nthird\n");
    assert_eq!(dec.take_line().unwrap(), "first");
    assert_eq!(dec.take_line().unwrap(), "second");
    assert_eq!(dec.take_line().unwrap(), "third");
    assert!(dec.take_line().is_none());
}

#[test]
fn take_residue_flushes_non_blank_tail_once() {
    let mut dec = FrameDecoder::new();
    dec.feed(b"line\ntail-without-newline");
    assert_eq!(dec.take_line().unwrap(), "line");
    assert!(dec.take_line().is_none());
    assert_eq!(dec.take_residue().unwrap(), "tail-without-newline");
    assert!(dec.take_residue().is_none());
}

#[test]
fn take_residue_drops_blank_tail() {
    let mut dec = FrameDecoder::new();
    dec.feed(b"line\n   \t ");
    assert_eq!(dec.take_line().unwrap(), "line");
    assert!(dec.take_line().is_none());
    assert!(dec.take_residue().is_none());
}

#[test]
fn take_residue_of_empty_buffer_is_nothing() {
    let mut dec = FrameDecoder::new();
    assert!(dec.take_line().is_none());
    assert!(dec.take_residue().is_none());
}

#[test]
fn feed_boundaries_do_not_matter() {
    let text = b"alpha\nbeta\ngamma";
    for split in 0..text.len() {
        let mut dec = FrameDecoder::new();
        dec.feed(&text[..split]);
        let mut lines = Vec::new();
        while let Some(l) = dec.take_line() {
            lines.push(l);
        }
        dec.feed(&text[split..]);
        while let Some(l) = dec.take_line() {
            lines.push(l);
        }
        if let Some(t) = dec.take_residue() {
            lines.push(t);
        }
        assert_eq!(lines, vec!["alpha", "beta", "gamma"]);
    }
}

#[test]
fn lines_decode_as_utf8() {
    let mut dec = FrameDecoder::new();
    dec.feed("caf\u{e9} costs 3\u{20ac}\n".as_bytes());
    assert_eq!(dec.take_line().unwrap(), "caf\u{e9} costs 3\u{20ac}");
}

#[test]
fn invalid_utf8_is_replaced_not_dropped() {
    let mut dec = FrameDecoder::new();
    dec.feed(b"ab\xffcd\n");
    let line = dec.take_line().unwrap();
    assert_eq!(line, "ab\u{fffd}cd");
}
