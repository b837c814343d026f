use ollama_relay::decode::StreamDecoder;
use ollama_relay::record::decode_line;
use ollama_relay::record::interpret;
use ollama_relay::registry::TaskRegistry;

fn feed_all(dec: &mut StreamDecoder, chunks: &[&[u8]]) -> Vec<String> {
    let mut out: Vec<String> = Vec::new();
    for c in chunks {
        out.extend(dec.feed_chunk(c));
    }
    out
}

#[test]
fn three_record_stream() {
    // a full run: two content fragments, then a completion flag; afterwards
    // the task deregisters itself and cancellation finds nothing
    let mut reg: TaskRegistry<u32> = TaskRegistry::new();
    let id = String::from("task-1");
    reg.register(id.clone(), 7);
    assert!(reg.contains(&id));

    let mut dec = StreamDecoder::new();
    let t1 = dec.feed_chunk(b"{\"message\":{\"content\":\"Hel\"},\"done\":false}\n");
    assert_eq!(t1, vec!["Hel".to_string()]);
    let t2 = dec.feed_chunk(b"{\"message\":{\"content\":\"lo\"},\"done\":false}\n");
    assert_eq!(t2, vec!["lo".to_string()]);
    let t3 = dec.feed_chunk(b"{\"done\":true}\n");
    assert!(t3.is_empty());
    assert!(dec.is_done());

    // natural completion removes the registry entry
    let handle = reg.remove(&id);
    assert_eq!(handle, Some(7));
    assert!(!reg.contains(&id));
}

#[test]
fn tokens_do_not_depend_on_chunk_boundaries() {
    let text: &[u8] = b"{\"message\":{\"content\":\"alpha\"},\"done\":false}\n{\"response\":\"beta\"}\n{\"message\":{\"content\":\"gamma\"},\"done\":true}\n";
    let mut whole = StreamDecoder::new();
    let expected = whole.feed_chunk(text);
    assert_eq!(
        expected,
        vec!["alpha".to_string(), "beta".to_string(), "gamma".to_string()]
    );

    for step in [1usize, 2, 3, 5, 7, 11, 64] {
        let mut dec = StreamDecoder::new();
        let mut got: Vec<String> = Vec::new();
        for chunk in text.chunks(step) {
            got.extend(dec.feed_chunk(chunk));
        }
        assert_eq!(got, expected, "split every {} bytes", step);
    }
}

#[test]
fn split_inside_json_token() {
    // a boundary in the middle of a key and of a value
    let mut dec = StreamDecoder::new();
    let got = feed_all(
        &mut dec,
        &[b"{\"mess", b"age\":{\"content\":\"He", b"l\"},\"done\":false}\n"],
    );
    assert_eq!(got, vec!["Hel".to_string()]);
}

#[test]
fn multibyte_character_within_one_chunk() {
    let mut dec = StreamDecoder::new();
    let got = dec.feed_chunk("{\"message\":{\"content\":\"h\u{e9}llo\"},\"done\":false}\n".as_bytes());
    assert_eq!(got, vec!["h\u{e9}llo".to_string()]);
}

#[test]
fn multibyte_split_is_lossy_but_contained() {
    // each chunk is decoded on arrival, so a chunk boundary inside one
    // UTF-8 sequence yields replacement characters in that record only;
    // the following record is unharmed
    let text = "{\"message\":{\"content\":\"h\u{e9}llo\"},\"done\":false}\n{\"message\":{\"content\":\"next\"},\"done\":false}\n";
    let bytes = text.as_bytes();
    // the e-acute is two bytes; find and split between them
    let pos = text.find('\u{e9}').unwrap();
    let mut dec = StreamDecoder::new();
    let mut got: Vec<String> = Vec::new();
    got.extend(dec.feed_chunk(&bytes[..pos + 1]));
    got.extend(dec.feed_chunk(&bytes[pos + 1..]));
    assert_eq!(got.len(), 2);
    assert_eq!(got[0], "h\u{fffd}\u{fffd}llo");
    assert_eq!(got[1], "next");
}

#[test]
fn completion_discards_already_buffered_records() {
    // bytes for records after the flagged one are already buffered and are
    // never interpreted
    let mut dec = StreamDecoder::new();
    let got = dec.feed_chunk(
        b"{\"message\":{\"content\":\"A\"},\"done\":false}\n{\"done\":true}\n{\"message\":{\"content\":\"B\"},\"done\":false}\n",
    );
    assert_eq!(got, vec!["A".to_string()]);
    assert!(dec.is_done());
    // and later chunks yield nothing either
    let after = dec.feed_chunk(b"{\"message\":{\"content\":\"C\"},\"done\":false}\n");
    assert!(after.is_empty());
}

#[test]
fn invalid_line_is_skipped_silently() {
    let mut dec = StreamDecoder::new();
    let got = dec.feed_chunk(
        b"{\"message\":{\"content\":\"x\"},\"done\":false}\nnot json\n{\"message\":{\"content\":\"y\"},\"done\":true}\n",
    );
    assert_eq!(got, vec!["x".to_string(), "y".to_string()]);
    assert!(dec.is_done());
}

#[test]
fn blank_lines_are_skipped() {
    let mut dec = StreamDecoder::new();
    let got = dec.feed_chunk(b"\n   \n\r\n{\"response\":\"ok\"}\n\t\n");
    assert_eq!(got, vec!["ok".to_string()]);
    assert!(!dec.is_done());
}

#[test]
fn partial_line_waits_for_next_chunk() {
    let mut dec = StreamDecoder::new();
    let first = dec.feed_chunk(b"{\"response\":\"to");
    assert!(first.is_empty());
    let second = dec.feed_chunk(b"ken\"}\n");
    assert_eq!(second, vec!["token".to_string()]);
}

#[test]
fn message_content_takes_priority_over_response() {
    let rec = decode_line("{\"message\":{\"content\":\"m\"},\"response\":\"r\",\"done\":false}")
        .expect("valid record");
    assert_eq!(interpret(&rec), Some("m".to_string()));
    assert!(!rec.done);
}

#[test]
fn empty_message_content_falls_back_to_response() {
    let rec = decode_line("{\"message\":{\"content\":\"\"},\"response\":\"r\"}").expect("valid record");
    assert_eq!(interpret(&rec), Some("r".to_string()));
}

#[test]
fn empty_message_content_without_response_yields_nothing() {
    let rec = decode_line("{\"message\":{\"content\":\"\"}}").expect("valid record");
    assert_eq!(interpret(&rec), None);
}

#[test]
fn decode_line_rejects_blank_and_invalid() {
    assert!(decode_line("").is_none());
    assert!(decode_line("   \t\r").is_none());
    assert!(decode_line("not json").is_none());
}

#[test]
fn done_flag_reported_independently_of_token() {
    let rec = decode_line("{\"done\":true}").expect("valid record");
    assert_eq!(interpret(&rec), None);
    assert!(rec.done);
    let rec2 = decode_line("{\"message\":{\"content\":\"last\"},\"done\":true}").expect("valid record");
    assert_eq!(interpret(&rec2), Some("last".to_string()));
    assert!(rec2.done);
}
