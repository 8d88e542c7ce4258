use sqlx_actix_streaming::{ByteStream, State};

// What the producer reports on one pull.
enum Report {
    Row(Vec<u8>),
    NotReady,
    End,
    Fail,
}

// What one pull of the consumer gives.
#[derive(Debug, PartialEq)]
enum Pulled {
    Chunk(Vec<u8>),
    NotReady,
    Failed,
    End,
}

// One pull of the consumer, driving the stream with the producer's reports
// in order, as a response body would.
fn pull(s: &mut ByteStream, reports: &mut std::collections::VecDeque<Report>) -> Pulled {
    if !s.begin_pull() {
        return Pulled::End;
    }
    loop {
        match reports.pop_front().unwrap_or(Report::End) {
            Report::Row(r) => {
                assert!(s.has_room_for(&r));
                if let Some(c) = s.on_record(&r) {
                    return Pulled::Chunk(c.to_vec());
                }
            }
            Report::NotReady => {
                return match s.on_not_ready() {
                    Some(c) => Pulled::Chunk(c.to_vec()),
                    None => Pulled::NotReady,
                };
            }
            Report::End => {
                assert!(s.has_room_to_close());
                return Pulled::Chunk(s.on_end().to_vec());
            }
            Report::Fail => {
                s.on_failure();
                return Pulled::Failed;
            }
        }
    }
}

// Pulls until the stream ends; returns every chunk, in order.
fn drain(mut s: ByteStream, reports: Vec<Report>) -> Vec<Vec<u8>> {
    let mut reports: std::collections::VecDeque<Report> = reports.into_iter().collect();
    let mut chunks = Vec::new();
    loop {
        match pull(&mut s, &mut reports) {
            Pulled::Chunk(c) => chunks.push(c),
            Pulled::NotReady => {}
            Pulled::Failed | Pulled::End => return chunks,
        }
    }
}

fn rows(texts: &[&str]) -> Vec<Report> {
    texts.iter().map(|t| Report::Row(t.as_bytes().to_vec())).collect()
}

fn widget(id: usize) -> String {
    format!(
        r#"{{"id":{},"serial":{},"name":"widget {}","description":"a widget"}}"#,
        id,
        id * 100,
        id
    )
}

#[test]
fn zero_rows_give_prefix_and_suffix() {
    let chunks = drain(ByteStream::new(), vec![]);
    assert_eq!(chunks.concat(), b"[]".to_vec());
}

#[test]
fn zero_rows_with_custom_framing() {
    let s = ByteStream::new().prefix("<<").suffix(">>");
    let chunks = drain(s, vec![Report::NotReady]);
    assert_eq!(chunks.concat(), b"<<>>".to_vec());
}

#[test]
fn rows_are_framed_in_order() {
    let chunks = drain(ByteStream::new(), rows(&["1", "22", "333"]));
    assert_eq!(chunks.concat(), b"[1,22,333]".to_vec());
}

#[test]
fn single_widget_scenario() {
    let row = r#"{"id":1,"serial":9,"name":"x","description":"y"}"#;
    let chunks = drain(ByteStream::new(), rows(&[row]));
    assert_eq!(
        String::from_utf8(chunks.concat()).unwrap(),
        r#"[{"id":1,"serial":9,"name":"x","description":"y"}]"#
    );
}

#[test]
fn table_framing_scenario() {
    let s = ByteStream::new()
        .prefix(r#"{"cols":["id","serial","name","description"],"rows":["#)
        .suffix("]}");
    let chunks = drain(s, rows(&[r#"[1,100,"a","d"]"#, r#"[2,200,"b","e"]"#]));
    assert_eq!(
        String::from_utf8(chunks.concat()).unwrap(),
        r#"{"cols":["id","serial","name","description"],"rows":[[1,100,"a","d"],[2,200,"b","e"]]}"#
    );
}

#[test]
fn custom_delimiter_and_empty_records() {
    let s = ByteStream::new().prefix("").delimiter("\n").suffix("");
    let chunks = drain(s, rows(&["a", "", "b"]));
    assert_eq!(chunks.concat(), b"a\n\nb".to_vec());
}

#[test]
fn ended_stream_keeps_ending() {
    let mut s = ByteStream::new();
    let mut reports: std::collections::VecDeque<Report> = rows(&["1"]).into_iter().collect();
    let mut out = Vec::new();
    loop {
        match pull(&mut s, &mut reports) {
            Pulled::Chunk(c) => out.extend(c),
            other => {
                assert_eq!(other, Pulled::End);
                break;
            }
        }
    }
    assert_eq!(out, b"[1]".to_vec());
    assert_eq!(s.state(), State::Done);
    for _ in 0..3 {
        assert!(!s.begin_pull());
        assert_eq!(s.state(), State::Done);
    }
}

#[test]
fn failed_stream_keeps_ending() {
    let mut s = ByteStream::new();
    let mut reports: std::collections::VecDeque<Report> =
        vec![Report::Fail, Report::Row(b"1".to_vec())].into_iter().collect();
    assert_eq!(pull(&mut s, &mut reports), Pulled::Failed);
    assert_eq!(s.state(), State::Failed);
    for _ in 0..3 {
        assert_eq!(pull(&mut s, &mut reports), Pulled::End);
    }
    assert_eq!(s.state(), State::Failed);
    assert_eq!(reports.len(), 1);
}

#[test]
fn not_ready_with_empty_buffer_reports_not_ready() {
    let mut s = ByteStream::new();
    assert!(s.begin_pull());
    let first = s.on_not_ready().unwrap();
    assert_eq!(&first[..], b"[");
    assert!(s.begin_pull());
    assert!(s.on_not_ready().is_none());
    assert!(s.on_not_ready().is_none());
    assert_eq!(s.state(), State::Empty);
}

#[test]
fn not_ready_with_buffered_bytes_flushes() {
    let mut s = ByteStream::new().prefix("<rows>");
    assert!(s.begin_pull());
    let chunk = s.on_not_ready().unwrap();
    assert_eq!(&chunk[..], b"<rows>");
    assert!(s.begin_pull());
    assert!(s.on_not_ready().is_none());
    assert_eq!(s.on_end().to_vec(), b"]".to_vec());
}

#[test]
fn flush_follows_room_left_against_estimate() {
    let mut s = ByteStream::with_size(8);
    assert!(s.begin_pull());
    // Nine bytes of room against an estimate of eight: keep filling.
    assert!(s.flush_if_full(10).is_none());
    assert!(s.flush_if_full(usize::MAX).is_none());
    // Eight bytes of room: the chunk is due.
    let chunk = s.flush_if_full(9).unwrap();
    assert_eq!(&chunk[..], b"[");
    // Nothing buffered: never an empty chunk.
    assert!(s.flush_if_full(0).is_none());
    assert_eq!(s.state(), State::Empty);
}

#[test]
fn record_chunks_are_never_empty() {
    let s = ByteStream::with_size(0).prefix("").delimiter("").suffix("");
    let chunks = drain(s, rows(&["", "", "a", "", "b", ""]));
    assert_eq!(chunks.concat(), b"ab".to_vec());
    let last = chunks.len() - 1;
    assert!(chunks[..last].iter().all(|c| !c.is_empty()));
}

#[test]
fn not_ready_between_rows_keeps_content() {
    let reports = vec![
        Report::NotReady,
        Report::Row(b"a".to_vec()),
        Report::NotReady,
        Report::NotReady,
        Report::Row(b"b".to_vec()),
        Report::NotReady,
        Report::End,
    ];
    let chunks = drain(ByteStream::new(), reports);
    assert_eq!(chunks.concat(), b"[a,b]".to_vec());
    assert!(chunks.iter().all(|c| !c.is_empty()));
}

#[test]
fn chunk_boundaries_do_not_change_content() {
    let texts: Vec<String> = (0..500).map(widget).collect();
    let refs: Vec<&str> = texts.iter().map(|t| t.as_str()).collect();
    let whole = drain(ByteStream::with_size(1 << 20), rows(&refs)).concat();
    let mut expected = String::from("[");
    expected.push_str(&texts.join(","));
    expected.push(']');
    assert_eq!(String::from_utf8(whole.clone()).unwrap(), expected);
    for size in [0usize, 1, 3, 17, 64, 100, 2048] {
        let chunks = drain(ByteStream::with_size(size), rows(&refs));
        assert_eq!(chunks.concat(), whole);
    }
}

#[test]
fn ten_thousand_rows_small_and_large_hint() {
    let texts: Vec<String> = (1..=10_000).map(widget).collect();
    let refs: Vec<&str> = texts.iter().map(|t| t.as_str()).collect();
    let small = drain(ByteStream::new().size(64), rows(&refs));
    let large = drain(ByteStream::new().size(1 << 20), rows(&refs));
    assert!(small.len() > 1);
    assert_eq!(small.concat(), large.concat());
    assert!(small.concat().starts_with(b"[{\"id\":1,"));
    assert!(small.concat().ends_with(b"\"a widget\"}]"));
}

#[test]
fn size_estimate_grows_to_next_power_of_two() {
    let mut s = ByteStream::with_size(5);
    assert_eq!(s.item_size(), 5);
    assert!(s.begin_pull());
    let _ = s.on_record(b"123");
    assert_eq!(s.item_size(), 5);
    let _ = s.on_record(b"123456");
    assert_eq!(s.item_size(), 8);
    let _ = s.on_record(b"1234567");
    assert_eq!(s.item_size(), 8);
    let _ = s.on_record(b"123456789");
    assert_eq!(s.item_size(), 16);
    let _ = s.on_record(b"1");
    assert_eq!(s.item_size(), 16);
}

#[test]
fn size_estimate_default_and_growth() {
    let mut s = ByteStream::new();
    assert_eq!(s.item_size(), 2048);
    assert!(s.begin_pull());
    let _ = s.on_record(&vec![b'x'; 2048]);
    assert_eq!(s.item_size(), 2048);
    let _ = s.on_record(&vec![b'x'; 3000]);
    assert_eq!(s.item_size(), 4096);
    let _ = s.on_record(&vec![b'x'; 4097]);
    assert_eq!(s.item_size(), 8192);
}

#[test]
fn size_estimate_never_decreases() {
    let mut s = ByteStream::with_size(1);
    assert!(s.begin_pull());
    let mut last = s.item_size();
    for n in [3usize, 1, 0, 100, 2, 64, 65, 1000, 5] {
        let _ = s.on_record(&vec![b'y'; n]);
        assert!(s.item_size() >= last);
        last = s.item_size();
    }
    assert_eq!(last, 1024);
}

#[test]
fn item_count_counts_records() {
    let mut s = ByteStream::new();
    assert_eq!(s.item_count(), 0);
    assert!(s.begin_pull());
    let _ = s.on_record(b"1");
    let _ = s.on_record(b"2");
    assert_eq!(s.item_count(), 2);
    assert_eq!(s.state(), State::NonEmpty);
}

#[test]
fn states_follow_the_pulls() {
    let mut s = ByteStream::new();
    assert_eq!(s.state(), State::Unused);
    assert!(s.begin_pull());
    assert_eq!(s.state(), State::Empty);
    let _ = s.on_record(b"1");
    assert_eq!(s.state(), State::NonEmpty);
    let _ = s.on_end();
    assert_eq!(s.state(), State::Done);
}

#[test]
fn room_checks_on_small_inputs() {
    let mut s = ByteStream::new();
    assert!(s.begin_pull());
    assert!(s.has_room_for(b"abc"));
    assert!(s.has_room_for(b""));
    assert!(s.has_room_to_close());
}

