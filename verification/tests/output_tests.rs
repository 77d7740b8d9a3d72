use ddog::output::{frame_line, NdjsonWriter};

#[test]
fn a_line_is_the_record_and_one_newline() {
    assert_eq!(frame_line("{\"a\":1}"), "{\"a\":1}\n");
    assert_eq!(frame_line(""), "\n");
    assert_eq!(frame_line("{\"text\":\"caf\u{e9}\"}"), "{\"text\":\"caf\u{e9}\"}\n");
}

#[test]
fn the_writer_holds_lines_in_order_until_taken() {
    let mut w = NdjsonWriter::new();
    assert_eq!(w.len(), 0);
    w.write("{\"a\":1}");
    w.write("{\"b\":2}");
    assert_eq!(w.len(), 2);
    assert_eq!(w.take_lines(), vec!["{\"a\":1}\n".to_string(), "{\"b\":2}\n".to_string()]);
    assert_eq!(w.len(), 0);
    assert!(w.take_lines().is_empty());
    w.write("{}");
    assert_eq!(w.take_lines(), vec!["{}\n".to_string()]);
}

#[test]
fn the_default_writer_is_empty() {
    let mut w = NdjsonWriter::default();
    assert_eq!(w.len(), 0);
    assert!(w.take_lines().is_empty());
}

#[test]
fn a_record_read_back_from_its_line_is_the_same() {
    let mut tags = Vec::new();
    tags.push(serde_json::Value::String("env:prod".to_string()));
    tags.push(serde_json::Value::String("line\nbreak \"quoted\"".to_string()));
    let mut record = serde_json::Map::new();
    record.insert("metric".to_string(), serde_json::Value::String("system.cpu.user".to_string()));
    record.insert("scope".to_string(), serde_json::Value::String("host:a,env:b".to_string()));
    record.insert("tag_set".to_string(), serde_json::Value::Array(tags));
    record.insert("timestamp".to_string(), serde_json::Value::from(1_705_315_200i64));
    record.insert("value".to_string(), serde_json::Value::from(0.1f64 + 0.2f64));
    record.insert("query_index".to_string(), serde_json::Value::from(-3i64));
    let record = serde_json::Value::Object(record);

    let mut w = NdjsonWriter::new();
    w.write(&serde_json::to_string(&record).unwrap());
    let lines = w.take_lines();
    assert_eq!(lines.len(), 1);
    let line = &lines[0];
    assert!(line.ends_with('\n'));
    assert_eq!(line.matches('\n').count(), 1);
    let back: serde_json::Value = serde_json::from_str(&line[..line.len() - 1]).unwrap();
    assert_eq!(back, record);
    assert_eq!(back["value"].as_f64(), Some(0.1f64 + 0.2f64));
}
