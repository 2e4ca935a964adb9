use mist_core::parse::msf::{
    frame_document, read_document, schema_of, LegacyRun, MsfDocument, MsfError, MsfParser, RunV1,
    Schema,
};
use mist_core::parse::sanify_run;
use mist_core::timer::run::Run;
use ron::Value;

const V1RUN: &[u8] = b"version 1\n
        (
            game_title: \"test\",
            category: \"test\",
            offset: Some(200),
            pb: 1234,
            splits: [\"test\"],
            pb_times: [1234],
            gold_times: [1234],
            sum_times: [(2, 2480)],
        )";

const LEGACYRUN: &[u8] = b"(
        game_title: \"test\",
        category: \"test\",
        offset: Some(200),
        pb: 1234,
        splits: [\"test\"],
        pb_times: [1234],
        gold_times: [1234],
    )";

const INSANE_RUN: &[u8] = b"version 1\n
        (
            game_title: \"test\",
            category: \"test\",
            offset: Some(200),
            pb: 1234,
            splits: [\"test\", \"test2\"],
            pb_times: [1234],
            gold_times: [1234],
            sum_times: [(2, 1234)],
        )";

fn field<'a>(record: &'a Value, name: &str) -> Option<&'a Value> {
    match record {
        Value::Map(map) => map
            .iter()
            .find(|(key, _)| matches!(key, Value::String(s) if s == name))
            .map(|(_, value)| value),
        _ => None,
    }
}

fn number(value: &Value) -> Result<u128, String> {
    match value {
        Value::Number(n) => match n.as_i64() {
            Some(i) if i >= 0 => Ok(i as u128),
            _ => Err("not a duration".to_string()),
        },
        _ => Err("not a number".to_string()),
    }
}

fn text(value: &Value) -> Result<String, String> {
    match value {
        Value::String(s) => Ok(s.clone()),
        _ => Err("not a string".to_string()),
    }
}

fn list<T>(value: &Value, item: fn(&Value) -> Result<T, String>) -> Result<Vec<T>, String> {
    match value {
        Value::Seq(items) => items.iter().map(item).collect(),
        _ => Err("not a list".to_string()),
    }
}

fn pair(value: &Value) -> Result<(u128, u128), String> {
    match value {
        Value::Seq(items) if items.len() == 2 => Ok((number(&items[0])?, number(&items[1])?)),
        _ => Err("not a pair".to_string()),
    }
}

fn lead_in(value: &Value) -> Result<Option<u128>, String> {
    match value {
        Value::Option(Some(inner)) => Ok(Some(number(inner)?)),
        Value::Option(None) => Ok(None),
        _ => Err("not an option".to_string()),
    }
}

fn required<'a>(record: &'a Value, name: &str) -> Result<&'a Value, String> {
    field(record, name).ok_or(format!("missing field {}", name))
}

fn decode_legacy(record: &Value) -> Result<LegacyRun, String> {
    Ok(LegacyRun {
        game_title: text(required(record, "game_title")?)?,
        category: text(required(record, "category")?)?,
        offset: lead_in(required(record, "offset")?)?,
        pb: number(required(record, "pb")?)?,
        splits: list(required(record, "splits")?, text)?,
        pb_times: list(required(record, "pb_times")?, number)?,
        gold_times: list(required(record, "gold_times")?, number)?,
    })
}

fn decode_v1(record: &Value) -> Result<RunV1, String> {
    Ok(RunV1 {
        game_title: text(required(record, "game_title")?)?,
        category: text(required(record, "category")?)?,
        offset: lead_in(required(record, "offset")?)?,
        pb: number(required(record, "pb")?)?,
        splits: list(required(record, "splits")?, text)?,
        pb_times: list(required(record, "pb_times")?, number)?,
        gold_times: list(required(record, "gold_times")?, number)?,
        sum_times: list(required(record, "sum_times")?, pair)?,
    })
}

/// Reads a record as the timer does: the library takes the file apart and
/// migrates the record, the RON crate decodes the body.
fn parse(contents: &[u8]) -> Result<Run, String> {
    let MsfDocument { version, data } = read_document(contents).map_err(|e| e.message())?;
    let body = String::from_utf8(data).map_err(|e| e.to_string())?;
    let value: Value = ron::from_str(&body).map_err(|e| e.to_string())?;
    let run = match schema_of(version) {
        Schema::V1 => decode_v1(&value)?.into_run(),
        Schema::Current => decode_v1(&value)?.into_run(),
        Schema::Legacy => decode_legacy(&value)?.into_run(),
    };
    Ok(sanify_run(&run))
}

#[test]
fn test_parse() {
    let run = parse(V1RUN);
    println!("{:?}", run.as_ref().map(|r| r.pb()));
    assert!(run.is_ok());
    let run = run.unwrap();
    assert_eq!(run.game_title(), "test");
    assert_eq!(run.offset(), Some(200));
    assert_eq!(run.pb(), 1234);
    assert_eq!(run.sum_times().to_owned(), vec![(2, 2480)]);
}

#[test]
fn test_parse_legacy() {
    let run = parse(LEGACYRUN);
    assert!(run.is_ok());
    let run = run.unwrap();
    assert_eq!(run.pb_times().to_owned(), vec![1234]);
    assert_eq!(run.gold_times().to_owned(), vec![1234]);
    assert_eq!(run.sum_times().to_owned(), vec![(1, 1234)]);
}

#[test]
fn test_sanity_check() {
    let run = parse(INSANE_RUN);
    assert!(run.is_ok());
    let run = run.unwrap();
    assert_eq!(run.gold_times().to_owned(), vec![1234, 0]);
    assert_eq!(run.pb_times().to_owned(), vec![1234, 0]);
    assert_eq!(run.sum_times().to_owned(), vec![(2, 1234), (0, 0)]);
}

#[test]
fn empty_file_is_refused() {
    let document = read_document(b"");
    assert!(matches!(document, Err(MsfError::Empty)));
    assert_eq!(MsfError::Empty.message(), "Input was empty.");
    assert_eq!(parse(b"").err(), Some("Input was empty.".to_string()));
}

#[test]
fn version_line_is_left_out_of_the_body() {
    let document = read_document(b"version 2\n(a: 1)\n").unwrap();
    assert_eq!(document.version, 2);
    assert_eq!(document.data, b"(a: 1)\n".to_vec());
    assert_eq!(schema_of(document.version), Schema::Current);
}

#[test]
fn file_without_version_keeps_its_first_line() {
    let document = read_document(b"(\n a: 1,\n)").unwrap();
    assert_eq!(document.version, 0);
    assert_eq!(document.data, b"( a: 1,\n)\n".to_vec());
    assert_eq!(schema_of(document.version), Schema::Legacy);
}

#[test]
fn carriage_returns_before_line_feeds_are_dropped() {
    let document = read_document(b"version 1\r\n(\r\n a: \"x\ry\",\r\r\n)\r").unwrap();
    assert_eq!(document.version, 1);
    assert_eq!(document.data, b"(\n a: \"x\ry\",\r\n)\r\n".to_vec());
}

#[test]
fn single_line_file_is_its_own_body() {
    let document = read_document(b"(a:1)").unwrap();
    assert_eq!(document.version, 0);
    assert_eq!(document.data, b"(a:1)".to_vec());
    let document = read_document(b"\n").unwrap();
    assert_eq!(document.version, 0);
    assert_eq!(document.data, Vec::<u8>::new());
    let document = read_document(b"version 2").unwrap();
    assert_eq!(document.version, 2);
    assert_eq!(document.data, Vec::<u8>::new());
}

#[test]
fn version_is_the_number_after_the_last_space() {
    let version = |line: &[u8]| read_document(line).unwrap().version;
    assert_eq!(version(b"version 1\n"), 1);
    assert_eq!(version(b"version 2\n"), 2);
    assert_eq!(version(b"version +2\n"), 2);
    assert_eq!(version(b"version 007\n"), 7);
    assert_eq!(version(b"a b c 31\n"), 31);
    assert_eq!(version(b" 5\n"), 5);
    assert_eq!(version(b"version 4294967295\n"), 4294967295);
    assert_eq!(version(b"version 4294967296\n"), 0);
    assert_eq!(version(b"version 99999999999999999999999999\n"), 0);
    assert_eq!(version(b"version 42949672960x\n"), 0);
    assert_eq!(version(b"version -2\n"), 0);
    assert_eq!(version(b"version ++2\n"), 0);
    assert_eq!(version(b"version +\n"), 0);
    assert_eq!(version(b"version 2 \n"), 0);
    assert_eq!(version(b"version 2x\n"), 0);
    assert_eq!(version(b"version2\n"), 0);
    assert_eq!(version(b"2\n"), 0);
    assert_eq!(version(b"version \n"), 0);
}

#[test]
fn every_version_has_a_schema() {
    assert_eq!(schema_of(0), Schema::Legacy);
    assert_eq!(schema_of(1), Schema::V1);
    assert_eq!(schema_of(2), Schema::Current);
    assert_eq!(schema_of(3), Schema::Legacy);
    assert_eq!(schema_of(u32::MAX), Schema::Legacy);
}

#[test]
fn framed_record_reads_back_as_current() {
    let body = b"(\n    pb: 5,\n)";
    let contents = frame_document(body);
    assert_eq!(contents, b"version 2\n(\n    pb: 5,\n)".to_vec());
    let document = read_document(&contents).unwrap();
    assert_eq!(document.version, 2);
    assert_eq!(document.data, b"(\n    pb: 5,\n)\n".to_vec());
    assert_eq!(frame_document(b""), b"version 2\n".to_vec());
}

#[test]
fn legacy_record_gets_one_sample_per_segment() {
    let legacy = LegacyRun {
        game_title: "g".to_string(),
        category: "c".to_string(),
        offset: None,
        pb: 30,
        splits: vec!["a".to_string(), "b".to_string()],
        pb_times: vec![10, 20],
        gold_times: vec![9, 19],
    };
    let run = legacy.into_run();
    assert_eq!(run.game_title(), "g");
    assert_eq!(run.category(), "c");
    assert_eq!(run.offset(), None);
    assert_eq!(run.pb(), 30);
    assert_eq!(run.splits(), &vec!["a".to_string(), "b".to_string()]);
    assert_eq!(run.pb_times(), &vec![10, 20]);
    assert_eq!(run.gold_times(), &vec![9, 19]);
    assert_eq!(run.sum_times(), &vec![(1, 10), (1, 20)]);
}

#[test]
fn parser_remembers_its_file() {
    let parser = MsfParser::new("runs/any.msf".to_string());
    assert_eq!(parser.filename(), "runs/any.msf");
}
