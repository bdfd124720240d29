use history_export::codec::{load_state, parse_state, render_state};
use history_export::error::ExportError;
use history_export::state::State;

#[test]
fn render_is_exact() {
    let s = State { last_run: 11, last_sync: 22, last_history_id: 33 };
    let text = render_state(&s);
    assert_eq!(text, "{\"last_run\":11,\"last_sync\":22,\"last_history_id\":33}");
}

#[test]
fn round_trip_small() {
    let s = State { last_run: 11, last_sync: 22, last_history_id: 33 };
    let text = render_state(&s);
    assert_eq!(parse_state(&text), Ok(s));
}

#[test]
fn round_trip_zero() {
    let s = State { last_run: 0, last_sync: 0, last_history_id: 0 };
    let text = render_state(&s);
    assert_eq!(text, "{\"last_run\":0,\"last_sync\":0,\"last_history_id\":0}");
    assert_eq!(parse_state(&text), Ok(s));
}

#[test]
fn round_trip_max() {
    let s = State {
        last_run: u64::MAX,
        last_sync: u64::MAX,
        last_history_id: u64::MAX,
    };
    let text = render_state(&s);
    assert_eq!(parse_state(&text), Ok(s));
}

#[test]
fn parse_rejects_garbage() {
    assert_eq!(parse_state("nonsense"), Err(ExportError::StateCorrupt));
}

#[test]
fn parse_rejects_empty() {
    assert_eq!(parse_state(""), Err(ExportError::StateCorrupt));
}

#[test]
fn parse_rejects_leading_zero() {
    let text = "{\"last_run\":007,\"last_sync\":0,\"last_history_id\":0}";
    assert_eq!(parse_state(text), Err(ExportError::StateCorrupt));
}

#[test]
fn parse_rejects_value_above_u64() {
    let text = "{\"last_run\":18446744073709551616,\"last_sync\":0,\"last_history_id\":0}";
    assert_eq!(parse_state(text), Err(ExportError::StateCorrupt));
}

#[test]
fn parse_accepts_u64_max_value() {
    let text = "{\"last_run\":18446744073709551615,\"last_sync\":0,\"last_history_id\":0}";
    assert_eq!(
        parse_state(text),
        Ok(State { last_run: u64::MAX, last_sync: 0, last_history_id: 0 })
    );
}

#[test]
fn parse_rejects_trailing_text() {
    let text = "{\"last_run\":1,\"last_sync\":2,\"last_history_id\":3} ";
    assert_eq!(parse_state(text), Err(ExportError::StateCorrupt));
}

#[test]
fn parse_rejects_non_ascii_noise() {
    assert_eq!(
        parse_state("{\"last_run\":é,\"last_sync\":0,\"last_history_id\":0}"),
        Err(ExportError::StateCorrupt)
    );
}

#[test]
fn parse_rejects_missing_field() {
    let text = "{\"last_run\":1,\"last_sync\":2}";
    assert_eq!(parse_state(text), Err(ExportError::StateCorrupt));
}

#[test]
fn load_defaults_when_file_absent() {
    assert_eq!(
        load_state(None),
        Ok(State { last_run: 0, last_sync: 0, last_history_id: 0 })
    );
}

#[test]
fn load_parses_present_content() {
    let text = "{\"last_run\":5,\"last_sync\":6,\"last_history_id\":7}";
    assert_eq!(
        load_state(Some(text)),
        Ok(State { last_run: 5, last_sync: 6, last_history_id: 7 })
    );
    assert_eq!(load_state(Some("{}")), Err(ExportError::StateCorrupt));
}
