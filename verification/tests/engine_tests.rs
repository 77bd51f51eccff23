use bpfquery::engine::{EngineState, Phase, StreamLine};
use bpfquery::session::SessionController;

fn headers(names: &[&str]) -> Vec<String> {
    names.iter().map(|s| s.to_string()).collect()
}

fn out(line: &str) -> StreamLine {
    StreamLine::StdoutLine(line.to_string())
}

#[test]
fn scripted_transcript_grows_monotonically() {
    let mut st = EngineState::new(headers(&["comm", "pid"]));

    let p0 = st.step_line(&out("{\"type\":\"attached_probes\",\"probes\":1}"));
    assert!(!p0);
    assert_eq!(st.rows.len(), 0);

    let p1 = st.step_line(&out("{\"data\":[[0,\"bash\"],[\"id\",1],[1,42]]}"));
    assert!(p1);
    let snap1 = st.rows.clone();
    assert_eq!(snap1, vec![vec!["1", "\"bash\"", "42"]
        .into_iter()
        .map(|s| s.to_string())
        .collect::<Vec<_>>()]);

    let p2 = st.step_line(&out("{\"data\":[[\"id\",2],[1,43],[0,\"cat\"]]}"));
    assert!(p2);
    let snap2 = st.rows.clone();
    assert_eq!(snap2.len(), 2);
    // the earlier snapshot is a strict prefix of the later one
    assert_eq!(&snap2[..snap1.len()], &snap1[..]);
    // keys arrive in arbitrary order; values are reattached by position
    assert_eq!(snap2[1], vec!["2".to_string(), "\"cat\"".to_string(), "43".to_string()]);

    let p3 = st.step_line(&out("{\"type\":\"map\",\"data\":{}}"));
    assert!(p3);
    assert_eq!(st.rows.len(), 3);
    assert_eq!(&st.rows[..snap2.len()], &snap2[..]);
    assert_eq!(st.rows[2], vec!["DONE".to_string()]);
    assert_eq!(st.phase, Phase::Done);
}

#[test]
fn stderr_replaces_everything_with_one_error_row() {
    let mut st = EngineState::new(headers(&["comm"]));
    st.step_line(&out("{\"data\":[[0,\"bash\"],[\"id\",1]]}"));
    assert_eq!(st.rows.len(), 1);

    let p = st.step_line(&StreamLine::StderrLine("cannot attach probe".to_string()));
    assert!(p);
    assert_eq!(st.rows, vec![vec!["cannot attach probe".to_string()]]);
    assert_eq!(st.phase, Phase::Errored);

    // terminal: further lines change nothing and publish nothing
    let p2 = st.step_line(&out("{\"data\":[[0,\"zsh\"],[\"id\",2]]}"));
    assert!(!p2);
    assert_eq!(st.rows, vec![vec!["cannot attach probe".to_string()]]);
    let p3 = st.step_line(&StreamLine::StdoutEof);
    assert!(!p3);
    assert_eq!(st.rows.len(), 1);
}

#[test]
fn empty_output_line_is_ignored() {
    let mut st = EngineState::new(headers(&["comm"]));
    let p = st.step_line(&out(""));
    assert!(!p);
    assert_eq!(st.rows.len(), 0);
    assert_eq!(st.phase, Phase::Streaming);
}

#[test]
fn unparseable_line_is_a_fatal_protocol_error() {
    let mut st = EngineState::new(headers(&["comm"]));
    st.step_line(&out("{\"data\":[[0,\"bash\"],[\"id\",1]]}"));
    let p = st.step_line(&out("this is not json"));
    assert!(p);
    assert_eq!(st.rows, vec![vec!["protocol error".to_string()]]);
    assert_eq!(st.phase, Phase::Errored);
}

#[test]
fn missing_data_array_is_a_protocol_error() {
    let mut st = EngineState::new(headers(&["comm"]));
    let p = st.step_line(&out("{\"type\":\"something\"}"));
    assert!(p);
    assert_eq!(st.phase, Phase::Errored);
}

#[test]
fn out_of_range_positional_key_is_a_protocol_error() {
    let mut st = EngineState::new(headers(&["comm"]));
    let p = st.step_line(&out("{\"data\":[[5,\"bash\"],[\"id\",1]]}"));
    assert!(p);
    assert_eq!(st.rows, vec![vec!["protocol error".to_string()]]);
    assert_eq!(st.phase, Phase::Errored);
}

#[test]
fn missing_column_value_is_a_protocol_error() {
    let mut st = EngineState::new(headers(&["comm", "pid"]));
    let p = st.step_line(&out("{\"data\":[[0,\"bash\"],[\"id\",1]]}"));
    assert!(p);
    assert_eq!(st.rows, vec![vec!["protocol error".to_string()]]);
    assert_eq!(st.phase, Phase::Errored);
}

#[test]
fn non_integer_id_is_a_protocol_error() {
    let mut st = EngineState::new(headers(&["comm"]));
    let p = st.step_line(&out("{\"data\":[[0,\"bash\"],[\"id\",\"x\"]]}"));
    assert!(p);
    assert_eq!(st.rows, vec![vec!["protocol error".to_string()]]);
    assert_eq!(st.phase, Phase::Errored);
}

#[test]
fn non_integer_number_key_is_a_protocol_error() {
    let mut st = EngineState::new(headers(&["comm"]));
    let p = st.step_line(&out("{\"data\":[[0.5,\"bash\"],[\"id\",1]]}"));
    assert!(p);
    assert_eq!(st.rows, vec![vec!["protocol error".to_string()]]);
    assert_eq!(st.phase, Phase::Errored);
}

#[test]
fn lost_events_line_is_ignored() {
    let mut st = EngineState::new(headers(&["comm"]));
    let p = st.step_line(&out("{\"type\":\"lost_events\",\"events\":7}"));
    assert!(!p);
    assert_eq!(st.rows.len(), 0);
    assert_eq!(st.phase, Phase::Streaming);
}

#[test]
fn missing_id_defaults_to_zero() {
    let mut st = EngineState::new(headers(&["comm"]));
    let p = st.step_line(&out("{\"data\":[[0,\"bash\"]]}"));
    assert!(p);
    assert_eq!(st.rows, vec![vec!["0".to_string(), "\"bash\"".to_string()]]);
}

#[test]
fn duplicate_header_names_share_the_staged_value() {
    let mut st = EngineState::new(headers(&["x", "x"]));
    let p = st.step_line(&out("{\"data\":[[0,1],[1,2],[\"id\",9]]}"));
    assert!(p);
    // the later entry wins for both positions carrying the same name
    assert_eq!(
        st.rows,
        vec![vec!["9".to_string(), "2".to_string(), "2".to_string()]]
    );
}

#[test]
fn output_end_of_input_appends_completion_marker() {
    let mut st = EngineState::new(headers(&["comm"]));
    st.step_line(&out("{\"data\":[[0,\"bash\"],[\"id\",1]]}"));
    let p = st.step_line(&StreamLine::StdoutEof);
    assert!(p);
    assert_eq!(st.rows.len(), 2);
    assert_eq!(st.rows[1], vec!["Done".to_string()]);
    assert_eq!(st.phase, Phase::Done);
}

#[test]
fn numeric_values_render_without_quotes() {
    let mut st = EngineState::new(headers(&["n", "b"]));
    let p = st.step_line(&out("{\"data\":[[0,123],[1,true],[\"id\",4]]}"));
    assert!(p);
    assert_eq!(
        st.rows,
        vec![vec!["4".to_string(), "123".to_string(), "true".to_string()]]
    );
}

#[test]
fn restart_yields_an_empty_stream() {
    let mut ctl = SessionController::new();
    let restarted = ctl.update_compiled("prog one".to_string(), headers(&["comm"]));
    assert!(restarted);
    assert_eq!(ctl.session.rows.len(), 0);

    // fill the running session with rows
    ctl.session
        .step_line(&out("{\"data\":[[0,\"bash\"],[\"id\",1]]}"));
    assert_eq!(ctl.session.rows.len(), 1);

    // an unchanged compilation keeps the session and its rows
    let same = ctl.update_compiled("prog one".to_string(), headers(&["comm"]));
    assert!(!same);
    assert_eq!(ctl.session.rows.len(), 1);

    // an edited query replaces the session; nothing leaks over
    let changed = ctl.update_compiled("prog two".to_string(), headers(&["comm"]));
    assert!(changed);
    assert_eq!(ctl.session.rows.len(), 0);
    assert_eq!(ctl.session.phase, Phase::Streaming);
    assert_eq!(ctl.program, "prog two");
}

#[test]
fn changed_headers_alone_force_a_restart() {
    let mut ctl = SessionController::new();
    ctl.update_compiled("p".to_string(), headers(&["a"]));
    ctl.session
        .step_line(&out("{\"data\":[[0,1],[\"id\",1]]}"));
    assert_eq!(ctl.session.rows.len(), 1);
    let restarted = ctl.update_compiled("p".to_string(), headers(&["a", "b"]));
    assert!(restarted);
    assert_eq!(ctl.session.rows.len(), 0);
    assert_eq!(ctl.session.headers, headers(&["a", "b"]));
}
