use weave::popup::{AgentMentionPopup, AliasMatch};
use weave::transcript::{CellKind, NewCell, Transcript, TranscriptAction};

fn cell(cell: u64) -> NewCell {
    NewCell {
        cell,
        visible: true,
    }
}

#[test]
fn a_line_is_drawn_after_work() {
    let mut transcript = Transcript::new(None);
    assert_eq!(
        transcript.handle_exec_begin(1, false),
        vec![TranscriptAction::Redraw]
    );
    assert_eq!(
        transcript.handle_exec_end(true),
        vec![TranscriptAction::Insert(1)]
    );
    assert_eq!(
        transcript.handle_streaming_delta(false),
        vec![TranscriptAction::InsertSeparator, TranscriptAction::Redraw]
    );
    assert!(transcript.handle_streaming_delta(true).is_empty());
    transcript.add_boxed_history(cell(2), true);
    assert!(transcript.handle_streaming_delta(false).is_empty());
}

#[test]
fn commands_join_those_that_are_shown() {
    let mut transcript = Transcript::new(None);
    transcript.handle_exec_begin(1, false);
    let first = transcript.active_cell_transcript_key();
    assert_eq!(
        transcript.handle_exec_begin(2, true),
        vec![TranscriptAction::Redraw]
    );
    assert_ne!(transcript.active_cell_transcript_key(), first);
    assert_eq!(
        transcript.handle_exec_begin(3, false),
        vec![TranscriptAction::Insert(2), TranscriptAction::Redraw]
    );
}

#[test]
fn the_header_waits_for_the_session() {
    let mut transcript = Transcript::new(Some(1));
    assert_eq!(
        transcript.add_boxed_history(cell(2), false),
        vec![TranscriptAction::Insert(2)]
    );
    assert_eq!(transcript.active.map(|active| active.kind), Some(CellKind::Header));
    assert_eq!(
        transcript.apply_session_info_cell(cell(3), true),
        vec![TranscriptAction::Insert(3)]
    );
    assert_eq!(transcript.active, None);
}

#[test]
fn what_fails_is_marked() {
    let mut transcript = Transcript::new(None);
    transcript.handle_mcp_begin(5);
    assert_eq!(
        transcript.finalize_active_cell_as_failed(true, true),
        vec![TranscriptAction::MarkFailed(5), TranscriptAction::Insert(5)]
    );
    assert!(transcript.finalize_active_cell_as_failed(true, true).is_empty());
}

#[test]
fn a_call_that_did_not_begin_is_shown_when_it_ends() {
    let mut transcript = Transcript::new(None);
    transcript.handle_exec_begin(1, false);
    assert_eq!(
        transcript.handle_mcp_end(2, false, Some(cell(3)), true),
        vec![
            TranscriptAction::Insert(1),
            TranscriptAction::Insert(2),
            TranscriptAction::Insert(3)
        ]
    );
    assert!(transcript.worked);
}

#[test]
fn output_is_shown_where_commands_are() {
    let mut transcript = Transcript::new(None);
    assert!(transcript.on_exec_command_output_delta(true).is_empty());
    transcript.open_exec(1);
    assert_eq!(
        transcript.on_exec_command_output_delta(true),
        vec![TranscriptAction::Redraw]
    );
    assert!(transcript.on_exec_command_output_delta(false).is_empty());
}

fn aliases(names: &[&str]) -> Vec<String> {
    names.iter().map(|name| name.to_string()).collect()
}

fn fit(score: i32) -> Option<AliasMatch> {
    Some(AliasMatch {
        indices: Some(vec![0]),
        score,
    })
}

#[test]
fn all_names_are_shown_until_something_is_written() {
    let mut popup = AgentMentionPopup::new(aliases(&["b", "a", "c"]), 2);
    assert_eq!(popup.selected_alias(), None);
    popup.set_query(" ", vec![]);
    assert_eq!(popup.selected_alias(), Some("b"));
    let names: Vec<String> = popup.rows().into_iter().map(|row| row.name).collect();
    assert_eq!(names, vec!["b", "a", "c"]);
    assert_eq!(popup.calculate_required_height(), 4);
}

#[test]
fn the_best_fit_comes_first() {
    let mut popup = AgentMentionPopup::new(aliases(&["b", "a", "c", "d"]), 8);
    popup.set_query("x", vec![fit(2), fit(2), fit(1), None]);
    let rows = popup.rows();
    let names: Vec<&str> = rows.iter().map(|row| row.name.as_str()).collect();
    assert_eq!(names, vec!["c", "a", "b"]);
    assert_eq!(rows[0].match_indices, Some(vec![0]));
    assert_eq!(popup.selected_alias(), Some("c"));
}

#[test]
fn the_selection_goes_round() {
    let mut popup = AgentMentionPopup::new(aliases(&["a", "b", "c"]), 2);
    popup.set_query("", vec![]);
    popup.move_up();
    assert_eq!(popup.selected_alias(), Some("c"));
    popup.move_down();
    assert_eq!(popup.selected_alias(), Some("a"));
    popup.move_down();
    popup.move_up();
    assert_eq!(popup.selected_alias(), Some("a"));
    popup.set_aliases(vec![], vec![]);
    assert_eq!(popup.selected_alias(), None);
    popup.move_down();
    assert_eq!(popup.selected_alias(), None);
    assert_eq!(popup.calculate_required_height(), 3);
}

#[test]
fn no_line_is_drawn_where_none_is_due() {
    let mut transcript = Transcript::new(None);
    transcript.mark_work();
    transcript.add_boxed_history(cell(1), false);
    transcript.reset_separator();
    assert!(!transcript
        .handle_streaming_delta(false)
        .contains(&TranscriptAction::InsertSeparator));
    let mut transcript = Transcript::new(None);
    transcript.mark_work();
    transcript.add_boxed_history(cell(1), false);
    assert!(transcript
        .handle_streaming_delta(false)
        .contains(&TranscriptAction::InsertSeparator));
}
