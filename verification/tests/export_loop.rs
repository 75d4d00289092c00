use imessage_database::exporter::export_loop::{
    export_step, initial_export_state, plan_export, ExportAction, ExportState, RowInfo,
};

#[test]
fn export_first_row_is_rendered() {
    let state = initial_export_state();
    assert_eq!(state, ExportState { current_message_row: -1, current_message: 0 });
    let step = export_step(state, 7, false, false);
    assert_eq!(step.action, ExportAction::Message);
    assert_eq!(step.state, ExportState { current_message_row: 7, current_message: 1 });
    assert!(!step.update_progress);
}

#[test]
fn export_repeated_row_is_skipped() {
    let first = export_step(initial_export_state(), 7, false, false);
    let again = export_step(first.state, 7, true, false);
    assert_eq!(again.action, ExportAction::Skip);
    assert_eq!(again.state, ExportState { current_message_row: 7, current_message: 2 });
    assert!(!again.update_progress);
}

#[test]
fn export_announcement_and_reaction() {
    let state = ExportState { current_message_row: 1, current_message: 5 };
    assert_eq!(export_step(state, 2, true, false).action, ExportAction::Announcement);
    assert_eq!(export_step(state, 2, true, true).action, ExportAction::Announcement);
    assert_eq!(export_step(state, 2, false, true).action, ExportAction::Nothing);
}

#[test]
fn export_progress_moves_every_ninety_nine_rows() {
    let state = ExportState { current_message_row: 1, current_message: 98 };
    assert!(export_step(state, 2, false, false).update_progress);
    let skipped = export_step(state, 1, false, false);
    assert_eq!(skipped.state.current_message, 99);
    assert!(!skipped.update_progress);
    let later = ExportState { current_message_row: 1, current_message: 99 };
    assert!(!export_step(later, 2, false, false).update_progress);
}

fn row(rowid: i32, is_announcement: bool, is_reaction: bool) -> RowInfo {
    RowInfo { rowid, is_announcement, is_reaction }
}

#[test]
fn export_plan_over_rows() {
    let rows = vec![
        row(1, false, false),
        row(1, false, false),
        row(2, true, false),
        row(3, false, true),
        row(3, false, false),
        row(1, false, false),
    ];
    assert_eq!(
        plan_export(&rows),
        vec![
            ExportAction::Message,
            ExportAction::Skip,
            ExportAction::Announcement,
            ExportAction::Nothing,
            ExportAction::Skip,
            ExportAction::Message,
        ]
    );
    assert_eq!(plan_export(&[]), vec![]);
}
