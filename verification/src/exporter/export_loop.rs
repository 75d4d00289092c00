//! The decisions the exporters make for each message row they stream from the database.
//!
//! The exporters read the rows, render and write; for each row they ask `export_step` what
//! to do with it, and carry the state it gives back to the next row.

use vstd::prelude::*;

verus! {

/// What the exporter has seen so far: the id of the last row it handled (`-1` before the
/// first), and how many rows it has counted.
#[derive(Debug, Clone, Copy, PartialEq, Eq, Structural)]
pub struct ExportState {
    pub current_message_row: i32,
    pub current_message: u64,
}

/// What to do with one row.
#[derive(Debug, Clone, Copy, PartialEq, Eq, Structural)]
pub enum ExportAction {
    /// The row repeats the one before it: nothing is rendered.
    Skip,
    /// Render the row as an announcement.
    Announcement,
    /// Render the row as a message.
    Message,
    /// A reaction: it is rendered with the message it reacts to, not on its own.
    Nothing,
}

/// The decision for one row, and whether the progress bar is to move.
#[derive(Debug, Clone, Copy, PartialEq, Eq, Structural)]
pub struct ExportStep {
    pub state: ExportState,
    pub action: ExportAction,
    pub update_progress: bool,
}

/// The state before the first row.
pub open spec fn initial_state() -> ExportState {
    ExportState { current_message_row: -1i32, current_message: 0u64 }
}

/// What the exporter does with a row of id `rowid`: a row with the same id as the last one
/// is skipped; otherwise an announcement is rendered as one, a reaction is left for its
/// message, and anything else is rendered as a message. Every row is counted, and the
/// progress bar moves when a row that is not skipped brings the count to a multiple of 99.
pub open spec fn spec_export_step(state: ExportState, rowid: i32, is_announcement: bool, is_reaction: bool) -> ExportStep {
    let count = (state.current_message + 1) as u64;
    if rowid == state.current_message_row {
        ExportStep {
            state: ExportState { current_message_row: state.current_message_row, current_message: count },
            action: ExportAction::Skip,
            update_progress: false,
        }
    } else {
        ExportStep {
            state: ExportState { current_message_row: rowid, current_message: count },
            action: if is_announcement {
                ExportAction::Announcement
            } else if !is_reaction {
                ExportAction::Message
            } else {
                ExportAction::Nothing
            },
            update_progress: count % 99 == 0,
        }
    }
}

/// The state before the first row
pub fn initial_export_state() -> (state: ExportState)
    ensures
        state == initial_state(),
{
    ExportState { current_message_row: -1, current_message: 0 }
}

/// Decides what to do with the row of id `rowid`, given what was seen before it
pub fn export_step(state: ExportState, rowid: i32, is_announcement: bool, is_reaction: bool) -> (step: ExportStep)
    requires
        state.current_message < u64::MAX,
    ensures
        step == spec_export_step(state, rowid, is_announcement, is_reaction),
{
    let count = state.current_message + 1;
    if rowid == state.current_message_row {
        return ExportStep {
            state: ExportState { current_message_row: state.current_message_row, current_message: count },
            action: ExportAction::Skip,
            update_progress: false,
        };
    }
    let action = if is_announcement {
        ExportAction::Announcement
    } else if !is_reaction {
        ExportAction::Message
    } else {
        ExportAction::Nothing
    };
    ExportStep {
        state: ExportState { current_message_row: rowid, current_message: count },
        action,
        update_progress: count % 99 == 0,
    }
}

/// A row is never rendered twice in a row: once a row has been handled, a row with the same
/// id right after it is skipped, whatever it is. Reactions are never rendered on their own,
/// and each row adds one to the count.
pub proof fn lemma_no_row_twice(
    state: ExportState,
    rowid: i32,
    is_announcement: bool,
    is_reaction: bool,
    again_announcement: bool,
    again_reaction: bool,
)
    requires
        state.current_message < u64::MAX - 1,
    ensures
        spec_export_step(
            spec_export_step(state, rowid, is_announcement, is_reaction).state,
            rowid,
            again_announcement,
            again_reaction,
        ).action == ExportAction::Skip,
        is_reaction && !is_announcement ==> spec_export_step(
            state,
            rowid,
            is_announcement,
            is_reaction,
        ).action != ExportAction::Message,
        spec_export_step(state, rowid, is_announcement, is_reaction).state.current_message
            == state.current_message + 1,
{
}

/// What the exporter needs to know of a row to decide what to do with it.
#[derive(Debug, Clone, Copy, PartialEq, Eq, Structural)]
pub struct RowInfo {
    pub rowid: i32,
    pub is_announcement: bool,
    pub is_reaction: bool,
}

/// The actions the exporter takes for the rows, in order, starting from `state`.
pub open spec fn export_actions(rows: Seq<RowInfo>, state: ExportState) -> Seq<ExportAction>
    decreases rows.len(),
{
    if rows.len() == 0 {
        seq![]
    } else {
        let step = spec_export_step(state, rows[0].rowid, rows[0].is_announcement, rows[0].is_reaction);
        seq![step.action] + export_actions(rows.drop_first(), step.state)
    }
}

/// The action for row `i`, read off the rows directly: a row whose id is that of the row
/// before it (or, for the first row, `start_row`) is skipped; otherwise an announcement is
/// rendered as one, a reaction is left for its message, and anything else is rendered as a
/// message.
pub open spec fn row_action(rows: Seq<RowInfo>, start_row: i32, i: int) -> ExportAction {
    let previous = if i == 0 {
        start_row
    } else {
        rows[i - 1].rowid
    };
    if rows[i].rowid == previous {
        ExportAction::Skip
    } else if rows[i].is_announcement {
        ExportAction::Announcement
    } else if !rows[i].is_reaction {
        ExportAction::Message
    } else {
        ExportAction::Nothing
    }
}

/// Over a whole stream of rows, the exporter takes one action per row, and the action for
/// each row depends only on that row and the one before it: a row is rendered (as an
/// announcement or a message) exactly when its id differs from the previous row's and it is
/// an announcement or not a reaction.
pub proof fn lemma_export_actions(rows: Seq<RowInfo>, state: ExportState)
    ensures
        export_actions(rows, state).len() == rows.len(),
        forall|i: int|
            0 <= i < rows.len() ==> #[trigger] export_actions(rows, state)[i] == row_action(
                rows,
                state.current_message_row,
                i,
            ),
    decreases rows.len(),
{
    if rows.len() > 0 {
        let step = spec_export_step(state, rows[0].rowid, rows[0].is_announcement, rows[0].is_reaction);
        let rest = rows.drop_first();
        lemma_export_actions(rest, step.state);
        assert(step.state.current_message_row == rows[0].rowid);
        assert forall|i: int| 0 <= i < rows.len() implies #[trigger] export_actions(rows, state)[i]
            == row_action(rows, state.current_message_row, i) by {
            if i > 0 {
                assert(export_actions(rows, state)[i] == export_actions(rest, step.state)[i - 1]);
                assert(rest[i - 1] == rows[i]);
                if i > 1 {
                    assert(rest[i - 2] == rows[i - 1]);
                }
            }
        }
    }
}

/// The actions the exporter takes for a stream of rows, in order, from the state before the
/// first row
pub fn plan_export(rows: &[RowInfo]) -> (actions: Vec<ExportAction>)
    requires
        rows@.len() < u64::MAX,
    ensures
        actions@ == export_actions(rows@, initial_state()),
{
    let mut actions: Vec<ExportAction> = Vec::new();
    let mut state = initial_export_state();
    let mut i: usize = 0;
    assert(rows@.skip(0) =~= rows@);
    while i < rows.len()
        invariant
            i <= rows@.len(),
            rows@.len() < u64::MAX,
            state.current_message == i,
            actions@ + export_actions(rows@.skip(i as int), state) == export_actions(rows@, initial_state()),
        decreases rows@.len() - i,
    {
        let row = rows[i];
        let step = export_step(state, row.rowid, row.is_announcement, row.is_reaction);
        let ghost before = actions@;
        actions.push(step.action);
        proof {
            assert(rows@.skip(i as int).drop_first() =~= rows@.skip(i + 1));
            assert(actions@ + export_actions(rows@.skip(i + 1), step.state) =~= before
                + export_actions(rows@.skip(i as int), state));
        }
        state = step.state;
        i += 1;
    }
    assert(actions@ + export_actions(rows@.skip(i as int), state) =~= actions@);
    actions
}

} // verus!
