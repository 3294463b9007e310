//! What a panel relies on of `ratatui`'s table state, which holds the selected
//! row, the selected column and the scroll offset of a panel's table.

use ratatui::widgets::TableState;
use vstd::prelude::*;

verus! {

/// Makes `ratatui::widgets::TableState` known to the verifier, as a value it
/// cannot look into.
#[verifier::external_type_specification]
#[verifier::external_body]
pub struct ExTableState(TableState);

/// What `TableState::selected` returns: the index of the selected row.
pub uninterp spec fn table_selected(state: TableState) -> Option<usize>;

/// The column that `TableState::select_column` has stored, which
/// `TableState::selected_column` returns.
pub uninterp spec fn table_selected_column(state: TableState) -> Option<usize>;

/// What `TableState::offset` returns: the index of the first row shown.
pub uninterp spec fn table_offset(state: TableState) -> usize;

/// `TableState::new` starts with nothing selected and no offset.
pub assume_specification[ TableState::new ]() -> (state: TableState)
    ensures
        table_selected(state) == None::<usize>,
        table_selected_column(state) == None::<usize>,
        table_offset(state) == 0,
;

/// `TableState::selected` reads the selected row.
pub assume_specification[ TableState::selected ](state: &TableState) -> (index: Option<usize>)
    ensures
        index == table_selected(*state),
;

/// `TableState::offset` reads the scroll offset.
pub assume_specification[ TableState::offset ](state: &TableState) -> (offset: usize)
    ensures
        offset == table_offset(*state),
;

/// `TableState::select` stores the row; selecting nothing also resets the
/// offset.
pub assume_specification[ TableState::select ](state: &mut TableState, index: Option<usize>)
    ensures
        table_selected(*final(state)) == index,
        table_selected_column(*final(state)) == table_selected_column(*old(state)),
        table_offset(*final(state)) == if index is None {
            0
        } else {
            table_offset(*old(state))
        },
;

/// `TableState::select_column` stores the column and leaves the rest.
pub assume_specification[ TableState::select_column ](
    state: &mut TableState,
    index: Option<usize>,
)
    ensures
        table_selected_column(*final(state)) == index,
        table_selected(*final(state)) == table_selected(*old(state)),
        table_offset(*final(state)) == table_offset(*old(state)),
;

/// `TableState::select_first` selects row 0.
pub assume_specification[ TableState::select_first ](state: &mut TableState)
    ensures
        table_selected(*final(state)) == Some(0usize),
        table_selected_column(*final(state)) == table_selected_column(*old(state)),
        table_offset(*final(state)) == table_offset(*old(state)),
;

/// The row that is `amount` below `selected`, or below row 0 where nothing is
/// selected; it stops at `usize::MAX`.
pub open spec fn row_below(selected: Option<usize>, amount: u16) -> usize {
    let from: usize = match selected {
        Some(row) => row,
        None => 0,
    };
    if from + amount > usize::MAX {
        usize::MAX
    } else {
        (from + amount) as usize
    }
}

/// The row that is `amount` above `selected`, or above row 0 where nothing is
/// selected; it stops at row 0.
pub open spec fn row_above(selected: Option<usize>, amount: u16) -> usize {
    let from: usize = match selected {
        Some(row) => row,
        None => 0,
    };
    if from < amount {
        0
    } else {
        (from - amount) as usize
    }
}

/// `TableState::scroll_down_by` moves the selection down by `amount` rows,
/// saturating.
pub assume_specification[ TableState::scroll_down_by ](state: &mut TableState, amount: u16)
    ensures
        table_selected(*final(state)) == Some(row_below(table_selected(*old(state)), amount)),
        table_selected_column(*final(state)) == table_selected_column(*old(state)),
        table_offset(*final(state)) == table_offset(*old(state)),
;

/// `TableState::scroll_up_by` moves the selection up by `amount` rows,
/// saturating.
pub assume_specification[ TableState::scroll_up_by ](state: &mut TableState, amount: u16)
    ensures
        table_selected(*final(state)) == Some(row_above(table_selected(*old(state)), amount)),
        table_selected_column(*final(state)) == table_selected_column(*old(state)),
        table_offset(*final(state)) == table_offset(*old(state)),
;

} // verus!
