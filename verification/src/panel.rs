//! The side panel: one editable row for each attribute type, kept in step
//! with the registry.

use crate::registry::{
    rename_takes_effect, renamed, StateId, StateTypeAdded, StateTypeNameChanged,
    StateTypeRemoved, StateTypes,
};
use crate::text_input::TextInput;
use vstd::prelude::*;

verus! {

/// The attribute type that a row of the panel is bound to.
#[derive(Clone, Copy, Debug, PartialEq, Eq, Structural)]
pub struct StateNameTextInput(pub StateId);

/// One row of the panel: the attribute type it is bound to and the field
/// that shows and edits the name of that type.
#[derive(Debug, PartialEq, Eq)]
pub struct PanelRow {
    pub state_type: StateNameTextInput,
    pub input: TextInput,
}

/// A row with its text as a sequence of characters.
pub struct PanelRowView {
    pub state_type: u128,
    pub text: Seq<char>,
}

impl View for PanelRow {
    type V = PanelRowView;

    open spec fn view(&self) -> PanelRowView {
        PanelRowView { state_type: self.state_type.0@, text: self.input@ }
    }
}

/// The side panel: its rows from top to bottom.
#[derive(Debug, PartialEq, Eq)]
pub struct SidePanel {
    pub rows: Vec<PanelRow>,
}

impl View for SidePanel {
    type V = Seq<PanelRowView>;

    open spec fn view(&self) -> Seq<PanelRowView> {
        self.rows@.map_values(|row: PanelRow| row@)
    }
}

/// Why the panel could not handle a notice.
#[derive(Clone, Copy, Debug, PartialEq, Eq, Structural)]
pub enum PanelError {
    /// The panel has no row at that position.
    RowNotFound,
    /// The registry holds no attribute type under the identifier.
    StateTypeNotFound,
}

/// The row with the text `name` if it is bound to the attribute type `id`,
/// the row as it is otherwise.
pub open spec fn relabelled(row: PanelRowView, id: u128, name: Seq<char>) -> PanelRowView {
    if row.state_type == id {
        PanelRowView { state_type: row.state_type, text: name }
    } else {
        row
    }
}

/// The rows that are not bound to the attribute type `id`, in their order.
pub open spec fn rows_without(rows: Seq<PanelRowView>, id: u128) -> Seq<PanelRowView> {
    rows.filter(|row: PanelRowView| row.state_type != id)
}

/// What committing the text of a row does to the row: an empty text gives
/// way to the stored name, any other text stays.
pub open spec fn committed_text(text: Seq<char>, stored: Seq<char>) -> Seq<char> {
    if text.len() == 0 {
        stored
    } else {
        text
    }
}

impl SidePanel {
    /// A panel without rows.
    pub fn new() -> (panel: SidePanel)
        ensures
            panel@.len() == 0,
    {
        SidePanel { rows: Vec::new() }
    }
}

/// Handles the notice that an attribute type was added: appends one row bound
/// to it that shows its current name. A type that the registry does not hold
/// is an error and leaves the panel as it is.
pub fn add_state_to_side_panel(
    panel: &mut SidePanel,
    added: StateTypeAdded,
    types: &StateTypes,
) -> (outcome: Result<(), PanelError>)
    ensures
        (match outcome {
            Ok(_) => types@.contains_key(added.state_type@) && final(panel)@ == old(panel)@.push(
                (PanelRowView {
                    state_type: added.state_type@,
                    text: types@[added.state_type@].name,
                }),
            ),
            Err(error) => error == PanelError::StateTypeNotFound && !types@.contains_key(
                added.state_type@,
            ) && final(panel)@ == old(panel)@,
        }),
{
    match types.get(added.state_type) {
        None => Err(PanelError::StateTypeNotFound),
        Some(data) => {
            let row = PanelRow {
                state_type: StateNameTextInput(added.state_type),
                input: TextInput(data.name.clone()),
            };
            panel.rows.push(row);
            Ok(())
        },
    }
}

/// Handles the notice that an attribute type was removed: every row bound to
/// it leaves the panel, the other rows keep their order.
pub fn remove_state_from_side_panel(panel: &mut SidePanel, removed: StateTypeRemoved)
    ensures
        final(panel)@ == rows_without(old(panel)@, removed.state_type@),
{
    let ghost before = panel@;
    let ghost id = removed.state_type@;
    let ghost mut decided: int = 0;
    let mut i: usize = 0;
    while i < panel.rows.len()
        invariant
            id == removed.state_type@,
            0 <= decided <= before.len(),
            i == rows_without(before.take(decided), id).len(),
            panel@ == rows_without(before.take(decided), id) + before.skip(decided),
        decreases before.len() - decided,
    {
        let ghost current = panel@;
        let ghost kept = rows_without(before.take(decided), id);
        proof {
            let next = before.take(decided + 1);
            assert(next.drop_last() =~= before.take(decided));
            assert(current[i as int] == panel.rows@[i as int]@);
            lemma_rows_without_step(next, id);
            StateId::lemma_view_injective(panel.rows[i as int].state_type.0, removed.state_type);
        }
        if panel.rows[i].state_type.0 == removed.state_type {
            let _ = panel.rows.remove(i);
            assert(current.remove(i as int) =~= kept + before.skip(decided + 1));
        } else {
            i += 1;
        }
        proof {
            decided = decided + 1;
        }
    }
}

/// Handles the notice that an attribute type got a new name: every row bound
/// to it shows the new name, the other rows stay as they are.
pub fn update_side_panel_state_name(panel: &mut SidePanel, changed: &StateTypeNameChanged)
    ensures
        final(panel)@.len() == old(panel)@.len(),
        forall|i: int|
            0 <= i < old(panel)@.len() ==> (#[trigger] final(panel)@[i]) == relabelled(
                old(panel)@[i],
                changed.state_type@,
                changed.name@,
            ),
{
    let ghost before = panel@;
    let mut i: usize = 0;
    while i < panel.rows.len()
        invariant
            i <= panel.rows.len(),
            panel@.len() == before.len(),
            forall|k: int|
                0 <= k < i ==> (#[trigger] panel@[k]) == relabelled(
                    before[k],
                    changed.state_type@,
                    changed.name@,
                ),
            forall|k: int| i <= k < before.len() ==> (#[trigger] panel@[k]) == before[k],
        decreases panel.rows.len() - i,
    {
        let bound = panel.rows[i].state_type;
        proof {
            StateId::lemma_view_injective(bound.0, changed.state_type);
            assert(panel@[i as int] == before[i as int]);
        }
        if bound.0 == changed.state_type {
            let ghost current = panel@;
            panel.rows.set(
                i,
                PanelRow { state_type: bound, input: TextInput(changed.name.clone()) },
            );
            assert(panel@ =~= current.update(
                i as int,
                relabelled(before[i as int], changed.state_type@, changed.name@),
            ));
        }
        i += 1;
    }
}

/// Handles the end of an edit of the row at position `row`, when its field
/// loses the focus. An empty text is not saved: the row shows the stored
/// name again. A text that differs from the stored name is written to the
/// registry, and the notice of the new name is handed back for the panel and
/// the nodes to follow. A text equal to the stored name changes nothing.
pub fn update_state_names(
    panel: &mut SidePanel,
    row: usize,
    types: &mut StateTypes,
) -> (outcome: Result<Option<StateTypeNameChanged>, PanelError>)
    ensures
        final(panel)@.len() == old(panel)@.len(),
        forall|i: int|
            0 <= i < old(panel)@.len() && i != row ==> (#[trigger] final(panel)@[i]) == old(
                panel,
            )@[i],
        old(types).wf() ==> final(types).wf(),
        (match outcome {
            Err(PanelError::RowNotFound) => row >= old(panel)@.len() && final(types)@ == old(
                types,
            )@,
            Err(PanelError::StateTypeNotFound) => row < old(panel)@.len() && !old(
                types,
            )@.contains_key(old(panel)@[row as int].state_type) && final(panel)@ == old(panel)@
                && final(types)@ == old(types)@,
            Ok(notice) => {
                let edited = old(panel)@[row as int];
                let stored = old(types)@[edited.state_type];
                &&& row < old(panel)@.len()
                &&& old(types)@.contains_key(edited.state_type)
                &&& final(panel)@[row as int] == (PanelRowView {
                    state_type: edited.state_type,
                    text: committed_text(edited.text, stored.name),
                })
                &&& if rename_takes_effect(stored.name, edited.text) {
                    &&& notice matches Some(changed)
                    &&& changed.state_type@ == edited.state_type
                    &&& changed.name@ == edited.text
                    &&& final(types)@ == old(types)@.insert(
                        edited.state_type,
                        renamed(stored, edited.text),
                    )
                } else {
                    notice is None && final(types)@ == old(types)@
                }
            },
        }),
{
    if row >= panel.rows.len() {
        return Err(PanelError::RowNotFound);
    }
    let bound = panel.rows[row].state_type;
    let stored_name = match types.get(bound.0) {
        None => {
            return Err(PanelError::StateTypeNotFound);
        },
        Some(data) => data.name.clone(),
    };
    if panel.rows[row].input.0.as_str().is_empty() {
        panel.rows.set(row, PanelRow { state_type: bound, input: TextInput(stored_name) });
        return Ok(None);
    }
    match types.rename(bound.0, panel.rows[row].input.0.as_str()) {
        Ok(notice) => Ok(notice),
        Err(_) => Err(PanelError::StateTypeNotFound),
    }
}

/// Filtering a non-empty list filters all but its last row and then decides
/// on the last.
proof fn lemma_rows_without_step(rows: Seq<PanelRowView>, id: u128)
    requires
        rows.len() > 0,
    ensures
        rows_without(rows, id) == if rows.last().state_type != id {
            rows_without(rows.drop_last(), id).push(rows.last())
        } else {
            rows_without(rows.drop_last(), id)
        },
{
    reveal(Seq::filter);
}

} // verus!
