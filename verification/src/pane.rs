//! The two pane models. Each owns an ordered sequence of rows and a
//! `State` describing selection, retained focus, or an in-place edit.
//! Replacing the rows with an empty sequence substitutes one synthetic
//! default row, so a pane is never left with zero rows and row index 0 is
//! always valid.

use vstd::prelude::*;
use crate::objects::{Configuration, ConfigurationV, Shortcut, ShortcutV};
use crate::text::push_char;

verus! {

/// Per-pane selection sub-state. `Selected` has input focus at a row and a
/// column (0 is the label column, 1 the value column); `WasSelected`
/// retains the row for when focus returns; `Editing` carries the
/// in-progress text buffer and a cursor offset into it, in characters.
pub enum State {
    Selected { row: usize, column: usize },
    WasSelected { row: usize },
    Editing { row: usize, column: usize, buffer: String, cursor: usize },
}

/// The mathematical value of a pane state.
pub ghost enum StateV {
    Selected { row: int, column: int },
    WasSelected { row: int },
    Editing { row: int, column: int, buffer: Seq<char>, cursor: int },
}

impl View for State {
    type V = StateV;

    open spec fn view(&self) -> StateV {
        match *self {
            State::Selected { row, column } => StateV::Selected {
                row: row as int,
                column: column as int,
            },
            State::WasSelected { row } => StateV::WasSelected { row: row as int },
            State::Editing { row, column, buffer, cursor } => StateV::Editing {
                row: row as int,
                column: column as int,
                buffer: buffer@,
                cursor: cursor as int,
            },
        }
    }
}

impl Clone for State {
    fn clone(&self) -> (r: Self)
        ensures
            r == *self,
    {
        match self {
            State::Selected { row, column } => State::Selected { row: *row, column: *column },
            State::WasSelected { row } => State::WasSelected { row: *row },
            State::Editing { row, column, buffer, cursor } => State::Editing {
                row: *row,
                column: *column,
                buffer: buffer.clone(),
                cursor: *cursor,
            },
        }
    }
}

/// Rows are non-negative, columns stay within {0, 1}, and an edit cursor
/// stays within the buffer.
pub open spec fn state_wf(s: StateV) -> bool {
    match s {
        StateV::Selected { row, column } => 0 <= row && 0 <= column <= 1,
        StateV::WasSelected { row } => 0 <= row,
        StateV::Editing { row, column, buffer, cursor } => 0 <= row && 0 <= column <= 1 && 0
            <= cursor <= buffer.len(),
    }
}

/// True when the pane has input focus (selected or editing).
pub open spec fn is_focused(s: StateV) -> bool {
    !(s is WasSelected)
}

/// The row the state points at.
pub open spec fn state_row(s: StateV) -> int {
    match s {
        StateV::Selected { row, .. } => row,
        StateV::WasSelected { row } => row,
        StateV::Editing { row, .. } => row,
    }
}

/// The shortcut list pane.
pub struct WidgetShortcuts {
    pub values: Vec<Shortcut>,
    pub state: State,
}

/// The configuration field pane; `hidde` masks values in the render
/// projection without touching stored or in-memory values.
pub struct WidgetConfigurations {
    pub values: Vec<Configuration>,
    pub state: State,
    pub hidde: bool,
}

impl WidgetShortcuts {
    /// The pane is renderable: at least one row, and a well-formed state.
    pub open spec fn wf(&self) -> bool {
        self.values@.len() >= 1 && state_wf(self.state@)
    }

    pub fn from(values: Vec<Shortcut>, state: State) -> (r: Self)
        requires
            state_wf(state@),
        ensures
            r.state == state,
            values@.len() > 0 ==> r.values == values,
            values@.len() == 0 ==> r.values.deep_view() == seq![
                ShortcutV { name: "Default0"@, kind: "Custom"@ },
            ],
            r.wf(),
    {
        if values.len() > 0 {
            WidgetShortcuts { values, state }
        } else {
            let mut v: Vec<Shortcut> = Vec::new();
            v.push(Shortcut::default());
            proof {
                assert(v.deep_view() =~= seq![ShortcutV { name: "Default0"@, kind: "Custom"@ }]);
            }
            WidgetShortcuts { values: v, state }
        }
    }

    pub fn get_values(&self) -> (r: &Vec<Shortcut>)
        ensures
            r == &self.values,
    {
        &self.values
    }

    pub fn get_mut_values(&mut self) -> (r: &mut Vec<Shortcut>)
        ensures
            *r == old(self).values,
            final(self).values == *final(r),
            final(self).state == old(self).state,
    {
        &mut self.values
    }

    pub fn get_state(&self) -> (r: State)
        ensures
            r == self.state,
    {
        self.state.clone()
    }

    pub fn set_state(&mut self, state: State)
        requires
            state_wf(state@),
        ensures
            final(self).state == state,
            final(self).values == old(self).values,
    {
        self.state = state;
    }

    /// Replaces the rows; an empty replacement is rejected and one
    /// synthetic default row is substituted instead, so the pane never
    /// has zero rows.
    pub fn set_values(&mut self, values: Vec<Shortcut>)
        ensures
            final(self).values@.len() >= 1,
            values@.len() > 0 ==> final(self).values == values,
            values@.len() == 0 ==> final(self).values.deep_view() == seq![
                ShortcutV { name: "Default0"@, kind: "Custom"@ },
            ],
            final(self).state == old(self).state,
    {
        if values.len() > 0 {
            self.values = values;
        } else {
            let mut v: Vec<Shortcut> = Vec::new();
            v.push(Shortcut::default());
            proof {
                assert(v.deep_view() =~= seq![ShortcutV { name: "Default0"@, kind: "Custom"@ }]);
            }
            self.values = v;
        }
    }

    /// The label and text of the row under edit, for the render caret.
    pub fn get_editing_value(&self, index: usize) -> (r: [String; 2])
        requires
            index < self.values@.len(),
        ensures
            r@[0]@ == self.values@[index as int]@.kind,
            r@[1]@ == self.values@[index as int]@.name,
    {
        let config = &self.values[index];
        [config.kind.clone(), config.name.clone()]
    }
}

impl WidgetConfigurations {
    /// The pane is renderable: at least one row, and a well-formed state.
    pub open spec fn wf(&self) -> bool {
        self.values@.len() >= 1 && state_wf(self.state@)
    }

    pub fn from(values: Vec<Configuration>, state: State) -> (r: Self)
        requires
            state_wf(state@),
        ensures
            r.state == state,
            r.hidde == true,
            values@.len() > 0 ==> r.values == values,
            values@.len() == 0 ==> r.values.deep_view() == seq![
                ConfigurationV { value: "echo Welcome on MyShortcuts"@, kind: "DefaultProperty"@ },
            ],
            r.wf(),
    {
        if values.len() > 0 {
            WidgetConfigurations { values, state, hidde: true }
        } else {
            let mut v: Vec<Configuration> = Vec::new();
            v.push(Configuration::default());
            proof {
                assert(v.deep_view() =~= seq![
                    ConfigurationV {
                        value: "echo Welcome on MyShortcuts"@,
                        kind: "DefaultProperty"@,
                    },
                ]);
            }
            WidgetConfigurations { values: v, state, hidde: true }
        }
    }

    pub fn get_values(&self) -> (r: &Vec<Configuration>)
        ensures
            r == &self.values,
    {
        &self.values
    }

    pub fn get_mut_values(&mut self) -> (r: &mut Vec<Configuration>)
        ensures
            *r == old(self).values,
            final(self).values == *final(r),
            final(self).state == old(self).state,
            final(self).hidde == old(self).hidde,
    {
        &mut self.values
    }

    pub fn get_state(&self) -> (r: State)
        ensures
            r == self.state,
    {
        self.state.clone()
    }

    pub fn set_state(&mut self, state: State)
        requires
            state_wf(state@),
        ensures
            final(self).state == state,
            final(self).values == old(self).values,
            final(self).hidde == old(self).hidde,
    {
        self.state = state;
    }

    /// Replaces the rows; an empty replacement is rejected and one
    /// synthetic default row is substituted instead, so the pane never
    /// has zero rows.
    pub fn set_values(&mut self, values: Vec<Configuration>)
        ensures
            final(self).values@.len() >= 1,
            values@.len() > 0 ==> final(self).values == values,
            values@.len() == 0 ==> final(self).values.deep_view() == seq![
                ConfigurationV { value: "echo Welcome on MyShortcuts"@, kind: "DefaultProperty"@ },
            ],
            final(self).state == old(self).state,
            final(self).hidde == old(self).hidde,
    {
        if values.len() > 0 {
            self.values = values;
        } else {
            let mut v: Vec<Configuration> = Vec::new();
            v.push(Configuration::default());
            proof {
                assert(v.deep_view() =~= seq![
                    ConfigurationV {
                        value: "echo Welcome on MyShortcuts"@,
                        kind: "DefaultProperty"@,
                    },
                ]);
            }
            self.values = v;
        }
    }

    /// Toggles masking of configuration values in the render projection.
    pub fn hidde(&mut self)
        ensures
            final(self).hidde == !old(self).hidde,
            final(self).values == old(self).values,
            final(self).state == old(self).state,
    {
        self.hidde = !self.hidde;
    }

    pub fn is_hidden(&self) -> (r: bool)
        ensures
            r == self.hidde,
    {
        self.hidde
    }

    /// The label and text of the row under edit, for the render caret.
    pub fn get_editing_value(&self, index: usize) -> (r: [String; 2])
        requires
            index < self.values@.len(),
        ensures
            r@[0]@ == self.values@[index as int]@.kind,
            r@[1]@ == self.values@[index as int]@.value,
    {
        let config = &self.values[index];
        [config.kind.clone(), config.value.clone()]
    }
}

/// One mask character for each character of the value, for the masked
/// render projection.
pub fn masked(s: &str) -> (r: String)
    ensures
        r@.len() == s@.len(),
        forall|i: int| 0 <= i < r@.len() ==> r@[i] == '*',
{
    let len = s.unicode_len();
    let mut out = String::new();
    let mut i: usize = 0;
    while i < len
        invariant
            0 <= i <= len,
            out@.len() == i,
            forall|j: int| 0 <= j < i ==> out@[j] == '*',
        decreases len - i,
    {
        push_char(&mut out, '*');
        i += 1;
    }
    out
}

} // verus!
