//! The navigation/focus controller: the coupled two-pane state machine.
//! It consumes one key event per tick, decides which pane is focused, how
//! row and column selection move, when edit mode starts and stops, and
//! when the creation popup opens and closes; every persistent effect goes
//! through the injected record store.

use vstd::prelude::*;
use crate::builders::{
    filter_config, mariadb, mongodb, mysql, neo4j, oracle, postgresql, redis,
    spec_mariadb, spec_mongodb, spec_mysql, spec_neo4j, spec_oracle, spec_postgresql,
    spec_redis, spec_sqlite, spec_trim_trailing, sqlite,
};
use crate::naming::spec_generate_name;
use crate::objects::{Configuration, ConfigurationV, Shortcut, ShortcutV};
use crate::pane::{
    is_focused, state_row, State, StateV, WidgetConfigurations, WidgetShortcuts,
};
use crate::scheme::{available_kinds, scheme_labels, spec_available_kinds, spec_scheme_for};
use crate::store::{
    spec_config_of, spec_config_values, spec_delete, spec_insert,
    spec_required_config, spec_shortcut_rows, spec_update_configuration, spec_update_name,
    format_config, insert_default_config, Database, ReadStatement, RecordV, WriteStatement,
};
use crate::text::{spec_cat_semi, spec_split, spec_trim_end, split_char, str_eq, trim_end};
use crate::{spec_row_down, spec_row_up};
use vstd::pervasive::VecAdditionalExecFns;

verus! {

/// One discrete key event, as the event loop hands it to the controller.
#[derive(Clone, Copy, PartialEq, Eq, Structural, Debug)]
pub enum Key {
    Up,
    Down,
    Left,
    Right,
    Enter,
    Esc,
    Backspace,
    Char(char),
}

/// Moving the selection one row: wraps at both ends.
pub open spec fn spec_move_row(s: StateV, len: int, key: Key) -> StateV {
    match s {
        StateV::Selected { row, column } => StateV::Selected {
            row: if key == Key::Up {
                spec_row_up(row, len)
            } else {
                spec_row_down(row, len)
            },
            column,
        },
        _ => s,
    }
}

/// Pressing Right: within the focused pane the column advances; at the
/// last column focus hands off, the focused pane keeps its row as
/// `WasSelected` and the other pane wakes at its retained row, column 0.
pub open spec fn spec_right(sh: StateV, cfg: StateV) -> (StateV, StateV) {
    match (sh, cfg) {
        (StateV::Selected { row, column }, StateV::WasSelected { row: r2 }) => if column < 1 {
            (StateV::Selected { row, column: column + 1 }, cfg)
        } else {
            (StateV::WasSelected { row }, StateV::Selected { row: r2, column: 0 })
        },
        (StateV::WasSelected { row: r2 }, StateV::Selected { row, column }) => if column < 1 {
            (sh, StateV::Selected { row, column: column + 1 })
        } else {
            (StateV::Selected { row: r2, column: 0 }, StateV::WasSelected { row })
        },
        _ => (sh, cfg),
    }
}

/// Pressing Left: the column retreats within the focused pane and stays
/// at the leftmost column.
pub open spec fn spec_left(sh: StateV, cfg: StateV) -> (StateV, StateV) {
    match (sh, cfg) {
        (StateV::Selected { row, column }, StateV::WasSelected { .. }) => if column > 0 {
            (StateV::Selected { row, column: column - 1 }, cfg)
        } else {
            (sh, cfg)
        },
        (StateV::WasSelected { .. }, StateV::Selected { row, column }) => if column > 0 {
            (sh, StateV::Selected { row, column: column - 1 })
        } else {
            (sh, cfg)
        },
        _ => (sh, cfg),
    }
}

/// One key applied to an edit buffer: insert at the cursor, remove before
/// it (never below one character), or move the cursor within the buffer.
pub open spec fn spec_edit(buffer: Seq<char>, cursor: int, key: Key) -> (Seq<char>, int) {
    match key {
        Key::Char(c) => if buffer.len() < usize::MAX {
            (buffer.insert(cursor, c), cursor + 1)
        } else {
            (buffer, cursor)
        },
        Key::Backspace => if cursor > 0 && buffer.len() > 1 {
            (buffer.remove(cursor - 1), cursor - 1)
        } else {
            (buffer, cursor)
        },
        Key::Left => if cursor > 0 {
            (buffer, cursor - 1)
        } else {
            (buffer, cursor)
        },
        Key::Right => if cursor < buffer.len() {
            (buffer, cursor + 1)
        } else {
            (buffer, cursor)
        },
        _ => (buffer, cursor),
    }
}

/// The command the shortcut at hand launches: a Custom shortcut's first
/// field verbatim, any other known kind through its builder on the
/// trailing-trimmed field values, and an unknown kind nothing.
pub open spec fn spec_get_shortcut(kind: Seq<char>, values: Seq<ConfigurationV>) -> Seq<char> {
    let v = spec_trim_trailing(spec_config_values(values));
    if kind == "Oracle"@ {
        spec_oracle(v)
    } else if kind == "MySQL"@ {
        spec_mysql(v)
    } else if kind == "MariaDB"@ {
        spec_mariadb(v)
    } else if kind == "PostgreSQL"@ {
        spec_postgresql(v)
    } else if kind == "SQLite"@ {
        spec_sqlite(v)
    } else if kind == "Redis"@ {
        spec_redis(v)
    } else if kind == "MongoDB"@ {
        spec_mongodb(v)
    } else if kind == "Neo4j"@ {
        spec_neo4j(v)
    } else if kind == "Custom"@ {
        values[0].value
    } else {
        Seq::<char>::empty()
    }
}

/// The record seeded when deleting would leave the store empty.
pub open spec fn default_record() -> RecordV {
    RecordV {
        name: "Default0"@,
        configuration: "echo Welcome on MyShortcuts !"@,
        kind: "Custom"@,
    }
}

/// The record the creation popup inserts for the kind at `index`: a
/// generated name, and either the friendly default command for Custom or
/// one placeholder per scheme field.
pub open spec fn new_shortcut_record(names: Seq<Seq<char>>, index: int) -> RecordV {
    let kind = spec_available_kinds()[index];
    RecordV {
        name: spec_generate_name(names),
        configuration: if kind == "Custom"@ {
            "echo Welcome on MyShortcuts"@
        } else {
            spec_required_config(spec_scheme_for(kind).len())
        },
        kind,
    }
}

/// The names of the shortcuts a pane shows.
pub open spec fn spec_names(values: Seq<ShortcutV>) -> Seq<Seq<char>> {
    values.map_values(|s: ShortcutV| s.name)
}

fn shortcut_names(values: &Vec<Shortcut>) -> (r: Vec<String>)
    ensures
        r.deep_view() == spec_names(values.deep_view()),
{
    let mut names: Vec<String> = Vec::new();
    let mut i: usize = 0;
    while i < values.len()
        invariant
            0 <= i <= values.len(),
            names@.len() == i,
            forall|j: int| 0 <= j < i ==> (#[trigger] names@[j])@ == values@[j]@.name,
        decreases values.len() - i,
    {
        names.push(values[i].name.clone());
        i += 1;
    }
    proof {
        assert(names.deep_view() =~= spec_names(values.deep_view()));
    }
    names
}

/// The fields shown for one stored configuration string: the scheme's
/// labels for the kind, each holding the stored part at its position, or
/// the empty string where the stored string has fewer parts.
pub open spec fn spec_project(parts: Seq<Seq<char>>, labels: Seq<Seq<char>>) -> Seq<
    ConfigurationV,
> {
    Seq::new(
        labels.len(),
        |i: int|
            ConfigurationV {
                value: if i < parts.len() {
                    parts[i]
                } else {
                    Seq::<char>::empty()
                },
                kind: labels[i],
            },
    )
}

/// Aligns the stored parts with the scheme the kind selects: one
/// configuration field per scheme label, missing parts filled with the
/// empty string.
pub fn get_current_config(configurations: Vec<String>, kind: &str) -> (r: Vec<Configuration>)
    ensures
        r.deep_view() == spec_project(configurations.deep_view(), spec_scheme_for(kind@)),
        r@.len() == spec_scheme_for(kind@).len(),
{
    let labels = scheme_labels(kind);
    let ghost parts = configurations.deep_view();
    let ghost lv = spec_scheme_for(kind@);
    let mut out: Vec<Configuration> = Vec::new();
    let mut i: usize = 0;
    while i < labels.len()
        invariant
            0 <= i <= labels.len(),
            labels.deep_view() == lv,
            labels@.len() == lv.len(),
            parts == configurations.deep_view(),
            parts.len() == configurations@.len(),
            out@.len() == i,
            forall|j: int| 0 <= j < i ==> (#[trigger] out@[j])@ == spec_project(parts, lv)[j],
        decreases labels.len() - i,
    {
        let value = if i < configurations.len() {
            configurations[i].clone()
        } else {
            String::new()
        };
        let field = Configuration { value, kind: labels[i].clone() };
        proof {
            assert(lv[i as int] == labels@[i as int]@);
            if i < configurations.len() {
                assert(parts[i as int] == configurations@[i as int]@);
            }
        }
        out.push(field);
        i += 1;
    }
    proof {
        assert(out.deep_view() =~= spec_project(parts, lv));
    }
    out
}

/// Everything one key event may change: the two pane states, the
/// configuration pane's rows, the remembered pre-edit name, the popup,
/// whether the loop ends, the store, and a command handed to the
/// execution collaborator.
pub ghost struct StepResult {
    pub shortcuts: StateV,
    pub configurations: StateV,
    pub cfg_values: Seq<ConfigurationV>,
    pub save: Seq<char>,
    pub popup: (bool, int),
    pub exit: bool,
    pub hidde: bool,
    pub store: Seq<RecordV>,
    pub output: Option<Seq<char>>,
}

/// The transition table of the navigation/focus state machine, for one
/// key event outside edit mode. Row movement wraps, column movement
/// clamps left and hands focus off at the right boundary, and the popup
/// arms take over while both panes are inactive.
pub open spec fn spec_key_event(
    sh: StateV,
    cfg: StateV,
    sh_values: Seq<ShortcutV>,
    cfg_values: Seq<ConfigurationV>,
    save: Seq<char>,
    popup: (bool, int),
    hidde: bool,
    store: Seq<RecordV>,
    key: Key,
) -> StepResult {
    let stay = StepResult {
        shortcuts: sh,
        configurations: cfg,
        cfg_values,
        save,
        popup,
        exit: false,
        hidde,
        store,
        output: None,
    };
    match (sh, cfg) {
        (StateV::Selected { row, column }, StateV::WasSelected { row: r2 }) => {
            let slen = sh_values.len() as int;
            match key {
                Key::Up => StepResult { shortcuts: spec_move_row(sh, slen, key), ..stay },
                Key::Down => StepResult { shortcuts: spec_move_row(sh, slen, key), ..stay },
                Key::Right => StepResult {
                    shortcuts: spec_right(sh, cfg).0,
                    configurations: spec_right(sh, cfg).1,
                    ..stay
                },
                Key::Left => StepResult {
                    shortcuts: spec_left(sh, cfg).0,
                    configurations: spec_left(sh, cfg).1,
                    ..stay
                },
                Key::Esc => StepResult { exit: true, ..stay },
                Key::Char(c) => if c == 'o' || c == 'O' {
                    StepResult {
                        exit: true,
                        output: if row < slen {
                            Some(spec_get_shortcut(sh_values[row].kind, cfg_values))
                        } else {
                            None
                        },
                        ..stay
                    }
                } else if c == 'a' || c == 'A' {
                    StepResult {
                        shortcuts: StateV::WasSelected { row },
                        popup: (true, 0),
                        ..stay
                    }
                } else if c == 'r' || c == 'R' {
                    if row < slen {
                        let st1 = spec_delete(store, sh_values[row].name).0;
                        StepResult {
                            shortcuts: StateV::Selected {
                                row: if row > 0 {
                                    row - 1
                                } else {
                                    0
                                },
                                column,
                            },
                            store: if slen == 1 {
                                spec_insert(st1, default_record()).0
                            } else {
                                st1
                            },
                            ..stay
                        }
                    } else {
                        stay
                    }
                } else if c == 'e' || c == 'E' {
                    if row < slen {
                        StepResult {
                            shortcuts: StateV::Editing {
                                row,
                                column: 1,
                                buffer: sh_values[row].name,
                                cursor: sh_values[row].name.len() as int,
                            },
                            save: sh_values[row].name,
                            ..stay
                        }
                    } else {
                        stay
                    }
                } else if c == 'h' || c == 'H' {
                    StepResult { hidde: !hidde, ..stay }
                } else if c == 'q' || c == 'Q' {
                    StepResult { exit: true, ..stay }
                } else {
                    stay
                },
                _ => stay,
            }
        },
        (StateV::WasSelected { row: r2 }, StateV::Selected { row, column }) => {
            let slen = sh_values.len() as int;
            let clen = cfg_values.len() as int;
            match key {
                Key::Up => StepResult { configurations: spec_move_row(cfg, clen, key), ..stay },
                Key::Down => StepResult {
                    configurations: spec_move_row(cfg, clen, key),
                    ..stay
                },
                Key::Right => StepResult {
                    shortcuts: spec_right(sh, cfg).0,
                    configurations: spec_right(sh, cfg).1,
                    ..stay
                },
                Key::Left => StepResult {
                    shortcuts: spec_left(sh, cfg).0,
                    configurations: spec_left(sh, cfg).1,
                    ..stay
                },
                Key::Esc => StepResult { exit: true, ..stay },
                Key::Char(c) => if c == 'o' || c == 'O' {
                    StepResult {
                        exit: true,
                        output: if r2 < slen {
                            Some(spec_get_shortcut(sh_values[r2].kind, cfg_values))
                        } else {
                            None
                        },
                        ..stay
                    }
                } else if c == 'a' || c == 'A' {
                    StepResult {
                        configurations: StateV::WasSelected { row },
                        popup: (true, 0),
                        ..stay
                    }
                } else if c == 'r' || c == 'R' {
                    if r2 < slen && row < clen {
                        let values2 = cfg_values.update(
                            row,
                            ConfigurationV {
                                value: Seq::<char>::empty(),
                                kind: cfg_values[row].kind,
                            },
                        );
                        StepResult {
                            cfg_values: values2,
                            store: spec_update_configuration(
                                store,
                                sh_values[r2].name,
                                spec_cat_semi(spec_config_values(values2)),
                            ).0,
                            ..stay
                        }
                    } else {
                        stay
                    }
                } else if c == 'e' || c == 'E' {
                    if r2 < slen {
                        let used = if row < clen {
                            row
                        } else {
                            0
                        };
                        StepResult {
                            configurations: StateV::Editing {
                                row: used,
                                column: 1,
                                buffer: cfg_values[used].value,
                                cursor: cfg_values[used].value.len() as int,
                            },
                            save: sh_values[r2].name,
                            ..stay
                        }
                    } else {
                        stay
                    }
                } else if c == 'h' || c == 'H' {
                    StepResult { hidde: !hidde, ..stay }
                } else if c == 'q' || c == 'Q' {
                    StepResult { exit: true, ..stay }
                } else {
                    stay
                },
                _ => stay,
            }
        },
        (StateV::WasSelected { row: r0 }, StateV::WasSelected { .. }) => {
            let nkinds = spec_available_kinds().len() as int;
            match key {
                Key::Up => StepResult {
                    popup: (
                        true,
                        if popup.1 == 0 {
                            nkinds - 1
                        } else {
                            popup.1 - 1
                        },
                    ),
                    ..stay
                },
                Key::Down => StepResult { popup: (true, (popup.1 + 1) % nkinds), ..stay },
                Key::Enter => StepResult {
                    shortcuts: StateV::Selected { row: r0, column: 0 },
                    popup: (false, 0),
                    store: spec_insert(
                        store,
                        new_shortcut_record(spec_names(sh_values), popup.1),
                    ).0,
                    ..stay
                },
                Key::Esc => StepResult {
                    shortcuts: StateV::Selected { row: r0, column: 0 },
                    popup: (false, 0),
                    ..stay
                },
                Key::Char(c) => if c == 'q' || c == 'Q' {
                    StepResult {
                        shortcuts: StateV::Selected { row: r0, column: 0 },
                        popup: (false, 0),
                        ..stay
                    }
                } else if c == 'h' || c == 'H' {
                    StepResult { hidde: !hidde, ..stay }
                } else {
                    stay
                },
                _ => stay,
            }
        },
        _ => stay,
    }
}

/// One shortcut row as parsed from the read format: the text before the
/// first `;` is the name and the part after it the kind; a row without
/// both degrades to the synthetic default record.
pub open spec fn spec_parse_shortcut(row: Seq<char>) -> ShortcutV {
    if spec_split(row, ';').len() >= 2 {
        ShortcutV { name: spec_split(row, ';')[0], kind: spec_split(row, ';')[1] }
    } else {
        ShortcutV { name: "Default0"@, kind: "Custom"@ }
    }
}

/// The shortcuts a read listing carries: one per non-empty row.
pub open spec fn spec_parse_rows(rows: Seq<Seq<char>>) -> Seq<ShortcutV>
    decreases rows.len(),
{
    if rows.len() == 0 {
        Seq::<ShortcutV>::empty()
    } else if rows[0].len() == 0 {
        spec_parse_rows(rows.drop_first())
    } else {
        seq![spec_parse_shortcut(rows[0])] + spec_parse_rows(rows.drop_first())
    }
}

/// The shortcut list re-derived from a read result: rows split at
/// newlines, empty rows dropped, each remaining row parsed.
pub open spec fn spec_shortcut_list(s: Seq<char>) -> Seq<ShortcutV> {
    spec_parse_rows(spec_split(s, '\n'))
}

/// What the per-frame synchronization leaves in the two panes.
pub ghost struct SyncResult {
    pub sh_values: Seq<ShortcutV>,
    pub cfg_values: Seq<ConfigurationV>,
}

/// The per-frame synchronization: mid-edit the edit buffer is layered
/// onto the edited row; otherwise the shortcut list is re-read from the
/// store, and the configuration fields are re-derived from the store for
/// the shortcut the shortcut pane highlights, so what the user sees is
/// what the store holds.
pub open spec fn spec_sync(
    sh: StateV,
    cfg: StateV,
    sh_values: Seq<ShortcutV>,
    cfg_values: Seq<ConfigurationV>,
    store: Seq<RecordV>,
) -> SyncResult {
    match sh {
        StateV::Editing { row, buffer, .. } => SyncResult {
            sh_values: if 0 <= row < sh_values.len() {
                sh_values.update(row, ShortcutV { name: buffer, kind: sh_values[row].kind })
            } else {
                sh_values
            },
            cfg_values,
        },
        _ => {
            let listed = spec_shortcut_list(spec_shortcut_rows(store));
            let new_sh = if listed.len() > 0 {
                listed
            } else {
                seq![ShortcutV { name: "Default0"@, kind: "Custom"@ }]
            };
            match cfg {
                StateV::Editing { row, buffer, .. } => SyncResult {
                    sh_values: new_sh,
                    cfg_values: if 0 <= row < cfg_values.len() {
                        cfg_values.update(
                            row,
                            ConfigurationV { value: buffer, kind: cfg_values[row].kind },
                        )
                    } else {
                        cfg_values
                    },
                },
                _ => {
                    let row0 = state_row(sh);
                    if 0 <= row0 < new_sh.len() {
                        let cfgstr = match spec_config_of(store, new_sh[row0].name) {
                            Some(c) => c + ";\n"@,
                            None => Seq::<char>::empty(),
                        };
                        let parts = spec_split(cfgstr, ';').map_values(
                            |p: Seq<char>| spec_trim_end(p),
                        );
                        SyncResult {
                            sh_values: new_sh,
                            cfg_values: spec_project(
                                parts,
                                spec_scheme_for(new_sh[row0].kind),
                            ),
                        }
                    } else {
                        SyncResult { sh_values: new_sh, cfg_values }
                    }
                },
            }
        },
    }
}

/// One key event at the top of the tick: mid-edit, Enter commits the
/// buffer to the store under the remembered pre-edit name and the pane
/// returns to plain selection, and any other key edits the buffer;
/// outside edit mode the transition table applies.
pub open spec fn spec_handle_key(
    sh: StateV,
    cfg: StateV,
    sh_values: Seq<ShortcutV>,
    cfg_values: Seq<ConfigurationV>,
    save: Seq<char>,
    popup: (bool, int),
    hidde: bool,
    store: Seq<RecordV>,
    key: Key,
) -> StepResult {
    let stay = StepResult {
        shortcuts: sh,
        configurations: cfg,
        cfg_values,
        save,
        popup,
        exit: false,
        hidde,
        store,
        output: None,
    };
    match (sh, cfg) {
        (StateV::Editing { row, column, buffer, cursor }, StateV::WasSelected { .. }) => {
            if key == Key::Enter {
                StepResult {
                    shortcuts: StateV::Selected { row, column },
                    save: Seq::<char>::empty(),
                    store: spec_update_name(store, save, buffer).0,
                    ..stay
                }
            } else {
                let edited = spec_edit(buffer, cursor, key);
                StepResult {
                    shortcuts: StateV::Editing {
                        row,
                        column,
                        buffer: edited.0,
                        cursor: edited.1,
                    },
                    ..stay
                }
            }
        },
        (StateV::WasSelected { .. }, StateV::Editing { row, column, buffer, cursor }) => {
            if key == Key::Enter {
                StepResult {
                    configurations: StateV::Selected { row, column },
                    save: Seq::<char>::empty(),
                    store: spec_update_configuration(
                        store,
                        save,
                        spec_cat_semi(spec_config_values(cfg_values)),
                    ).0,
                    ..stay
                }
            } else {
                let edited = spec_edit(buffer, cursor, key);
                StepResult {
                    configurations: StateV::Editing {
                        row,
                        column,
                        buffer: edited.0,
                        cursor: edited.1,
                    },
                    ..stay
                }
            }
        },
        _ => spec_key_event(sh, cfg, sh_values, cfg_values, save, popup, hidde, store, key),
    }
}

/// Applies one key to an edit buffer and its cursor.
fn apply_edit(buffer: String, cursor: usize, key: Key) -> (r: (String, usize))
    requires
        cursor <= buffer@.len(),
    ensures
        (r.0@, r.1 as int) == spec_edit(buffer@, cursor as int, key),
        r.1 <= r.0@.len(),
{
    match key {
        Key::Char(c) => {
            let len = buffer.as_str().unicode_len();
            if len < usize::MAX {
                let pre = buffer.as_str().substring_char(0, cursor);
                let post = buffer.as_str().substring_char(cursor, len);
                let mut nb = String::from_str(pre);
                crate::text::push_char(&mut nb, c);
                nb.append(post);
                proof {
                    assert(nb@ =~= buffer@.insert(cursor as int, c));
                }
                (nb, cursor + 1)
            } else {
                (buffer, cursor)
            }
        },
        Key::Backspace => {
            let len = buffer.as_str().unicode_len();
            if cursor > 0 && len > 1 {
                let pre = buffer.as_str().substring_char(0, cursor - 1);
                let post = buffer.as_str().substring_char(cursor, len);
                let mut nb = String::from_str(pre);
                nb.append(post);
                proof {
                    assert(nb@ =~= buffer@.remove(cursor - 1));
                }
                (nb, cursor - 1)
            } else {
                (buffer, cursor)
            }
        },
        Key::Left => {
            if cursor > 0 {
                (buffer, cursor - 1)
            } else {
                (buffer, cursor)
            }
        },
        Key::Right => {
            let len = buffer.as_str().unicode_len();
            if cursor < len {
                (buffer, cursor + 1)
            } else {
                (buffer, cursor)
            }
        },
        _ => (buffer, cursor),
    }
}

/// The whole interactive application state: the two panes, the remembered
/// pre-edit name of a shortcut being renamed, the creation popup, and the
/// exit flag.
pub struct App {
    pub shortcuts: WidgetShortcuts,
    pub configurations: WidgetConfigurations,
    /// The name of the shortcut before any modification: the store's
    /// write key while an edit buffer holds the new text.
    pub save: String,
    pub show_pop_up: (bool, usize),
    pub exit: bool,
}

impl App {
    /// Both panes are renderable; exactly one pane holds focus, or both
    /// retain their rows while the creation popup is open; an open popup
    /// highlights one of the offered kinds.
    pub open spec fn wf(&self) -> bool {
        &&& self.shortcuts.wf()
        &&& self.configurations.wf()
        &&& (is_focused(self.shortcuts.state@) ==> self.configurations.state@ is WasSelected)
        &&& (is_focused(self.configurations.state@) ==> self.shortcuts.state@ is WasSelected)
        &&& (self.show_pop_up.0 <==> (self.shortcuts.state@ is WasSelected
            && self.configurations.state@ is WasSelected))
        &&& (self.show_pop_up.0 ==> self.show_pop_up.1 < spec_available_kinds().len())
    }

    /// A fresh application: the shortcut pane focused on its name column,
    /// the configuration pane inactive, no popup, one synthetic row each.
    pub fn new() -> (r: Self)
        ensures
            r.wf(),
            r.shortcuts.state@ == (StateV::Selected { row: 0, column: 1 }),
            r.configurations.state@ == (StateV::WasSelected { row: 0 }),
            r.save@ == Seq::<char>::empty(),
            r.show_pop_up == (false, 0usize),
            r.exit == false,
    {
        App {
            shortcuts: WidgetShortcuts::from(
                Vec::new(),
                State::Selected { row: 0, column: 1 },
            ),
            configurations: WidgetConfigurations::from(
                Vec::new(),
                State::WasSelected { row: 0 },
            ),
            save: String::new(),
            show_pop_up: (false, 0usize),
            exit: false,
        }
    }

    /// Ends the application loop.
    pub fn exit(&mut self)
        ensures
            *final(self) == (App { exit: true, ..*old(self) }),
    {
        self.exit = true;
    }

    pub fn should_exit(&self) -> (r: bool)
        ensures
            r == self.exit,
    {
        self.exit
    }

    pub fn pop_up(&self) -> (r: (bool, usize))
        ensures
            r == self.show_pop_up,
    {
        self.show_pop_up
    }

    /// Resolves the command of the shortcut whose kind this is, from the
    /// configuration pane's current fields; a Custom shortcut's first
    /// field is the command verbatim, and the builders never see
    /// trailing empty fields.
    pub fn get_shortcut(&self, kind: String) -> (r: String)
        requires
            self.configurations.values@.len() >= 1,
        ensures
            r@ == spec_get_shortcut(kind@, self.configurations.values.deep_view()),
    {
        let mut current: Vec<String> = Vec::new();
        let mut i: usize = 0;
        while i < self.configurations.values.len()
            invariant
                0 <= i <= self.configurations.values@.len(),
                current@.len() == i,
                forall|j: int|
                    0 <= j < i ==> (#[trigger] current@[j])@
                        == self.configurations.values@[j]@.value,
            decreases self.configurations.values@.len() - i,
        {
            current.push(self.configurations.values[i].value.clone());
            i += 1;
        }
        proof {
            assert(current.deep_view() =~= spec_config_values(
                self.configurations.values.deep_view(),
            ));
        }
        let trimmed = filter_config(current);
        if str_eq(kind.as_str(), "Oracle") {
            oracle(&trimmed)
        } else if str_eq(kind.as_str(), "MySQL") {
            mysql(&trimmed)
        } else if str_eq(kind.as_str(), "MariaDB") {
            mariadb(&trimmed)
        } else if str_eq(kind.as_str(), "PostgreSQL") {
            postgresql(&trimmed)
        } else if str_eq(kind.as_str(), "SQLite") {
            sqlite(&trimmed)
        } else if str_eq(kind.as_str(), "Redis") {
            redis(&trimmed)
        } else if str_eq(kind.as_str(), "MongoDB") {
            mongodb(&trimmed)
        } else if str_eq(kind.as_str(), "Neo4j") {
            neo4j(&trimmed)
        } else if str_eq(kind.as_str(), "Custom") {
            self.configurations.values[0].value.clone()
        } else {
            String::new()
        }
    }

    /// Commits an edit buffer to the store, keyed by the remembered
    /// pre-edit name: a shortcut rename writes the new name; a field edit
    /// re-persists the configuration pane's full field sequence.
    pub fn save_editing(&mut self, store: &mut Database, new_value: String, is_shortcut: bool)
        requires
            old(store).wf(),
        ensures
            final(store).wf(),
            is_shortcut ==> final(store)@ == spec_update_name(
                old(store)@,
                old(self).save@,
                new_value@,
            ).0,
            !is_shortcut ==> final(store)@ == spec_update_configuration(
                old(store)@,
                old(self).save@,
                spec_cat_semi(
                    spec_config_values(old(self).configurations.values.deep_view()),
                ),
            ).0,
            final(self).save@ == Seq::<char>::empty(),
            final(self).shortcuts == old(self).shortcuts,
            final(self).configurations == old(self).configurations,
            final(self).show_pop_up == old(self).show_pop_up,
            final(self).exit == old(self).exit,
    {
        if is_shortcut {
            let statement = WriteStatement::UpdateName {
                name: self.save.clone(),
                new_name: new_value,
            };
            let _ = store.query_write(&statement);
        } else {
            let configuration = format_config(&self.configurations.values);
            let statement = WriteStatement::UpdateConfiguration {
                name: self.save.clone(),
                configuration,
            };
            let _ = store.query_write(&statement);
        }
        self.save = String::new();
    }

    /// Inserts a new shortcut of the kind the popup highlights, under an
    /// auto-generated name, with the scheme-appropriate placeholder
    /// values; a name collision leaves the store unchanged.
    pub fn add_new_shortcut(&self, store: &mut Database)
        requires
            old(store).wf(),
            self.show_pop_up.1 < spec_available_kinds().len(),
        ensures
            final(store).wf(),
            final(store)@ == spec_insert(
                old(store)@,
                new_shortcut_record(
                    spec_names(self.shortcuts.values.deep_view()),
                    self.show_pop_up.1 as int,
                ),
            ).0,
    {
        let kinds = available_kinds();
        let kind = &kinds[self.show_pop_up.1];
        let names = shortcut_names(&self.shortcuts.values);
        if str_eq(kind.as_str(), "Custom") {
            let new_name = crate::naming::generate_name(names);
            let statement = WriteStatement::Insert {
                name: new_name,
                configuration: String::from_str("echo Welcome on MyShortcuts"),
                kind: String::from_str("Custom"),
            };
            let _ = store.query_write(&statement);
        } else {
            let labels = scheme_labels(kind.as_str());
            insert_default_config(store, names, kind.as_str(), labels.len());
        }
    }

    /// One key event per tick. Mid-edit, Enter commits the buffer to the
    /// store keyed by the remembered pre-edit name and focus returns to
    /// plain selection; other keys edit the buffer. Outside edit mode the
    /// transition table applies, and a launched shortcut's command is
    /// returned.
    pub fn handle_key(&mut self, store: &mut Database, key: Key) -> (r: Option<String>)
        requires
            old(self).wf(),
            old(store).wf(),
        ensures
            final(self).wf(),
            final(store).wf(),
            final(self).shortcuts.values == old(self).shortcuts.values,
            ({
                let sr = spec_handle_key(
                    old(self).shortcuts.state@,
                    old(self).configurations.state@,
                    old(self).shortcuts.values.deep_view(),
                    old(self).configurations.values.deep_view(),
                    old(self).save@,
                    (old(self).show_pop_up.0, old(self).show_pop_up.1 as int),
                    old(self).configurations.hidde,
                    old(store)@,
                    key,
                );
                &&& final(self).shortcuts.state@ == sr.shortcuts
                &&& final(self).configurations.state@ == sr.configurations
                &&& final(self).configurations.values.deep_view() == sr.cfg_values
                &&& final(self).save@ == sr.save
                &&& final(self).show_pop_up.0 == sr.popup.0
                &&& final(self).show_pop_up.1 as int == sr.popup.1
                &&& final(self).configurations.hidde == sr.hidde
                &&& final(self).exit == (old(self).exit || sr.exit)
                &&& final(store)@ == sr.store
                &&& (match (r, sr.output) {
                    (Some(s), Some(t)) => s@ == t,
                    (None, None) => true,
                    _ => false,
                })
            }),
    {
        match (self.shortcuts.get_state(), self.configurations.get_state()) {
            (
                State::Editing { row, column, buffer, cursor },
                State::WasSelected { .. },
            ) => {
                if key == Key::Enter {
                    self.save_editing(store, buffer, true);
                    self.shortcuts.set_state(State::Selected { row, column });
                } else {
                    let edited = apply_edit(buffer, cursor, key);
                    self.shortcuts.set_state(
                        State::Editing { row, column, buffer: edited.0, cursor: edited.1 },
                    );
                }
                None
            },
            (
                State::WasSelected { .. },
                State::Editing { row, column, buffer, cursor },
            ) => {
                if key == Key::Enter {
                    self.save_editing(store, buffer, false);
                    self.configurations.set_state(State::Selected { row, column });
                } else {
                    let edited = apply_edit(buffer, cursor, key);
                    self.configurations.set_state(
                        State::Editing { row, column, buffer: edited.0, cursor: edited.1 },
                    );
                }
                None
            },
            _ => self.handle_key_event(store, key),
        }
    }

    /// The per-frame synchronization step, run before drawing whenever a
    /// frame begins: mid-edit the buffer is layered onto the edited row;
    /// otherwise both panes are re-derived from the store, the shortcut
    /// list first and then the configuration fields of the highlighted
    /// shortcut, so the panes never go stale against the store.
    pub fn update_widgets_args(&mut self, store: &Database)
        requires
            old(self).wf(),
            store.wf(),
        ensures
            final(self).wf(),
            ({
                let sr = spec_sync(
                    old(self).shortcuts.state@,
                    old(self).configurations.state@,
                    old(self).shortcuts.values.deep_view(),
                    old(self).configurations.values.deep_view(),
                    store@,
                );
                &&& final(self).shortcuts.values.deep_view() == sr.sh_values
                &&& final(self).configurations.values.deep_view() == sr.cfg_values
            }),
            final(self).shortcuts.state == old(self).shortcuts.state,
            final(self).configurations.state == old(self).configurations.state,
            final(self).configurations.hidde == old(self).configurations.hidde,
            final(self).save == old(self).save,
            final(self).show_pop_up == old(self).show_pop_up,
            final(self).exit == old(self).exit,
    {
        match self.shortcuts.get_state() {
            State::Editing { row, buffer, .. } => {
                if row < self.shortcuts.values.len() {
                    let kind = self.shortcuts.values[row].kind.clone();
                    let ghost sv0 = self.shortcuts.values.deep_view();
                    self.shortcuts.values.set(row, Shortcut { name: buffer, kind });
                    proof {
                        assert(self.shortcuts.values.deep_view() =~= sv0.update(
                            row as int,
                            ShortcutV {
                                name: old(self).shortcuts.state@->Editing_buffer,
                                kind: sv0[row as int].kind,
                            },
                        ));
                    }
                }
                return;
            },
            _ => {
                let listing = match store.query_read(&ReadStatement::SelectShortcuts) {
                    Ok(s) => s,
                    Err(_) => unreached(),
                };
                let rows = split_char(listing.as_str(), '\n');
                let ghost rv = rows.deep_view();
                let mut parsed: Vec<Shortcut> = Vec::new();
                let mut i: usize = 0;
                proof {
                    assert(rv.subrange(0, rv.len() as int) =~= rv);
                    assert(parsed.deep_view() + spec_parse_rows(rv) =~= spec_parse_rows(rv));
                }
                while i < rows.len()
                    invariant
                        0 <= i <= rows.len(),
                        rv == rows.deep_view(),
                        rv.len() == rows@.len(),
                        spec_parse_rows(rv) =~= parsed.deep_view() + spec_parse_rows(
                            rv.subrange(i as int, rv.len() as int),
                        ),
                    decreases rows.len() - i,
                {
                    let ghost rest = rv.subrange(i as int, rv.len() as int);
                    proof {
                        assert(rest[0] == rv[i as int]);
                        assert(rest.drop_first() =~= rv.subrange(i + 1, rv.len() as int));
                    }
                    let row_text = &rows[i];
                    if !row_text.as_str().is_empty() {
                        let ghost p0 = parsed.deep_view();
                        match Shortcut::parse(row_text.as_str()) {
                            Ok(s) => parsed.push(s),
                            Err(_) => parsed.push(Shortcut::default()),
                        }
                        proof {
                            assert(parsed.deep_view() =~= p0 + seq![
                                spec_parse_shortcut(rv[i as int]),
                            ]);
                        }
                    }
                    i += 1;
                }
                proof {
                    assert(rv.subrange(rv.len() as int, rv.len() as int)
                        =~= Seq::<Seq<char>>::empty());
                    assert(parsed.deep_view() =~= spec_parse_rows(rv));
                }
                self.shortcuts.set_values(parsed);
            },
        }
        match (self.shortcuts.get_state(), self.configurations.get_state()) {
            (_, State::Editing { row, buffer, .. }) => {
                if row < self.configurations.values.len() {
                    let kind = self.configurations.values[row].kind.clone();
                    let ghost cv0 = self.configurations.values.deep_view();
                    self.configurations.values.set(row, Configuration { value: buffer, kind });
                    proof {
                        assert(self.configurations.values.deep_view() =~= cv0.update(
                            row as int,
                            ConfigurationV {
                                value: old(self).configurations.state@->Editing_buffer,
                                kind: cv0[row as int].kind,
                            },
                        ));
                    }
                }
            },
            (sh_state, _) => {
                let row0 = match sh_state {
                    State::Selected { row, .. } => row,
                    State::WasSelected { row } => row,
                    State::Editing { row, .. } => row,
                };
                if row0 < self.shortcuts.values.len() {
                    let name = self.shortcuts.values[row0].name.clone();
                    let statement = ReadStatement::SelectConfiguration { name };
                    let cfgstr = match store.query_read(&statement) {
                        Ok(s) => s,
                        Err(_) => unreached(),
                    };
                    let raw = split_char(cfgstr.as_str(), ';');
                    let mut parts: Vec<String> = Vec::new();
                    let mut i: usize = 0;
                    while i < raw.len()
                        invariant
                            0 <= i <= raw.len(),
                            parts@.len() == i,
                            forall|j: int|
                                0 <= j < i ==> (#[trigger] parts@[j])@ == spec_trim_end(
                                    raw.deep_view()[j],
                                ),
                        decreases raw.len() - i,
                    {
                        parts.push(trim_end(raw[i].as_str()));
                        i += 1;
                    }
                    proof {
                        assert(parts.deep_view() =~= raw.deep_view().map_values(
                            |p: Seq<char>| spec_trim_end(p),
                        ));
                    }
                    let kind = self.shortcuts.values[row0].kind.clone();
                    let new_cfg = get_current_config(parts, kind.as_str());
                    self.configurations.set_values(new_cfg);
                    proof {
                        assert(spec_scheme_for(kind@).len() >= 1);
                    }
                }
            },
        }
    }

    /// One key event outside edit mode, as the transition table gives it:
    /// wrapping row movement, clamped-then-handed-off column movement,
    /// edit-mode entry, deletion with last-row reseeding, creation through
    /// the popup, masking, and quitting. The command of a launched
    /// shortcut comes back to the caller.
    pub fn handle_key_event(&mut self, store: &mut Database, key: Key) -> (r: Option<String>)
        requires
            old(self).wf(),
            old(store).wf(),
            !(old(self).shortcuts.state@ is Editing),
            !(old(self).configurations.state@ is Editing),
        ensures
            final(self).wf(),
            final(store).wf(),
            final(self).shortcuts.values == old(self).shortcuts.values,
            ({
                let sr = spec_key_event(
                    old(self).shortcuts.state@,
                    old(self).configurations.state@,
                    old(self).shortcuts.values.deep_view(),
                    old(self).configurations.values.deep_view(),
                    old(self).save@,
                    (old(self).show_pop_up.0, old(self).show_pop_up.1 as int),
                    old(self).configurations.hidde,
                    old(store)@,
                    key,
                );
                &&& final(self).shortcuts.state@ == sr.shortcuts
                &&& final(self).configurations.state@ == sr.configurations
                &&& final(self).configurations.values.deep_view() == sr.cfg_values
                &&& final(self).save@ == sr.save
                &&& final(self).show_pop_up.0 == sr.popup.0
                &&& final(self).show_pop_up.1 as int == sr.popup.1
                &&& final(self).configurations.hidde == sr.hidde
                &&& final(self).exit == (old(self).exit || sr.exit)
                &&& final(store)@ == sr.store
                &&& (match (r, sr.output) {
                    (Some(s), Some(t)) => s@ == t,
                    (None, None) => true,
                    _ => false,
                })
            }),
    {
        match (self.shortcuts.get_state(), self.configurations.get_state(), key) {
            (State::Selected { row, column }, State::WasSelected { .. }, Key::Up) => {
                let len = self.shortcuts.values.len();
                let index = if row > 0 {
                    row - 1
                } else {
                    len - 1
                };
                self.shortcuts.set_state(State::Selected { row: index, column });
            },
            (State::Selected { row, column }, State::WasSelected { .. }, Key::Down) => {
                let len = self.shortcuts.values.len();
                let index = if row < len - 1 {
                    row + 1
                } else {
                    0
                };
                self.shortcuts.set_state(State::Selected { row: index, column });
            },
            (State::WasSelected { .. }, State::Selected { row, column }, Key::Up) => {
                let len = self.configurations.values.len();
                let index = if row > 0 {
                    row - 1
                } else {
                    len - 1
                };
                self.configurations.set_state(State::Selected { row: index, column });
            },
            (State::WasSelected { .. }, State::Selected { row, column }, Key::Down) => {
                let len = self.configurations.values.len();
                let index = if row < len - 1 {
                    row + 1
                } else {
                    0
                };
                self.configurations.set_state(State::Selected { row: index, column });
            },
            (State::Selected { row, column }, State::WasSelected { row: r2 }, Key::Right) => {
                self.switch_selected_widget(row, column, r2, true);
            },
            (State::WasSelected { row: r2 }, State::Selected { row, column }, Key::Right) => {
                self.switch_selected_widget(row, column, r2, false);
            },
            (State::Selected { row, column }, State::WasSelected { .. }, Key::Left) => {
                if column > 0 {
                    self.shortcuts.set_state(State::Selected { row, column: column - 1 });
                }
            },
            (State::WasSelected { .. }, State::Selected { row, column }, Key::Left) => {
                if column > 0 {
                    self.configurations.set_state(
                        State::Selected { row, column: column - 1 },
                    );
                }
            },
            (State::Selected { .. }, State::WasSelected { .. }, Key::Esc)
                | (State::WasSelected { .. }, State::Selected { .. }, Key::Esc) => {
                self.exit();
            },
            (State::Selected { row, column }, State::WasSelected { .. }, Key::Char(c)) => {
                return self.focused_char_key(store, c, row, column, true);
            },
            (State::WasSelected { .. }, State::Selected { row, column }, Key::Char(c)) => {
                return self.focused_char_key(store, c, row, column, false);
            },
            (State::WasSelected { .. }, State::WasSelected { .. }, Key::Up) => {
                let nkinds = crate::scheme::available_kinds_len();
                if self.show_pop_up.1 == 0 {
                    self.show_pop_up.1 = nkinds - 1;
                } else {
                    self.show_pop_up.1 = self.show_pop_up.1 - 1;
                }
                self.show_pop_up.0 = true;
            },
            (State::WasSelected { .. }, State::WasSelected { .. }, Key::Down) => {
                let nkinds = crate::scheme::available_kinds_len();
                self.show_pop_up = (true, (self.show_pop_up.1 + 1) % nkinds);
            },
            (State::WasSelected { row: r0 }, State::WasSelected { .. }, Key::Enter) => {
                self.add_new_shortcut(store);
                self.show_pop_up = (false, 0);
                self.shortcuts.set_state(State::Selected { row: r0, column: 0 });
            },
            (State::WasSelected { row: r0 }, State::WasSelected { .. }, Key::Esc) => {
                self.show_pop_up = (false, 0);
                self.shortcuts.set_state(State::Selected { row: r0, column: 0 });
            },
            (State::WasSelected { row: r0 }, State::WasSelected { .. }, Key::Char(c)) => {
                if c == 'q' || c == 'Q' {
                    self.show_pop_up = (false, 0);
                    self.shortcuts.set_state(State::Selected { row: r0, column: 0 });
                } else if c == 'h' || c == 'H' {
                    self.configurations.hidde();
                }
            },
            _ => {},
        }
        None
    }

    /// The focus hand-off: within the focused pane Right advances the
    /// column; at the last column the focused pane retains its row and
    /// the other pane wakes at its retained row, column 0.
    pub fn switch_selected_widget(&mut self, row: usize, column: usize, r2: usize, from_shortcuts: bool)
        requires
            old(self).wf(),
            from_shortcuts ==> old(self).shortcuts.state@ == (StateV::Selected {
                row: row as int,
                column: column as int,
            }) && old(self).configurations.state@ == (StateV::WasSelected { row: r2 as int }),
            !from_shortcuts ==> old(self).configurations.state@ == (StateV::Selected {
                row: row as int,
                column: column as int,
            }) && old(self).shortcuts.state@ == (StateV::WasSelected { row: r2 as int }),
        ensures
            final(self).wf(),
            final(self).shortcuts.state@ == spec_right(
                old(self).shortcuts.state@,
                old(self).configurations.state@,
            ).0,
            final(self).configurations.state@ == spec_right(
                old(self).shortcuts.state@,
                old(self).configurations.state@,
            ).1,
            final(self).shortcuts.values == old(self).shortcuts.values,
            final(self).configurations.values == old(self).configurations.values,
            final(self).configurations.hidde == old(self).configurations.hidde,
            final(self).save == old(self).save,
            final(self).show_pop_up == old(self).show_pop_up,
            final(self).exit == old(self).exit,
    {
        if from_shortcuts {
            if column < 1 {
                self.shortcuts.set_state(State::Selected { row, column: column + 1 });
            } else {
                self.shortcuts.set_state(State::WasSelected { row });
                self.configurations.set_state(State::Selected { row: r2, column: 0 });
            }
        } else {
            if column < 1 {
                self.configurations.set_state(State::Selected { row, column: column + 1 });
            } else {
                self.configurations.set_state(State::WasSelected { row });
                self.shortcuts.set_state(State::Selected { row: r2, column: 0 });
            }
        }
    }

    /// One character key with a pane focused: launch, add, delete or
    /// reset, edit, mask, or quit.
    fn focused_char_key(
        &mut self,
        store: &mut Database,
        c: char,
        row: usize,
        column: usize,
        shortcuts_focused: bool,
    ) -> (r: Option<String>)
        requires
            old(self).wf(),
            old(store).wf(),
            shortcuts_focused ==> old(self).shortcuts.state@ == (StateV::Selected {
                row: row as int,
                column: column as int,
            }) && old(self).configurations.state@ is WasSelected,
            !shortcuts_focused ==> old(self).configurations.state@ == (StateV::Selected {
                row: row as int,
                column: column as int,
            }) && old(self).shortcuts.state@ is WasSelected,
        ensures
            final(self).wf(),
            final(store).wf(),
            final(self).shortcuts.values == old(self).shortcuts.values,
            ({
                let sr = spec_key_event(
                    old(self).shortcuts.state@,
                    old(self).configurations.state@,
                    old(self).shortcuts.values.deep_view(),
                    old(self).configurations.values.deep_view(),
                    old(self).save@,
                    (old(self).show_pop_up.0, old(self).show_pop_up.1 as int),
                    old(self).configurations.hidde,
                    old(store)@,
                    Key::Char(c),
                );
                &&& final(self).shortcuts.state@ == sr.shortcuts
                &&& final(self).configurations.state@ == sr.configurations
                &&& final(self).configurations.values.deep_view() == sr.cfg_values
                &&& final(self).save@ == sr.save
                &&& final(self).show_pop_up.0 == sr.popup.0
                &&& final(self).show_pop_up.1 as int == sr.popup.1
                &&& final(self).configurations.hidde == sr.hidde
                &&& final(self).exit == (old(self).exit || sr.exit)
                &&& final(store)@ == sr.store
                &&& (match (r, sr.output) {
                    (Some(s), Some(t)) => s@ == t,
                    (None, None) => true,
                    _ => false,
                })
            }),
    {
        if c == 'o' || c == 'O' {
            self.exit();
            let row0 = if shortcuts_focused {
                row
            } else {
                match self.shortcuts.get_state() {
                    State::WasSelected { row: r2 } => r2,
                    _ => 0,
                }
            };
            if row0 < self.shortcuts.values.len() {
                let kind = self.shortcuts.values[row0].kind.clone();
                let command = self.get_shortcut(kind);
                return Some(command);
            }
            return None;
        }
        if c == 'a' || c == 'A' {
            if shortcuts_focused {
                self.shortcuts.set_state(State::WasSelected { row });
            } else {
                self.configurations.set_state(State::WasSelected { row });
            }
            self.show_pop_up = (true, 0);
            return None;
        }
        if c == 'r' || c == 'R' {
            if shortcuts_focused {
                if row < self.shortcuts.values.len() {
                    let name = self.shortcuts.values[row].name.clone();
                    let statement = WriteStatement::Delete { name };
                    let _ = store.query_write(&statement);
                    if self.shortcuts.values.len() == 1 {
                        let seed = WriteStatement::Insert {
                            name: String::from_str("Default0"),
                            configuration: String::from_str("echo Welcome on MyShortcuts !"),
                            kind: String::from_str("Custom"),
                        };
                        let _ = store.query_write(&seed);
                    }
                    let index = if row > 0 {
                        row - 1
                    } else {
                        0
                    };
                    self.shortcuts.set_state(State::Selected { row: index, column });
                }
            } else {
                let r2 = match self.shortcuts.get_state() {
                    State::WasSelected { row: r } => r,
                    _ => 0,
                };
                if r2 < self.shortcuts.values.len() && row < self.configurations.values.len() {
                    let kind_label = self.configurations.values[row].kind.clone();
                    let blank = Configuration { value: String::new(), kind: kind_label };
                    let ghost cv0 = self.configurations.values.deep_view();
                    self.configurations.values.set(row, blank);
                    proof {
                        assert(self.configurations.values.deep_view() =~= cv0.update(
                            row as int,
                            ConfigurationV {
                                value: Seq::<char>::empty(),
                                kind: cv0[row as int].kind,
                            },
                        ));
                    }
                    let configuration = format_config(&self.configurations.values);
                    let name = self.shortcuts.values[r2].name.clone();
                    let statement = WriteStatement::UpdateConfiguration { name, configuration };
                    let _ = store.query_write(&statement);
                }
            }
            return None;
        }
        if c == 'e' || c == 'E' {
            if shortcuts_focused {
                if row < self.shortcuts.values.len() {
                    let name = self.shortcuts.values[row].name.clone();
                    self.save = self.shortcuts.values[row].name.clone();
                    let cursor = name.as_str().unicode_len();
                    self.shortcuts.set_state(
                        State::Editing { row, column: 1, buffer: name, cursor },
                    );
                }
            } else {
                let r2 = match self.shortcuts.get_state() {
                    State::WasSelected { row: r } => r,
                    _ => 0,
                };
                if r2 < self.shortcuts.values.len() {
                    let used = if row < self.configurations.values.len() {
                        row
                    } else {
                        0
                    };
                    let value = self.configurations.values[used].value.clone();
                    self.save = self.shortcuts.values[r2].name.clone();
                    let cursor = value.as_str().unicode_len();
                    self.configurations.set_state(
                        State::Editing { row: used, column: 1, buffer: value, cursor },
                    );
                }
            }
            return None;
        }
        if c == 'h' || c == 'H' {
            self.configurations.hidde();
            return None;
        }
        if c == 'q' || c == 'Q' {
            self.exit();
            return None;
        }
        None
    }
}

} // verus!
