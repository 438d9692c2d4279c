//! Laws of the state machine and of the store formats, each proved from
//! the specifications the executable functions carry.

use vstd::prelude::*;
use crate::controller::{spec_left, spec_project, spec_right};
use crate::pane::StateV;
use crate::scheme::spec_scheme_for;
use crate::objects::ShortcutV;
use crate::store::{
    spec_delete, spec_index_of, spec_insert, spec_shortcut_rows, wf_text, RecordV,
};
use crate::text::{
    lemma_split_len, lemma_split_no_sep, lemma_split_part, spec_cat_semi, spec_split,
    spec_trim_end,
};
use crate::{spec_row_down, spec_row_up};

verus! {

/// Pressing Down `k` times from `row` in a pane of `len` rows.
pub open spec fn iter_row_down(row: int, len: int, k: nat) -> int
    decreases k,
{
    if k == 0 {
        row
    } else {
        spec_row_down(iter_row_down(row, len, (k - 1) as nat), len)
    }
}

/// Pressing Up `k` times from `row` in a pane of `len` rows.
pub open spec fn iter_row_up(row: int, len: int, k: nat) -> int
    decreases k,
{
    if k == 0 {
        row
    } else {
        spec_row_up(iter_row_up(row, len, (k - 1) as nat), len)
    }
}

proof fn lemma_iter_down_shape(row: int, len: int, k: nat)
    requires
        0 <= row < len,
        k <= len,
    ensures
        iter_row_down(row, len, k) == if row + k < len {
            row + k
        } else {
            row + k - len
        },
    decreases k,
{
    if k > 0 {
        lemma_iter_down_shape(row, len, (k - 1) as nat);
    }
}

proof fn lemma_iter_up_shape(row: int, len: int, k: nat)
    requires
        0 <= row < len,
        k <= len,
    ensures
        iter_row_up(row, len, k) == if row - k >= 0 {
            row - k
        } else {
            row - k + len
        },
    decreases k,
{
    if k > 0 {
        lemma_iter_up_shape(row, len, (k - 1) as nat);
    }
}

/// Row selection under Up/Down is a cycle of order `len`: pressing Down
/// `len` times returns to the original row, and so does pressing Up
/// `len` times.
pub proof fn lemma_row_selection_cyclic(row: int, len: int)
    requires
        0 <= row < len,
    ensures
        iter_row_down(row, len, len as nat) == row,
        iter_row_up(row, len, len as nat) == row,
{
    lemma_iter_down_shape(row, len, len as nat);
    lemma_iter_up_shape(row, len, len as nat);
}

/// Pressing Left at column 0 changes nothing, from either focused pane:
/// repeated Left presses stay at the leftmost column.
pub proof fn lemma_left_stays_at_leftmost(r: int, r2: int)
    ensures
        spec_left(StateV::Selected { row: r, column: 0 }, StateV::WasSelected { row: r2 })
            == (
            StateV::Selected { row: r, column: 0 },
            StateV::WasSelected { row: r2 },
        ),
        spec_left(StateV::WasSelected { row: r2 }, StateV::Selected { row: r, column: 0 })
            == (
            StateV::WasSelected { row: r2 },
            StateV::Selected { row: r, column: 0 },
        ),
{
}

/// Pressing Right at the last column hands focus to the other pane
/// exactly once per press: the hand-off wakes the other pane at its
/// retained row and column 0, and the next Right press only advances
/// that pane's column, never skipping a pane.
pub proof fn lemma_right_hands_off_once(r: int, r2: int)
    ensures
        spec_right(StateV::Selected { row: r, column: 1 }, StateV::WasSelected { row: r2 })
            == (
            StateV::WasSelected { row: r },
            StateV::Selected { row: r2, column: 0 },
        ),
        spec_right(
            StateV::WasSelected { row: r },
            StateV::Selected { row: r2, column: 0 },
        ) == (
            StateV::WasSelected { row: r },
            StateV::Selected { row: r2, column: 1 },
        ),
        spec_right(StateV::WasSelected { row: r2 }, StateV::Selected { row: r, column: 1 })
            == (
            StateV::Selected { row: r2, column: 0 },
            StateV::WasSelected { row: r },
        ),
        spec_right(
            StateV::Selected { row: r2, column: 0 },
            StateV::WasSelected { row: r },
        ) == (
            StateV::Selected { row: r2, column: 1 },
            StateV::WasSelected { row: r },
        ),
{
}

/// Round trip of a persisted configuration: a field sequence written with
/// the `;`-joined formatting rule, read back with the store's `;`-and-
/// newline framing, and projected through the scheme for `kind` equals
/// the original sequence up to trailing-empty padding or truncation to
/// the scheme length. It holds of values free of the separator and of
/// trailing whitespace, which the trim step would alter.
pub proof fn lemma_config_round_trip(values: Seq<Seq<char>>, kind: Seq<char>)
    requires
        forall|i: int|
            0 <= i < values.len() ==> !(#[trigger] values[i]).contains(';') && spec_trim_end(
                values[i],
            ) == values[i],
    ensures
        ({
            let stored = spec_cat_semi(values);
            let parts = spec_split(stored + ";\n"@, ';').map_values(
                |p: Seq<char>| spec_trim_end(p),
            );
            let projected = spec_project(parts, spec_scheme_for(kind));
            &&& projected.len() == spec_scheme_for(kind).len()
            &&& forall|i: int|
                0 <= i < projected.len() ==> (#[trigger] projected[i]).value == (if i
                    < values.len() {
                    values[i]
                } else {
                    Seq::<char>::empty()
                })
        }),
{
    let stored = spec_cat_semi(values);
    let read = stored + ";\n"@;
    proof_split_semi_newline();
    crate::text::lemma_split_cat_semi(values, ";\n"@);
    let split = spec_split(read, ';');
    assert(split =~= values + seq![Seq::<char>::empty(), seq!['\n']]);
    let parts = split.map_values(|p: Seq<char>| spec_trim_end(p));
    assert(parts.len() == values.len() + 2);
    assert forall|i: int| 0 <= i < parts.len() implies #[trigger] parts[i] == (if i
        < values.len() {
        values[i]
    } else {
        Seq::<char>::empty()
    }) by {
        if i < values.len() {
            assert(split[i] == values[i]);
        } else if i == values.len() {
            assert(split[i] =~= Seq::<char>::empty());
        } else {
            assert(split[i] =~= seq!['\n']);
            assert(seq!['\n'].last() == '\n');
            assert(seq!['\n'].drop_last() =~= Seq::<char>::empty());
            assert(spec_trim_end(Seq::<char>::empty()) =~= Seq::<char>::empty());
            assert(spec_trim_end(seq!['\n']) =~= Seq::<char>::empty());
        }
    }
}

proof fn proof_split_semi_newline()
    ensures
        spec_split(";\n"@, ';') =~= seq![Seq::<char>::empty(), seq!['\n']],
{
    reveal_strlit(";\n");
    assert(";\n"@ =~= seq![';', '\n']);
    let s = seq![';', '\n'];
    assert(s[0] == ';');
    assert(s.drop_first() =~= seq!['\n']);
    assert(!seq!['\n'].contains(';')) by {
        if seq!['\n'].contains(';') {
            let j = choose|j: int| 0 <= j < 1 && seq!['\n'][j] == ';';
            assert(seq!['\n'][j] == '\n');
        }
    }
    lemma_split_no_sep(seq!['\n'], ';');
    assert(spec_split(s, ';') =~= seq![Seq::<char>::empty()] + seq![seq!['\n']]);
}

/// Deleting the sole remaining shortcut and reseeding the store leaves
/// it holding exactly one default Custom shortcut, never zero rows.
pub proof fn lemma_delete_last_row_reseeds(store: Seq<RecordV>, name: Seq<char>)
    requires
        store.len() == 1,
        store[0].name == name,
    ensures
        ({
            let emptied = spec_delete(store, name).0;
            let reseeded = spec_insert(
                emptied,
                crate::controller::default_record(),
            ).0;
            &&& emptied.len() == 0
            &&& reseeded.len() == 1
            &&& reseeded[0] == crate::controller::default_record()
        }),
{
    assert(spec_index_of(store, name) == Some(0int));
    let emptied = spec_delete(store, name).0;
    assert(emptied =~= store.remove(0));
    assert(emptied.len() == 0);
    let rec = crate::controller::default_record();
    assert(wf_text(rec.name)) by {
        reveal_strlit("Default0");
        assert forall|i: int| 0 <= i < "Default0"@.len() implies "Default0"@[i] != ';'
            && "Default0"@[i] != '\n' by {}
        if "Default0"@.contains(';') {
            let j = choose|j: int| 0 <= j < "Default0"@.len() && "Default0"@[j] == ';';
        }
        if "Default0"@.contains('\n') {
            let j = choose|j: int| 0 <= j < "Default0"@.len() && "Default0"@[j] == '\n';
        }
    }
    assert(wf_text(rec.kind)) by {
        reveal_strlit("Custom");
        assert forall|i: int| 0 <= i < "Custom"@.len() implies "Custom"@[i] != ';'
            && "Custom"@[i] != '\n' by {}
        if "Custom"@.contains(';') {
            let j = choose|j: int| 0 <= j < "Custom"@.len() && "Custom"@[j] == ';';
        }
        if "Custom"@.contains('\n') {
            let j = choose|j: int| 0 <= j < "Custom"@.len() && "Custom"@[j] == '\n';
        }
    }
    assert(!crate::store::spec_has_name(emptied, rec.name));
    let reseeded = spec_insert(emptied, rec).0;
    assert(crate::store::insert_pos(emptied, rec.kind) == 0);
    assert(reseeded =~= emptied.insert(0, rec));
    assert(reseeded.len() == 1);
    assert(reseeded[0] == rec);
}

/// Pressing delete with the sole remaining shortcut selected in a pane
/// synchronized with the store leaves the store holding exactly one
/// default Custom shortcut — never zero rows.
pub proof fn lemma_delete_sole_shortcut_reseeds(
    column: int,
    r2: int,
    sh_values: Seq<ShortcutV>,
    cfg_values: Seq<crate::objects::ConfigurationV>,
    save: Seq<char>,
    popup: (bool, int),
    hidde: bool,
    store: Seq<RecordV>,
)
    requires
        store.len() == 1,
        sh_values.len() == 1,
        sh_values[0].name == store[0].name,
    ensures
        ({
            let stepped = crate::controller::spec_key_event(
                StateV::Selected { row: 0, column },
                StateV::WasSelected { row: r2 },
                sh_values,
                cfg_values,
                save,
                popup,
                hidde,
                store,
                crate::controller::Key::Char('r'),
            );
            &&& stepped.store.len() == 1
            &&& stepped.store[0] == crate::controller::default_record()
        }),
{
    lemma_delete_last_row_reseeds(store, sh_values[0].name);
}

/// The synchronization invariant of the listing: reading a well-formed
/// store's shortcut listing and parsing it back yields exactly the
/// stored names and kinds, in stored order — what the user sees equals
/// what the store holds. A committed rename is therefore visible at the
/// next synchronization.
pub proof fn lemma_listing_round_trip(rows: Seq<RecordV>)
    requires
        forall|i: int|
            0 <= i < rows.len() ==> wf_text(#[trigger] rows[i].name) && wf_text(
                rows[i].kind,
            ),
    ensures
        ({
            let parsed = crate::controller::spec_shortcut_list(spec_shortcut_rows(rows));
            &&& parsed.len() == rows.len()
            &&& forall|i: int|
                0 <= i < rows.len() ==> (#[trigger] parsed[i]).name == rows[i].name
                    && parsed[i].kind == rows[i].kind
        }),
    decreases rows.len(),
{
    reveal_strlit(";");
    reveal_strlit(";\n");
    reveal_strlit("\n");
    assert(";"@ =~= seq![';']);
    assert(";\n"@ =~= seq![';', '\n']);
    if rows.len() == 0 {
        assert(spec_shortcut_rows(rows) =~= Seq::<char>::empty());
        assert(spec_split(Seq::<char>::empty(), '\n') =~= seq![Seq::<char>::empty()]);
        let one_empty = seq![Seq::<char>::empty()];
        assert(one_empty[0].len() == 0);
        assert(one_empty.drop_first() =~= Seq::<Seq<char>>::empty());
        assert(crate::controller::spec_parse_rows(Seq::<Seq<char>>::empty())
            =~= Seq::<ShortcutV>::empty());
        assert(crate::controller::spec_parse_rows(one_empty) =~= Seq::<ShortcutV>::empty());
    } else {
        let head = rows[0];
        let chunk = head.name + seq![';'] + head.kind + seq![';'];
        let rest = spec_shortcut_rows(rows.drop_first());
        assert(spec_shortcut_rows(rows) =~= chunk + seq!['\n'] + rest);
        assert(!chunk.contains('\n')) by {
            if chunk.contains('\n') {
                let j = choose|j: int| 0 <= j < chunk.len() && chunk[j] == '\n';
                if j < head.name.len() {
                    assert(head.name[j] == '\n');
                    assert(head.name.contains('\n'));
                } else if j == head.name.len() {
                    assert(chunk[j] == ';');
                } else if j < head.name.len() + 1 + head.kind.len() {
                    assert(head.kind[j - head.name.len() - 1] == '\n');
                    assert(head.kind.contains('\n'));
                } else {
                    assert(chunk[j] == ';');
                }
            }
        }
        lemma_split_part(chunk, rest, '\n');
        assert(spec_split(spec_shortcut_rows(rows), '\n') =~= seq![chunk] + spec_split(
            rest,
            '\n',
        ));
        assert(chunk.len() > 0);
        lemma_listing_round_trip(rows.drop_first());
        assert forall|i: int|
            0 <= i < rows.drop_first().len() implies wf_text(
            #[trigger] rows.drop_first()[i].name,
        ) && wf_text(rows.drop_first()[i].kind) by {
            assert(rows.drop_first()[i] == rows[i + 1]);
        }
        let parsed = crate::controller::spec_shortcut_list(spec_shortcut_rows(rows));
        let parsed_rest = crate::controller::spec_shortcut_list(rest);
        let sp = seq![chunk] + spec_split(rest, '\n');
        assert(sp[0] == chunk);
        assert(sp.drop_first() =~= spec_split(rest, '\n'));
        assert(parsed == crate::controller::spec_parse_rows(sp));
        assert(crate::controller::spec_parse_rows(sp) =~= seq![
            crate::controller::spec_parse_shortcut(chunk),
        ] + crate::controller::spec_parse_rows(spec_split(rest, '\n')));
        assert(parsed =~= seq![crate::controller::spec_parse_shortcut(chunk)] + parsed_rest);
        assert(crate::controller::spec_parse_shortcut(chunk).name == head.name
            && crate::controller::spec_parse_shortcut(chunk).kind == head.kind) by {
            assert(!head.name.contains(';'));
            assert(chunk =~= head.name + seq![';'] + (head.kind + seq![';']));
            lemma_split_part(head.name, head.kind + seq![';'], ';');
            assert(!head.kind.contains(';'));
            assert(head.kind + seq![';'] =~= head.kind + seq![';'] + Seq::<char>::empty());
            lemma_split_part(head.kind, Seq::<char>::empty(), ';');
            lemma_split_len(Seq::<char>::empty(), ';');
            assert(spec_split(head.kind + seq![';'] + Seq::<char>::empty(), ';')
                =~= seq![head.kind] + spec_split(Seq::<char>::empty(), ';'));
            assert(spec_split(chunk, ';') =~= seq![head.name] + (seq![head.kind]
                + spec_split(Seq::<char>::empty(), ';')));
            assert(spec_split(chunk, ';').len() == 3);
            assert(spec_split(chunk, ';')[0] == head.name);
            assert(spec_split(chunk, ';')[1] == head.kind);
        }
        assert forall|i: int| 0 <= i < rows.len() implies (#[trigger] parsed[i]).name
            == rows[i].name && parsed[i].kind == rows[i].kind by {
            if i > 0 {
                assert(parsed[i] == parsed_rest[i - 1]);
                assert(rows.drop_first()[i - 1] == rows[i]);
            }
        }
    }
}

} // verus!
