//! The record store: a keyed table of `(name, configuration, kind)` rows,
//! held in memory and kept ordered by kind. Writes are typed statements;
//! reads return rows delimited by newline with fields delimited by `;`,
//! the format the panes re-read every frame.

use vstd::prelude::*;
use crate::naming::{generate_name, spec_generate_name};
use crate::objects::Configuration;
use crate::text::{contains_char, spec_cat_semi, str_eq};
use vstd::pervasive::VecAdditionalExecFns;

verus! {

/// The mathematical value of a stored row.
pub ghost struct RecordV {
    pub name: Seq<char>,
    pub configuration: Seq<char>,
    pub kind: Seq<char>,
}

/// One stored row: a shortcut's name (the key), its `;`-joined
/// configuration string, and its kind.
pub struct Record {
    pub name: String,
    pub configuration: String,
    pub kind: String,
}

impl View for Record {
    type V = RecordV;

    open spec fn view(&self) -> RecordV {
        RecordV { name: self.name@, configuration: self.configuration@, kind: self.kind@ }
    }
}

impl DeepView for Record {
    type V = RecordV;

    open spec fn deep_view(&self) -> RecordV {
        self.view()
    }
}

impl Clone for Record {
    fn clone(&self) -> (r: Self)
        ensures
            r@ == self@,
    {
        Record {
            name: self.name.clone(),
            configuration: self.configuration.clone(),
            kind: self.kind.clone(),
        }
    }
}

/// Text that may stand as a name or kind: free of the field and row
/// separators of the read format.
pub open spec fn wf_text(s: Seq<char>) -> bool {
    !s.contains(';') && !s.contains('\n')
}

/// Lexicographic order on strings by character code.
pub open spec fn lex_le(a: Seq<char>, b: Seq<char>) -> bool
    decreases a.len(),
{
    if a.len() == 0 {
        true
    } else if b.len() == 0 {
        false
    } else if (a[0] as u32) < (b[0] as u32) {
        true
    } else if (a[0] as u32) > (b[0] as u32) {
        false
    } else {
        lex_le(a.drop_first(), b.drop_first())
    }
}

pub proof fn lemma_lex_total(a: Seq<char>, b: Seq<char>)
    ensures
        lex_le(a, b) || lex_le(b, a),
    decreases a.len(),
{
    if a.len() == 0 || b.len() == 0 {
    } else if (a[0] as u32) == (b[0] as u32) {
        lemma_lex_total(a.drop_first(), b.drop_first());
    }
}

pub proof fn lemma_lex_trans(a: Seq<char>, b: Seq<char>, c: Seq<char>)
    requires
        lex_le(a, b),
        lex_le(b, c),
    ensures
        lex_le(a, c),
    decreases a.len(),
{
    if a.len() == 0 {
    } else if b.len() == 0 {
    } else if c.len() == 0 {
    } else {
        if (a[0] as u32) == (b[0] as u32) && (b[0] as u32) == (c[0] as u32) {
            lemma_lex_trans(a.drop_first(), b.drop_first(), c.drop_first());
        }
    }
}

/// Compares two strings in the order the store keeps its rows.
pub fn lex_le_exec(a: &str, b: &str) -> (r: bool)
    ensures
        r == lex_le(a@, b@),
{
    let alen = a.unicode_len();
    let blen = b.unicode_len();
    let mut i: usize = 0;
    proof {
        assert(a@.subrange(0, alen as int) =~= a@);
        assert(b@.subrange(0, blen as int) =~= b@);
    }
    loop
        invariant
            0 <= i <= alen,
            0 <= i <= blen,
            alen == a@.len(),
            blen == b@.len(),
            lex_le(a@, b@) == lex_le(
                a@.subrange(i as int, alen as int),
                b@.subrange(i as int, blen as int),
            ),
        decreases alen - i,
    {
        let ghost ar = a@.subrange(i as int, alen as int);
        let ghost br = b@.subrange(i as int, blen as int);
        if i >= alen {
            proof {
                assert(ar.len() == 0);
            }
            return true;
        }
        if i >= blen {
            proof {
                assert(br.len() == 0);
            }
            return false;
        }
        let ca = a.get_char(i);
        let cb = b.get_char(i);
        proof {
            assert(ar[0] == ca);
            assert(br[0] == cb);
            assert(ar.drop_first() =~= a@.subrange(i + 1, alen as int));
            assert(br.drop_first() =~= b@.subrange(i + 1, blen as int));
        }
        if (ca as u32) < (cb as u32) {
            return true;
        }
        if (ca as u32) > (cb as u32) {
            return false;
        }
        i += 1;
    }
}

/// Rows stand in kind order.
pub open spec fn rows_sorted(rows: Seq<RecordV>) -> bool {
    forall|i: int, j: int|
        0 <= i < j < rows.len() ==> lex_le(
            #[trigger] rows[i].kind,
            #[trigger] rows[j].kind,
        )
}

/// Names are a primary key.
pub open spec fn names_unique(rows: Seq<RecordV>) -> bool {
    forall|i: int, j: int|
        0 <= i < j < rows.len() ==> (#[trigger] rows[i].name) != (#[trigger] rows[j].name)
}

/// Names and kinds carry no separator characters.
pub open spec fn rows_wf_text(rows: Seq<RecordV>) -> bool {
    forall|i: int|
        0 <= i < rows.len() ==> wf_text(#[trigger] rows[i].name) && wf_text(rows[i].kind)
}

/// True when some row carries this name.
pub open spec fn spec_has_name(rows: Seq<RecordV>, name: Seq<char>) -> bool {
    exists|i: int| 0 <= i < rows.len() && (#[trigger] rows[i].name) == name
}

/// The index of the first row carrying this name.
pub open spec fn spec_index_of(rows: Seq<RecordV>, name: Seq<char>) -> Option<int>
    decreases rows.len(),
{
    if rows.len() == 0 {
        None
    } else if rows[0].name == name {
        Some(0)
    } else {
        match spec_index_of(rows.drop_first(), name) {
            Some(i) => Some(i + 1),
            None => None,
        }
    }
}

pub proof fn lemma_index_of_props(rows: Seq<RecordV>, name: Seq<char>)
    ensures
        spec_index_of(rows, name) is Some ==> {
            let i = spec_index_of(rows, name)->Some_0;
            0 <= i < rows.len() && rows[i].name == name && forall|j: int|
                0 <= j < i ==> (#[trigger] rows[j].name) != name
        },
        spec_index_of(rows, name) is None ==> !spec_has_name(rows, name),
    decreases rows.len(),
{
    if rows.len() == 0 {
    } else if rows[0].name == name {
    } else {
        lemma_index_of_props(rows.drop_first(), name);
        if spec_index_of(rows, name) is Some {
            let i = spec_index_of(rows, name)->Some_0;
            let i1 = spec_index_of(rows.drop_first(), name)->Some_0;
            assert(i == i1 + 1);
            assert(rows[i] == rows.drop_first()[i1]);
            assert forall|j: int| 0 <= j < i implies (#[trigger] rows[j].name) != name by {
                if j > 0 {
                    assert(rows[j] == rows.drop_first()[j - 1]);
                }
            }
        }
        if spec_index_of(rows, name) is None && spec_has_name(rows, name) {
            let i = choose|i: int| 0 <= i < rows.len() && rows[i].name == name;
            assert(rows.drop_first()[i - 1].name == name);
        }
    }
}

/// Where a row of this kind is inserted: after every row whose kind does
/// not come later.
pub open spec fn insert_pos(rows: Seq<RecordV>, kind: Seq<char>) -> int
    decreases rows.len(),
{
    if rows.len() == 0 {
        0
    } else if lex_le(rows[0].kind, kind) {
        1 + insert_pos(rows.drop_first(), kind)
    } else {
        0
    }
}

pub proof fn lemma_insert_pos_bounds(rows: Seq<RecordV>, kind: Seq<char>)
    ensures
        0 <= insert_pos(rows, kind) <= rows.len(),
        forall|j: int|
            0 <= j < insert_pos(rows, kind) ==> lex_le(#[trigger] rows[j].kind, kind),
        insert_pos(rows, kind) < rows.len() ==> !lex_le(
            rows[insert_pos(rows, kind)].kind,
            kind,
        ),
    decreases rows.len(),
{
    if rows.len() == 0 {
    } else if lex_le(rows[0].kind, kind) {
        lemma_insert_pos_bounds(rows.drop_first(), kind);
        let p = insert_pos(rows, kind);
        assert forall|j: int| 0 <= j < p implies lex_le(#[trigger] rows[j].kind, kind) by {
            if j > 0 {
                assert(rows[j] == rows.drop_first()[j - 1]);
            }
        }
        if p < rows.len() {
            assert(rows[p] == rows.drop_first()[p - 1]);
        }
    } else {
        lemma_insert_pos_bounds(rows.drop_first(), kind);
    }
}

pub proof fn lemma_sorted_after_insert(rows: Seq<RecordV>, rec: RecordV)
    requires
        rows_sorted(rows),
    ensures
        rows_sorted(rows.insert(insert_pos(rows, rec.kind), rec)),
{
    let pos = insert_pos(rows, rec.kind);
    lemma_insert_pos_bounds(rows, rec.kind);
    rows.insert_ensures(pos, rec);
    let new = rows.insert(pos, rec);
    assert forall|i: int, j: int| 0 <= i < j < new.len() implies lex_le(
        #[trigger] new[i].kind,
        #[trigger] new[j].kind,
    ) by {
        if j < pos {
        } else if i < pos && j == pos {
            assert(new[i] == rows[i]);
            assert(lex_le(rows[i].kind, rec.kind));
        } else if i < pos && j > pos {
            assert(new[i] == rows[i]);
            assert(new[j] == rows[j - 1]);
            if i < j - 1 {
            } else {
                assert(i == j - 1 && i < pos && j > pos);
                assert(lex_le(rows[i].kind, rec.kind));
                assert(pos < rows.len() + 1);
                assert(j - 1 == i < pos);
            }
            assert(lex_le(rows[i].kind, rows[j - 1].kind));
        } else if i == pos && j > pos {
            assert(new[j] == rows[j - 1]);
            assert(j - 1 >= pos);
            assert(pos < rows.len());
            lemma_lex_total(rows[pos].kind, rec.kind);
            assert(lex_le(rec.kind, rows[pos].kind));
            if j - 1 > pos {
                assert(lex_le(rows[pos].kind, rows[j - 1].kind));
                lemma_lex_trans(rec.kind, rows[pos].kind, rows[j - 1].kind);
            }
        } else {
            assert(i > pos);
            assert(new[i] == rows[i - 1]);
            assert(new[j] == rows[j - 1]);
        }
    }
}

/// A failed store operation: a key collision, or text that cannot stand
/// in the read format.
#[derive(Debug, PartialEq, Eq, Structural)]
pub enum StoreError {
    DuplicateName,
    InvalidText,
}

/// A write statement against the store, keyed by name.
pub enum WriteStatement {
    Insert { name: String, configuration: String, kind: String },
    UpdateName { name: String, new_name: String },
    UpdateConfiguration { name: String, configuration: String },
    Delete { name: String },
}

/// A read statement: all shortcuts in kind order, or the configuration
/// string of one shortcut.
pub enum ReadStatement {
    SelectShortcuts,
    SelectConfiguration { name: String },
}

/// What inserting a row yields: the new rows and the result.
pub open spec fn spec_insert(rows: Seq<RecordV>, rec: RecordV) -> (Seq<RecordV>, Result<
    (),
    StoreError,
>) {
    if !wf_text(rec.name) || !wf_text(rec.kind) {
        (rows, Err(StoreError::InvalidText))
    } else if spec_has_name(rows, rec.name) {
        (rows, Err(StoreError::DuplicateName))
    } else {
        (rows.insert(insert_pos(rows, rec.kind), rec), Ok(()))
    }
}

/// What renaming a row yields. Renaming a missing key changes nothing.
pub open spec fn spec_update_name(
    rows: Seq<RecordV>,
    name: Seq<char>,
    new_name: Seq<char>,
) -> (Seq<RecordV>, Result<(), StoreError>) {
    if !wf_text(new_name) {
        (rows, Err(StoreError::InvalidText))
    } else {
        match spec_index_of(rows, name) {
            None => (rows, Ok(())),
            Some(i) => if exists|j: int|
                0 <= j < rows.len() && j != i && (#[trigger] rows[j].name) == new_name {
                (rows, Err(StoreError::DuplicateName))
            } else {
                (
                    rows.update(
                        i,
                        RecordV {
                            name: new_name,
                            configuration: rows[i].configuration,
                            kind: rows[i].kind,
                        },
                    ),
                    Ok(()),
                )
            },
        }
    }
}

/// What replacing a row's configuration yields. A missing key changes
/// nothing.
pub open spec fn spec_update_configuration(
    rows: Seq<RecordV>,
    name: Seq<char>,
    configuration: Seq<char>,
) -> (Seq<RecordV>, Result<(), StoreError>) {
    match spec_index_of(rows, name) {
        None => (rows, Ok(())),
        Some(i) => (
            rows.update(
                i,
                RecordV { name: rows[i].name, configuration, kind: rows[i].kind },
            ),
            Ok(()),
        ),
    }
}

/// What deleting a row yields. A missing key changes nothing.
pub open spec fn spec_delete(rows: Seq<RecordV>, name: Seq<char>) -> (Seq<RecordV>, Result<
    (),
    StoreError,
>) {
    match spec_index_of(rows, name) {
        None => (rows, Ok(())),
        Some(i) => (rows.remove(i), Ok(())),
    }
}

/// The new rows and result of a write statement.
pub open spec fn spec_write(rows: Seq<RecordV>, statement: WriteStatement) -> (Seq<RecordV>, Result<
    (),
    StoreError,
>) {
    match statement {
        WriteStatement::Insert { name, configuration, kind } => spec_insert(
            rows,
            RecordV { name: name@, configuration: configuration@, kind: kind@ },
        ),
        WriteStatement::UpdateName { name, new_name } => spec_update_name(
            rows,
            name@,
            new_name@,
        ),
        WriteStatement::UpdateConfiguration { name, configuration } =>
            spec_update_configuration(rows, name@, configuration@),
        WriteStatement::Delete { name } => spec_delete(rows, name@),
    }
}

/// The read format of the shortcut listing: one `name;kind;` row per
/// record, each followed by a newline, in stored (kind) order.
pub open spec fn spec_shortcut_rows(rows: Seq<RecordV>) -> Seq<char>
    decreases rows.len(),
{
    if rows.len() == 0 {
        Seq::<char>::empty()
    } else {
        rows[0].name + ";"@ + rows[0].kind + ";\n"@ + spec_shortcut_rows(rows.drop_first())
    }
}

/// The configuration string of the first row carrying this name.
pub open spec fn spec_config_of(rows: Seq<RecordV>, name: Seq<char>) -> Option<Seq<char>> {
    match spec_index_of(rows, name) {
        Some(i) => Some(rows[i].configuration),
        None => None,
    }
}

/// What a read statement returns.
pub open spec fn spec_read(rows: Seq<RecordV>, statement: ReadStatement) -> Seq<char> {
    match statement {
        ReadStatement::SelectShortcuts => spec_shortcut_rows(rows),
        ReadStatement::SelectConfiguration { name } => match spec_config_of(rows, name@) {
            Some(c) => c + ";\n"@,
            None => Seq::<char>::empty(),
        },
    }
}

/// The in-memory record store.
pub struct Database {
    pub rows: Vec<Record>,
}

impl View for Database {
    type V = Seq<RecordV>;

    open spec fn view(&self) -> Seq<RecordV> {
        self.rows.deep_view()
    }
}

impl Database {
    /// Rows are kind-ordered, keyed by unique names, and hold text the
    /// read format can carry.
    pub open spec fn wf(&self) -> bool {
        rows_sorted(self@) && names_unique(self@) && rows_wf_text(self@)
    }

    /// An empty store.
    pub fn new() -> (r: Self)
        ensures
            r@ == Seq::<RecordV>::empty(),
            r.wf(),
    {
        let r = Database { rows: Vec::new() };
        proof {
            assert(r@ =~= Seq::<RecordV>::empty());
        }
        r
    }

    /// Drops every row, as creating the table afresh does.
    pub fn init(&mut self)
        ensures
            final(self)@ == Seq::<RecordV>::empty(),
            final(self).wf(),
    {
        self.rows.clear();
        proof {
            assert(self@ =~= Seq::<RecordV>::empty());
        }
    }

    fn find_index(&self, name: &str) -> (r: Option<usize>)
        ensures
            match r {
                Some(i) => spec_index_of(self@, name@) == Some(i as int),
                None => spec_index_of(self@, name@) is None,
            },
    {
        let mut i: usize = 0;
        proof {
            lemma_index_of_props(self@, name@);
        }
        while i < self.rows.len()
            invariant
                0 <= i <= self.rows.len(),
                self@.len() == self.rows.len(),
                forall|j: int| 0 <= j < i ==> (#[trigger] self@[j].name) != name@,
            decreases self.rows.len() - i,
        {
            if str_eq(self.rows[i].name.as_str(), name) {
                proof {
                    assert(self@[i as int].name == name@);
                    lemma_index_of_props(self@, name@);
                    if spec_index_of(self@, name@) is None {
                        assert(spec_has_name(self@, name@));
                    }
                    let k = spec_index_of(self@, name@)->Some_0;
                    if k < i {
                        assert(self@[k].name != name@);
                    }
                    if k > i {
                        assert(self@[i as int].name != name@);
                    }
                }
                return Some(i);
            }
            i += 1;
        }
        proof {
            lemma_index_of_props(self@, name@);
            if spec_index_of(self@, name@) is Some {
                let k = spec_index_of(self@, name@)->Some_0;
                assert(self@[k].name != name@);
            }
        }
        None
    }

    fn do_insert(&mut self, name: &String, configuration: &String, kind: &String) -> (r: Result<
        (),
        StoreError,
    >)
        requires
            old(self).wf(),
        ensures
            final(self).wf(),
            (final(self)@, r) == spec_insert(
                old(self)@,
                RecordV { name: name@, configuration: configuration@, kind: kind@ },
            ),
    {
        let ghost rec = RecordV { name: name@, configuration: configuration@, kind: kind@ };
        if contains_char(name.as_str(), ';') || contains_char(name.as_str(), '\n')
            || contains_char(kind.as_str(), ';') || contains_char(kind.as_str(), '\n') {
            return Err(StoreError::InvalidText);
        }
        if self.find_index(name.as_str()).is_some() {
            proof {
                lemma_index_of_props(self@, name@);
            }
            return Err(StoreError::DuplicateName);
        }
        proof {
            lemma_index_of_props(self@, name@);
        }
        let ghost rows0 = self@;
        let pos = find_insert_pos(&self.rows, kind.as_str());
        let new_record = Record {
            name: name.clone(),
            configuration: configuration.clone(),
            kind: kind.clone(),
        };
        self.rows.insert(pos, new_record);
        proof {
            rows0.insert_ensures(pos as int, rec);
            assert(self@ =~= rows0.insert(pos as int, rec));
            lemma_sorted_after_insert(rows0, rec);
            assert(names_unique(self@)) by {
                if !names_unique(self@) {
                    let (i, j) = choose|i: int, j: int|
                        0 <= i < j < self@.len() && (#[trigger] self@[i].name)
                            == (#[trigger] self@[j].name);
                    if i != pos && j != pos {
                        let io: int = if i < pos { i } else { i - 1 };
                        let jo: int = if j < pos { j } else { j - 1 };
                        assert(rows0[io].name == rows0[jo].name);
                    } else if i == pos {
                        let jo: int = j - 1;
                        assert(rows0[jo].name == rec.name);
                        assert(spec_has_name(rows0, rec.name));
                    } else {
                        assert(rows0[i].name == rec.name);
                        assert(spec_has_name(rows0, rec.name));
                    }
                }
            }
            assert(rows_wf_text(self@)) by {
                assert(wf_text(rec.name) && wf_text(rec.kind));
                assert forall|i: int| 0 <= i < self@.len() implies wf_text(
                    #[trigger] self@[i].name,
                ) && wf_text(self@[i].kind) by {
                    if i == pos {
                        assert(self@[i] == rec);
                    } else {
                        let io: int = if i < pos { i } else { i - 1 };
                        assert(0 <= io < rows0.len());
                        assert(self@[i] == rows0[io]);
                        assert(rows_wf_text(rows0));
                        assert(wf_text(rows0[io].name));
                        assert(wf_text(rows0[io].kind));
                    }
                }
            }
        }
        Ok(())
    }

    fn do_update_name(&mut self, name: &String, new_name: &String) -> (r: Result<
        (),
        StoreError,
    >)
        requires
            old(self).wf(),
        ensures
            final(self).wf(),
            (final(self)@, r) == spec_update_name(old(self)@, name@, new_name@),
    {
        if contains_char(new_name.as_str(), ';') || contains_char(new_name.as_str(), '\n') {
            return Err(StoreError::InvalidText);
        }
        let idx = self.find_index(name.as_str());
        match idx {
            None => Ok(()),
            Some(i) => {
                proof {
                    lemma_index_of_props(self@, name@);
                }
                let other = self.find_index(new_name.as_str());
                let conflict = match other {
                    Some(j) => j != i,
                    None => false,
                };
                proof {
                    lemma_index_of_props(self@, new_name@);
                    let rows = self@;
                    if conflict {
                        let j = spec_index_of(rows, new_name@)->Some_0;
                        assert(0 <= j < rows.len() && j != i && rows[j].name == new_name@);
                    } else {
                        if exists|j: int|
                            0 <= j < rows.len() && j != i && (#[trigger] rows[j].name)
                                == new_name@ {
                            let j = choose|j: int|
                                0 <= j < rows.len() && j != i && (#[trigger] rows[j].name)
                                    == new_name@;
                            if spec_index_of(rows, new_name@) is None {
                                assert(spec_has_name(rows, new_name@));
                            } else {
                                let k = spec_index_of(rows, new_name@)->Some_0;
                                assert(k == i);
                                if j < k {
                                    assert(rows[j].name != new_name@);
                                } else {
                                    assert(rows[k].name == name@);
                                    assert(names_unique(rows));
                                    assert(rows[j].name == rows[k].name);
                                }
                            }
                        }
                    }
                }
                if conflict {
                    return Err(StoreError::DuplicateName);
                }
                let ghost rows0 = self@;
                let old_record = &self.rows[i];
                let updated = Record {
                    name: new_name.clone(),
                    configuration: old_record.configuration.clone(),
                    kind: old_record.kind.clone(),
                };
                self.rows.set(i, updated);
                proof {
                    assert(self@ =~= rows0.update(
                        i as int,
                        RecordV {
                            name: new_name@,
                            configuration: rows0[i as int].configuration,
                            kind: rows0[i as int].kind,
                        },
                    ));
                    lemma_wf_after_update_same_kind(rows0, i as int, new_name@);
                }
                Ok(())
            },
        }
    }

    fn do_update_configuration(&mut self, name: &String, configuration: &String) -> (r: Result<
        (),
        StoreError,
    >)
        requires
            old(self).wf(),
        ensures
            final(self).wf(),
            (final(self)@, r) == spec_update_configuration(old(self)@, name@, configuration@),
    {
        let idx = self.find_index(name.as_str());
        match idx {
            None => Ok(()),
            Some(i) => {
                proof {
                    lemma_index_of_props(self@, name@);
                }
                let ghost rows0 = self@;
                let old_record = &self.rows[i];
                let updated = Record {
                    name: old_record.name.clone(),
                    configuration: configuration.clone(),
                    kind: old_record.kind.clone(),
                };
                self.rows.set(i, updated);
                proof {
                    assert(self@ =~= rows0.update(
                        i as int,
                        RecordV {
                            name: rows0[i as int].name,
                            configuration: configuration@,
                            kind: rows0[i as int].kind,
                        },
                    ));
                    lemma_wf_after_update_config(rows0, i as int, configuration@);
                }
                Ok(())
            },
        }
    }

    fn do_delete(&mut self, name: &String) -> (r: Result<(), StoreError>)
        requires
            old(self).wf(),
        ensures
            final(self).wf(),
            (final(self)@, r) == spec_delete(old(self)@, name@),
    {
        let idx = self.find_index(name.as_str());
        match idx {
            None => Ok(()),
            Some(i) => {
                let ghost rows0 = self@;
                let ghost vrows0 = self.rows@;
                proof {
                    lemma_index_of_props(self@, name@);
                }
                self.rows.remove(i);
                proof {
                    vrows0.remove_ensures(i as int);
                    rows0.remove_ensures(i as int);
                    assert forall|k: int| 0 <= k < self@.len() implies self@[k] == rows0.remove(
                        i as int,
                    )[k] by {
                        if k < i {
                            assert(self.rows@[k] == vrows0[k]);
                        } else {
                            assert(self.rows@[k] == vrows0[k + 1]);
                        }
                    }
                    assert(self@ =~= rows0.remove(i as int));
                    lemma_wf_after_remove(rows0, i as int);
                }
                Ok(())
            },
        }
    }

    /// Applies one write statement; on an error the store is unchanged.
    pub fn query_write(&mut self, statement: &WriteStatement) -> (r: Result<(), StoreError>)
        requires
            old(self).wf(),
        ensures
            final(self).wf(),
            (final(self)@, r) == spec_write(old(self)@, *statement),
    {
        match statement {
            WriteStatement::Insert { name, configuration, kind } => self.do_insert(
                name,
                configuration,
                kind,
            ),
            WriteStatement::UpdateName { name, new_name } => self.do_update_name(
                name,
                new_name,
            ),
            WriteStatement::UpdateConfiguration { name, configuration } => self
                .do_update_configuration(name, configuration),
            WriteStatement::Delete { name } => self.do_delete(name),
        }
    }

    /// Answers one read statement in the newline/`;` row format.
    pub fn query_read(&self, statement: &ReadStatement) -> (r: Result<String, StoreError>)
        requires
            self.wf(),
        ensures
            r is Ok,
            r->Ok_0@ == spec_read(self@, *statement),
    {
        match statement {
            ReadStatement::SelectShortcuts => {
                let mut out = String::new();
                let mut i: usize = 0;
                let ghost rows = self@;
                proof {
                    assert(rows.subrange(0, rows.len() as int) =~= rows);
                    assert(out@ + spec_shortcut_rows(rows) =~= spec_shortcut_rows(rows));
                }
                while i < self.rows.len()
                    invariant
                        0 <= i <= self.rows.len(),
                        rows == self@,
                        rows.len() == self.rows.len(),
                        spec_shortcut_rows(rows) =~= out@ + spec_shortcut_rows(
                            rows.subrange(i as int, rows.len() as int),
                        ),
                    decreases self.rows.len() - i,
                {
                    let ghost rest = rows.subrange(i as int, rows.len() as int);
                    proof {
                        assert(rest[0] == rows[i as int]);
                        assert(rest.drop_first() =~= rows.subrange(i + 1, rows.len() as int));
                    }
                    out.append(self.rows[i].name.as_str());
                    out.append(";");
                    out.append(self.rows[i].kind.as_str());
                    out.append(";\n");
                    i += 1;
                }
                proof {
                    assert(rows.subrange(rows.len() as int, rows.len() as int)
                        =~= Seq::<RecordV>::empty());
                    assert(out@ =~= spec_shortcut_rows(rows));
                }
                Ok(out)
            },
            ReadStatement::SelectConfiguration { name } => {
                let idx = self.find_index(name.as_str());
                proof {
                    lemma_index_of_props(self@, name@);
                }
                match idx {
                    Some(i) => {
                        let mut out = self.rows[i].configuration.clone();
                        out.append(";\n");
                        Ok(out)
                    },
                    None => Ok(String::new()),
                }
            },
        }
    }
}

fn find_insert_pos(rows: &Vec<Record>, kind: &str) -> (pos: usize)
    ensures
        pos as int == insert_pos(rows.deep_view(), kind@),
        pos <= rows.len(),
{
    let ghost rs = rows.deep_view();
    let mut pos: usize = 0;
    loop
        invariant
            0 <= pos <= rows.len(),
            rs == rows.deep_view(),
            rs.len() == rows.len(),
            forall|j: int| 0 <= j < pos ==> lex_le(#[trigger] rs[j].kind, kind@),
        decreases rows.len() - pos,
    {
        if pos >= rows.len() {
            proof {
                lemma_pos_is_insert_pos(rs, kind@, pos as int);
            }
            return pos;
        }
        if !lex_le_exec(rows[pos].kind.as_str(), kind) {
            proof {
                assert(rs[pos as int].kind == rows@[pos as int].kind@);
                lemma_pos_is_insert_pos(rs, kind@, pos as int);
            }
            return pos;
        }
        proof {
            assert(rs[pos as int].kind == rows@[pos as int].kind@);
        }
        pos += 1;
    }
}

proof fn lemma_pos_is_insert_pos(rows: Seq<RecordV>, kind: Seq<char>, pos: int)
    requires
        0 <= pos <= rows.len(),
        forall|j: int| 0 <= j < pos ==> lex_le(#[trigger] rows[j].kind, kind),
        pos < rows.len() ==> !lex_le(rows[pos].kind, kind),
    ensures
        insert_pos(rows, kind) == pos,
    decreases rows.len(),
{
    if rows.len() == 0 {
    } else if pos == 0 {
        if lex_le(rows[0].kind, kind) {
            assert(pos < rows.len());
        }
    } else {
        assert(lex_le(rows[0].kind, kind));
        let rest = rows.drop_first();
        assert forall|j: int| 0 <= j < pos - 1 implies lex_le(
            #[trigger] rest[j].kind,
            kind,
        ) by {
            assert(rest[j] == rows[j + 1]);
        }
        lemma_pos_is_insert_pos(rest, kind, pos - 1);
    }
}

proof fn lemma_wf_after_update_same_kind(rows: Seq<RecordV>, i: int, new_name: Seq<char>)
    requires
        rows_sorted(rows),
        names_unique(rows),
        rows_wf_text(rows),
        0 <= i < rows.len(),
        wf_text(new_name),
        wf_text(rows[i].kind),
        forall|j: int|
            0 <= j < rows.len() && j != i ==> (#[trigger] rows[j].name) != new_name,
    ensures
        ({
            let new = rows.update(
                i,
                RecordV {
                    name: new_name,
                    configuration: rows[i].configuration,
                    kind: rows[i].kind,
                },
            );
            rows_sorted(new) && names_unique(new) && rows_wf_text(new)
        }),
{
    let new = rows.update(
        i,
        RecordV { name: new_name, configuration: rows[i].configuration, kind: rows[i].kind },
    );
    assert(forall|k: int| 0 <= k < new.len() ==> (#[trigger] new[k].kind) == rows[k].kind);
    assert(forall|k: int|
        0 <= k < new.len() && k != i ==> (#[trigger] new[k].name) == rows[k].name);
}

proof fn lemma_wf_after_update_config(rows: Seq<RecordV>, i: int, configuration: Seq<char>)
    requires
        rows_sorted(rows),
        names_unique(rows),
        rows_wf_text(rows),
        0 <= i < rows.len(),
    ensures
        ({
            let new = rows.update(
                i,
                RecordV { name: rows[i].name, configuration, kind: rows[i].kind },
            );
            rows_sorted(new) && names_unique(new) && rows_wf_text(new)
        }),
{
    let new = rows.update(
        i,
        RecordV { name: rows[i].name, configuration, kind: rows[i].kind },
    );
    assert(forall|k: int| 0 <= k < new.len() ==> (#[trigger] new[k].kind) == rows[k].kind);
    assert(forall|k: int| 0 <= k < new.len() ==> (#[trigger] new[k].name) == rows[k].name);
}

proof fn lemma_wf_after_remove(rows: Seq<RecordV>, i: int)
    requires
        rows_sorted(rows),
        names_unique(rows),
        rows_wf_text(rows),
        0 <= i < rows.len(),
    ensures
        rows_sorted(rows.remove(i)) && names_unique(rows.remove(i)) && rows_wf_text(
            rows.remove(i),
        ),
{
    rows.remove_ensures(i);
    let new = rows.remove(i);
    assert forall|a: int, b: int| 0 <= a < b < new.len() implies lex_le(
        #[trigger] new[a].kind,
        #[trigger] new[b].kind,
    ) && (new[a].name != new[b].name) by {
        let ao: int = if a < i { a } else { a + 1 };
        let bo: int = if b < i { b } else { b + 1 };
        assert(new[a] == rows.remove(i)[a]);
        assert(new[b] == rows.remove(i)[b]);
        assert(new[a] == rows[ao]);
        assert(new[b] == rows[bo]);
        assert(0 <= ao < bo < rows.len());
        assert(lex_le(rows[ao].kind, rows[bo].kind));
        assert(rows[ao].name != rows[bo].name);
    }
    assert forall|a: int| 0 <= a < new.len() implies wf_text(#[trigger] new[a].name)
        && wf_text(new[a].kind) by {
        let ao: int = if a < i { a } else { a + 1 };
        assert(new[a] == rows.remove(i)[a]);
        assert(new[a] == rows[ao]);
        assert(wf_text(rows[ao].name) && wf_text(rows[ao].kind));
    }
}

/// The store-write formatting rule: every field value followed by `;`.
pub open spec fn spec_config_values(values: Seq<crate::objects::ConfigurationV>) -> Seq<
    Seq<char>,
> {
    values.map_values(|c: crate::objects::ConfigurationV| c.value)
}

/// Joins a configuration field sequence for persisting: each value
/// followed by one `;`.
pub fn format_config(values: &Vec<Configuration>) -> (r: String)
    ensures
        r@ == spec_cat_semi(spec_config_values(values.deep_view())),
{
    let ghost parts = spec_config_values(values.deep_view());
    let mut out = String::new();
    let mut i: usize = 0;
    proof {
        assert(parts.subrange(0, parts.len() as int) =~= parts);
        assert(out@ + spec_cat_semi(parts) =~= spec_cat_semi(parts));
    }
    while i < values.len()
        invariant
            0 <= i <= values.len(),
            parts == spec_config_values(values.deep_view()),
            parts.len() == values.len(),
            spec_cat_semi(parts) =~= out@ + spec_cat_semi(
                parts.subrange(i as int, parts.len() as int),
            ),
        decreases values.len() - i,
    {
        let ghost rest = parts.subrange(i as int, parts.len() as int);
        proof {
            assert(rest[0] == parts[i as int]);
            assert(rest.drop_first() =~= parts.subrange(i + 1, parts.len() as int));
        }
        out.append(values[i].value.as_str());
        out.append(";");
        proof {
            assert(";"@ =~= seq![';']) by {
                reveal_strlit(";");
            }
        }
        i += 1;
    }
    proof {
        assert(parts.subrange(parts.len() as int, parts.len() as int)
            =~= Seq::<Seq<char>>::empty());
        assert(out@ =~= spec_cat_semi(parts));
    }
    out
}

/// Inserts a freshly named shortcut whose fields all hold the
/// placeholder value, `fields` of them, joined by `;`.
pub open spec fn spec_required_config(fields: nat) -> Seq<char>
    decreases fields,
{
    if fields == 0 {
        Seq::<char>::empty()
    } else if fields == 1 {
        "Required"@
    } else {
        spec_required_config((fields - 1) as nat) + ";"@ + "Required"@
    }
}

/// Inserts a new shortcut under a generated name with `fields`
/// placeholder values; a name collision or malformed kind leaves the
/// store unchanged, as a logged-and-dropped write does.
pub fn insert_default_config(
    store: &mut Database,
    current_names: Vec<String>,
    kind: &str,
    fields: usize,
)
    requires
        old(store).wf(),
    ensures
        final(store).wf(),
        final(store)@ == spec_insert(
            old(store)@,
            RecordV {
                name: spec_generate_name(current_names.deep_view()),
                configuration: spec_required_config(fields as nat),
                kind: kind@,
            },
        ).0,
{
    let new_name = generate_name(current_names);
    let mut config = String::new();
    let mut i: usize = 0;
    while i < fields
        invariant
            0 <= i <= fields,
            config@ == spec_required_config(i as nat),
        decreases fields - i,
    {
        if i > 0 {
            config.append(";");
        }
        config.append("Required");
        i += 1;
    }
    let statement = WriteStatement::Insert {
        name: new_name,
        configuration: config,
        kind: String::from_str(kind),
    };
    let _ = store.query_write(&statement);
}

} // verus!
