use vstd::prelude::*;

use crate::codec::{fields_view, int_at, push_int, Cell, Field, FieldKind};
use crate::error::DbcError;
use crate::lookup::{keys_of, position, KeyedRow};
use crate::record::{read_records, records_cells, records_encodable, write_records, Record};
use crate::{localized_layout, DbcTable, Indexable, LocalizedString};

verus! {

#[derive(Debug, Clone, PartialEq)]
pub struct MailTemplate {
    pub rows: Vec<MailTemplateRow>,
}

#[derive(Debug, Clone, Copy, PartialEq, Eq, Ord, PartialOrd, Hash)]
pub struct MailTemplateKey {
    pub id: i32,
}

impl MailTemplateKey {
    pub fn new(id: i32) -> (r: Self)
        ensures
            r.id == id,
    {
        Self { id }
    }
}

#[derive(Debug, Clone, PartialEq)]
pub struct MailTemplateRow {
    pub id: MailTemplateKey,
    pub subject_lang: LocalizedString,
    pub body_lang: LocalizedString,
}

impl Record for MailTemplateRow {
    open spec fn layout() -> Seq<FieldKind> {
        seq![FieldKind::Int]
            + localized_layout()
            + localized_layout()
    }

    open spec fn cells(&self) -> Seq<Cell> {
        seq![Cell::Int(self.id.id)]
            + self.subject_lang.cells()
            + self.body_lang.cells()
    }

    proof fn lemma_layout_ok() {
    }

    proof fn lemma_fits(&self) {
    }

    fn layout_vec() -> (r: Vec<FieldKind>) {
        let r = vec![
            FieldKind::Int, FieldKind::Text, FieldKind::Text, FieldKind::Text,
            FieldKind::Text, FieldKind::Text, FieldKind::Text, FieldKind::Text,
            FieldKind::Text, FieldKind::UInt, FieldKind::Text, FieldKind::Text,
            FieldKind::Text, FieldKind::Text, FieldKind::Text, FieldKind::Text,
            FieldKind::Text, FieldKind::Text, FieldKind::UInt,
        ];
        assert(r@ =~= Self::layout());
        r
    }

    fn to_fields(&self) -> (r: Vec<Field>) {
        let mut out: Vec<Field> = Vec::new();
        push_int(&mut out, self.id.id);
        self.subject_lang.write_fields(&mut out);
        self.body_lang.write_fields(&mut out);
        assert(fields_view(out@) =~= self.cells());
        out
    }

    fn from_fields(f: &Vec<Field>) -> (r: Self) {
        let ghost cs = fields_view(f@);
        assert(forall|j: int| 0 <= j < f@.len() ==> #[trigger] f@[j]@ == cs[j]);
        let r = MailTemplateRow {
            id: MailTemplateKey::new(int_at(f, 0)),
            subject_lang: LocalizedString::read_fields(f, 1),
            body_lang: LocalizedString::read_fields(f, 10),
        };
        assert(r.cells() =~= cs);
        r
    }
}

impl KeyedRow for MailTemplateRow {
    open spec fn key_of(&self) -> int {
        self.id.id as int
    }

    fn key_value(&self) -> (r: i64) {
        self.id.id as i64
    }
}

impl DbcTable for MailTemplate {
    type Row = MailTemplateRow;

    open spec fn layout() -> Seq<FieldKind> {
        MailTemplateRow::layout()
    }

    open spec fn table_rows(&self) -> Seq<MailTemplateRow> {
        self.rows@
    }

    open spec fn row_cells(row: MailTemplateRow) -> Seq<Cell> {
        row.cells()
    }

    proof fn lemma_layout_ok() {
        MailTemplateRow::lemma_layout_ok();
    }

    proof fn lemma_row_fits(row: MailTemplateRow) {
        row.lemma_fits();
    }

    open spec fn file_name() -> Seq<char> {
        "MailTemplate.dbc"@
    }

    fn filename() -> (r: &'static str) {
        "MailTemplate.dbc"
    }

    fn rows(&self) -> (r: &[MailTemplateRow]) {
        self.rows.as_slice()
    }

    fn rows_mut(&mut self) -> (r: &mut [MailTemplateRow]) {
        self.rows.as_mut_slice()
    }

    fn read(b: &[u8]) -> (r: Result<Self, DbcError>) {
        match read_records::<MailTemplateRow>(b) {
            Ok(rows) => Ok(MailTemplate { rows }),
            Err(e) => Err(e),
        }
    }

    fn fits_format(&self) -> (r: bool) {
        assert(records_cells(self.rows@) =~= self.table_rows().map_values(
            |row: Self::Row| Self::row_cells(row),
        ));
        records_encodable(&self.rows)
    }

    fn write(&self) -> (r: Vec<u8>) {
        assert(records_cells(self.rows@) =~= self.table_rows().map_values(
            |row: Self::Row| Self::row_cells(row),
        ));
        write_records(&self.rows)
    }
}

impl Indexable for MailTemplate {
    type PrimaryKey = MailTemplateKey;

    open spec fn key_id(key: &MailTemplateKey) -> int {
        key.id as int
    }

    open spec fn row_id(row: MailTemplateRow) -> int {
        row.key_of()
    }

    fn get(&self, key: &MailTemplateKey) -> (r: Option<&MailTemplateRow>) {
        assert(keys_of(self.rows@) =~= self.table_rows().map_values(
            |row: Self::Row| Self::row_id(row),
        ));
        match position(self.rows.as_slice(), key.id as i64) {
            Some(i) => Some(&self.rows[i]),
            None => None,
        }
    }

    fn get_mut(&mut self, key: &MailTemplateKey) -> (r: Option<&mut MailTemplateRow>) {
        assert(keys_of(self.rows@) =~= self.table_rows().map_values(
            |row: Self::Row| Self::row_id(row),
        ));
        match position(self.rows.as_slice(), key.id as i64) {
            Some(i) => Some(&mut self.rows[i]),
            None => None,
        }
    }
}

} // verus!
