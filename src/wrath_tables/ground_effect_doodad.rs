use vstd::prelude::*;

use crate::codec::{fields_view, int_at, push_int, push_text, text_at, Cell, Field, FieldKind};
use crate::error::DbcError;
use crate::lookup::{keys_of, position, KeyedRow};
use crate::record::{read_records, records_cells, records_encodable, write_records, Record};
use crate::{DbcTable, Indexable};

verus! {

#[derive(Debug, Clone, PartialEq)]
pub struct GroundEffectDoodad {
    pub rows: Vec<GroundEffectDoodadRow>,
}

#[derive(Debug, Clone, Copy, PartialEq, Eq, Ord, PartialOrd, Hash)]
pub struct GroundEffectDoodadKey {
    pub id: i32,
}

impl GroundEffectDoodadKey {
    pub fn new(id: i32) -> (r: Self)
        ensures
            r.id == id,
    {
        Self { id }
    }
}

#[derive(Debug, Clone, PartialEq)]
pub struct GroundEffectDoodadRow {
    pub id: GroundEffectDoodadKey,
    pub doodadpath: String,
    pub flags: i32,
}

impl Record for GroundEffectDoodadRow {
    open spec fn layout() -> Seq<FieldKind> {
        seq![FieldKind::Int, FieldKind::Text, FieldKind::Int]
    }

    open spec fn cells(&self) -> Seq<Cell> {
        seq![Cell::Int(self.id.id), Cell::Text(self.doodadpath@), Cell::Int(self.flags)]
    }

    proof fn lemma_layout_ok() {
    }

    proof fn lemma_fits(&self) {
    }

    fn layout_vec() -> (r: Vec<FieldKind>) {
        let r = vec![
            FieldKind::Int, FieldKind::Text, FieldKind::Int,
        ];
        assert(r@ =~= Self::layout());
        r
    }

    fn to_fields(&self) -> (r: Vec<Field>) {
        let mut out: Vec<Field> = Vec::new();
        push_int(&mut out, self.id.id);
        push_text(&mut out, &self.doodadpath);
        push_int(&mut out, self.flags);
        assert(fields_view(out@) =~= self.cells());
        out
    }

    fn from_fields(f: &Vec<Field>) -> (r: Self) {
        let ghost cs = fields_view(f@);
        assert(forall|j: int| 0 <= j < f@.len() ==> #[trigger] f@[j]@ == cs[j]);
        let r = GroundEffectDoodadRow {
            id: GroundEffectDoodadKey::new(int_at(f, 0)),
            doodadpath: text_at(f, 1),
            flags: int_at(f, 2),
        };
        assert(r.cells() =~= cs);
        r
    }
}

impl KeyedRow for GroundEffectDoodadRow {
    open spec fn key_of(&self) -> int {
        self.id.id as int
    }

    fn key_value(&self) -> (r: i64) {
        self.id.id as i64
    }
}

impl DbcTable for GroundEffectDoodad {
    type Row = GroundEffectDoodadRow;

    open spec fn layout() -> Seq<FieldKind> {
        GroundEffectDoodadRow::layout()
    }

    open spec fn table_rows(&self) -> Seq<GroundEffectDoodadRow> {
        self.rows@
    }

    open spec fn row_cells(row: GroundEffectDoodadRow) -> Seq<Cell> {
        row.cells()
    }

    proof fn lemma_layout_ok() {
        GroundEffectDoodadRow::lemma_layout_ok();
    }

    proof fn lemma_row_fits(row: GroundEffectDoodadRow) {
        row.lemma_fits();
    }

    open spec fn file_name() -> Seq<char> {
        "GroundEffectDoodad.dbc"@
    }

    fn filename() -> (r: &'static str) {
        "GroundEffectDoodad.dbc"
    }

    fn rows(&self) -> (r: &[GroundEffectDoodadRow]) {
        self.rows.as_slice()
    }

    fn rows_mut(&mut self) -> (r: &mut [GroundEffectDoodadRow]) {
        self.rows.as_mut_slice()
    }

    fn read(b: &[u8]) -> (r: Result<Self, DbcError>) {
        match read_records::<GroundEffectDoodadRow>(b) {
            Ok(rows) => Ok(GroundEffectDoodad { rows }),
            Err(e) => Err(e),
        }
    }

    fn fits_format(&self) -> (r: bool) {
        assert(records_cells(self.rows@) =~= self.table_rows().map_values(
            |row: Self::Row| Self::row_cells(row),
        ));
        records_encodable(&self.rows)
    }

    fn write(&self) -> (r: Vec<u8>) {
        assert(records_cells(self.rows@) =~= self.table_rows().map_values(
            |row: Self::Row| Self::row_cells(row),
        ));
        write_records(&self.rows)
    }
}

impl Indexable for GroundEffectDoodad {
    type PrimaryKey = GroundEffectDoodadKey;

    open spec fn key_id(key: &GroundEffectDoodadKey) -> int {
        key.id as int
    }

    open spec fn row_id(row: GroundEffectDoodadRow) -> int {
        row.key_of()
    }

    fn get(&self, key: &GroundEffectDoodadKey) -> (r: Option<&GroundEffectDoodadRow>) {
        assert(keys_of(self.rows@) =~= self.table_rows().map_values(
            |row: Self::Row| Self::row_id(row),
        ));
        match position(self.rows.as_slice(), key.id as i64) {
            Some(i) => Some(&self.rows[i]),
            None => None,
        }
    }

    fn get_mut(&mut self, key: &GroundEffectDoodadKey) -> (r: Option<&mut GroundEffectDoodadRow>) {
        assert(keys_of(self.rows@) =~= self.table_rows().map_values(
            |row: Self::Row| Self::row_id(row),
        ));
        match position(self.rows.as_slice(), key.id as i64) {
            Some(i) => Some(&mut self.rows[i]),
            None => None,
        }
    }
}

} // verus!
