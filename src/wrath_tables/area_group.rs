use vstd::prelude::*;

use crate::codec::{
    fields_view, int_at, int_cells, ints_at, push_int, push_ints, repeat_kind, Cell, Field,
    FieldKind,
};
use crate::error::DbcError;
use crate::lookup::{keys_of, position, KeyedRow};
use crate::record::{read_records, records_cells, records_encodable, write_records, Record};
use crate::{DbcTable, Indexable};

verus! {

#[derive(Debug, Clone, PartialEq)]
pub struct AreaGroup {
    pub rows: Vec<AreaGroupRow>,
}

#[derive(Debug, Clone, Copy, PartialEq, Eq, Ord, PartialOrd, Hash)]
pub struct AreaGroupKey {
    pub id: i32,
}

impl AreaGroupKey {
    pub fn new(id: i32) -> (r: Self)
        ensures
            r.id == id,
    {
        Self { id }
    }
}

#[derive(Debug, Clone, PartialEq)]
pub struct AreaGroupRow {
    pub id: AreaGroupKey,
    pub area_id: [i32; 6],
    pub next_area_id: AreaGroupKey,
}

impl Record for AreaGroupRow {
    open spec fn layout() -> Seq<FieldKind> {
        seq![FieldKind::Int]
            + repeat_kind(FieldKind::Int, 6)
            + seq![FieldKind::Int]
    }

    open spec fn cells(&self) -> Seq<Cell> {
        seq![Cell::Int(self.id.id)]
            + int_cells(self.area_id@)
            + seq![Cell::Int(self.next_area_id.id)]
    }

    proof fn lemma_layout_ok() {
    }

    proof fn lemma_fits(&self) {
    }

    fn layout_vec() -> (r: Vec<FieldKind>) {
        let r = vec![
            FieldKind::Int, FieldKind::Int, FieldKind::Int, FieldKind::Int,
            FieldKind::Int, FieldKind::Int, FieldKind::Int, FieldKind::Int,
        ];
        assert(r@ =~= Self::layout());
        r
    }

    fn to_fields(&self) -> (r: Vec<Field>) {
        let mut out: Vec<Field> = Vec::new();
        push_int(&mut out, self.id.id);
        push_ints(&mut out, self.area_id.as_slice());
        push_int(&mut out, self.next_area_id.id);
        assert(fields_view(out@) =~= self.cells());
        out
    }

    fn from_fields(f: &Vec<Field>) -> (r: Self) {
        let ghost cs = fields_view(f@);
        assert(forall|j: int| 0 <= j < f@.len() ==> #[trigger] f@[j]@ == cs[j]);
        let r = AreaGroupRow {
            id: AreaGroupKey::new(int_at(f, 0)),
            area_id: ints_at::<6>(f, 1),
            next_area_id: AreaGroupKey::new(int_at(f, 7)),
        };
        assert(r.cells() =~= cs);
        r
    }
}

impl KeyedRow for AreaGroupRow {
    open spec fn key_of(&self) -> int {
        self.id.id as int
    }

    fn key_value(&self) -> (r: i64) {
        self.id.id as i64
    }
}

impl DbcTable for AreaGroup {
    type Row = AreaGroupRow;

    open spec fn layout() -> Seq<FieldKind> {
        AreaGroupRow::layout()
    }

    open spec fn table_rows(&self) -> Seq<AreaGroupRow> {
        self.rows@
    }

    open spec fn row_cells(row: AreaGroupRow) -> Seq<Cell> {
        row.cells()
    }

    proof fn lemma_layout_ok() {
        AreaGroupRow::lemma_layout_ok();
    }

    proof fn lemma_row_fits(row: AreaGroupRow) {
        row.lemma_fits();
    }

    open spec fn file_name() -> Seq<char> {
        "AreaGroup.dbc"@
    }

    fn filename() -> (r: &'static str) {
        "AreaGroup.dbc"
    }

    fn rows(&self) -> (r: &[AreaGroupRow]) {
        self.rows.as_slice()
    }

    fn rows_mut(&mut self) -> (r: &mut [AreaGroupRow]) {
        self.rows.as_mut_slice()
    }

    fn read(b: &[u8]) -> (r: Result<Self, DbcError>) {
        match read_records::<AreaGroupRow>(b) {
            Ok(rows) => Ok(AreaGroup { rows }),
            Err(e) => Err(e),
        }
    }

    fn fits_format(&self) -> (r: bool) {
        assert(records_cells(self.rows@) =~= self.table_rows().map_values(
            |row: Self::Row| Self::row_cells(row),
        ));
        records_encodable(&self.rows)
    }

    fn write(&self) -> (r: Vec<u8>) {
        assert(records_cells(self.rows@) =~= self.table_rows().map_values(
            |row: Self::Row| Self::row_cells(row),
        ));
        write_records(&self.rows)
    }
}

impl Indexable for AreaGroup {
    type PrimaryKey = AreaGroupKey;

    open spec fn key_id(key: &AreaGroupKey) -> int {
        key.id as int
    }

    open spec fn row_id(row: AreaGroupRow) -> int {
        row.key_of()
    }

    fn get(&self, key: &AreaGroupKey) -> (r: Option<&AreaGroupRow>) {
        assert(keys_of(self.rows@) =~= self.table_rows().map_values(
            |row: Self::Row| Self::row_id(row),
        ));
        match position(self.rows.as_slice(), key.id as i64) {
            Some(i) => Some(&self.rows[i]),
            None => None,
        }
    }

    fn get_mut(&mut self, key: &AreaGroupKey) -> (r: Option<&mut AreaGroupRow>) {
        assert(keys_of(self.rows@) =~= self.table_rows().map_values(
            |row: Self::Row| Self::row_id(row),
        ));
        match position(self.rows.as_slice(), key.id as i64) {
            Some(i) => Some(&mut self.rows[i]),
            None => None,
        }
    }
}

} // verus!
