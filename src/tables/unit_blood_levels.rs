use vstd::prelude::*;

use crate::codec::{
    fields_view, int_cells, ints_at, push_ints, push_uint, repeat_kind, uint_at, Cell, Field,
    FieldKind,
};
use crate::error::DbcError;
use crate::lookup::{keys_of, position, KeyedRow};
use crate::record::{read_records, records_cells, records_encodable, write_records, Record};
use crate::{DbcTable, Indexable};

verus! {

#[derive(Debug, Clone, PartialEq)]
pub struct UnitBloodLevels {
    pub rows: Vec<UnitBloodLevelsRow>,
}

#[derive(Debug, Clone, Copy, PartialEq, Eq, Ord, PartialOrd, Hash)]
pub struct UnitBloodLevelsKey {
    pub id: u32,
}

impl UnitBloodLevelsKey {
    pub fn new(id: u32) -> (r: Self)
        ensures
            r.id == id,
    {
        Self { id }
    }
}

#[derive(Debug, Clone, PartialEq)]
pub struct UnitBloodLevelsRow {
    pub id: UnitBloodLevelsKey,
    pub violence_level: [i32; 3],
}

impl Record for UnitBloodLevelsRow {
    open spec fn layout() -> Seq<FieldKind> {
        seq![FieldKind::UInt]
            + repeat_kind(FieldKind::Int, 3)
    }

    open spec fn cells(&self) -> Seq<Cell> {
        seq![Cell::UInt(self.id.id)]
            + int_cells(self.violence_level@)
    }

    proof fn lemma_layout_ok() {
    }

    proof fn lemma_fits(&self) {
    }

    fn layout_vec() -> (r: Vec<FieldKind>) {
        let r = vec![
            FieldKind::UInt, FieldKind::Int, FieldKind::Int, FieldKind::Int,
        ];
        assert(r@ =~= Self::layout());
        r
    }

    fn to_fields(&self) -> (r: Vec<Field>) {
        let mut out: Vec<Field> = Vec::new();
        push_uint(&mut out, self.id.id);
        push_ints(&mut out, self.violence_level.as_slice());
        assert(fields_view(out@) =~= self.cells());
        out
    }

    fn from_fields(f: &Vec<Field>) -> (r: Self) {
        let ghost cs = fields_view(f@);
        assert(forall|j: int| 0 <= j < f@.len() ==> #[trigger] f@[j]@ == cs[j]);
        let r = UnitBloodLevelsRow {
            id: UnitBloodLevelsKey::new(uint_at(f, 0)),
            violence_level: ints_at::<3>(f, 1),
        };
        assert(r.cells() =~= cs);
        r
    }
}

impl KeyedRow for UnitBloodLevelsRow {
    open spec fn key_of(&self) -> int {
        self.id.id as int
    }

    fn key_value(&self) -> (r: i64) {
        self.id.id as i64
    }
}

impl DbcTable for UnitBloodLevels {
    type Row = UnitBloodLevelsRow;

    open spec fn layout() -> Seq<FieldKind> {
        UnitBloodLevelsRow::layout()
    }

    open spec fn table_rows(&self) -> Seq<UnitBloodLevelsRow> {
        self.rows@
    }

    open spec fn row_cells(row: UnitBloodLevelsRow) -> Seq<Cell> {
        row.cells()
    }

    proof fn lemma_layout_ok() {
        UnitBloodLevelsRow::lemma_layout_ok();
    }

    proof fn lemma_row_fits(row: UnitBloodLevelsRow) {
        row.lemma_fits();
    }

    open spec fn file_name() -> Seq<char> {
        "UnitBloodLevels.dbc"@
    }

    fn filename() -> (r: &'static str) {
        "UnitBloodLevels.dbc"
    }

    fn rows(&self) -> (r: &[UnitBloodLevelsRow]) {
        self.rows.as_slice()
    }

    fn rows_mut(&mut self) -> (r: &mut [UnitBloodLevelsRow]) {
        self.rows.as_mut_slice()
    }

    fn read(b: &[u8]) -> (r: Result<Self, DbcError>) {
        match read_records::<UnitBloodLevelsRow>(b) {
            Ok(rows) => Ok(UnitBloodLevels { rows }),
            Err(e) => Err(e),
        }
    }

    fn fits_format(&self) -> (r: bool) {
        assert(records_cells(self.rows@) =~= self.table_rows().map_values(
            |row: Self::Row| Self::row_cells(row),
        ));
        records_encodable(&self.rows)
    }

    fn write(&self) -> (r: Vec<u8>) {
        assert(records_cells(self.rows@) =~= self.table_rows().map_values(
            |row: Self::Row| Self::row_cells(row),
        ));
        write_records(&self.rows)
    }
}

impl Indexable for UnitBloodLevels {
    type PrimaryKey = UnitBloodLevelsKey;

    open spec fn key_id(key: &UnitBloodLevelsKey) -> int {
        key.id as int
    }

    open spec fn row_id(row: UnitBloodLevelsRow) -> int {
        row.key_of()
    }

    fn get(&self, key: &UnitBloodLevelsKey) -> (r: Option<&UnitBloodLevelsRow>) {
        assert(keys_of(self.rows@) =~= self.table_rows().map_values(
            |row: Self::Row| Self::row_id(row),
        ));
        match position(self.rows.as_slice(), key.id as i64) {
            Some(i) => Some(&self.rows[i]),
            None => None,
        }
    }

    fn get_mut(&mut self, key: &UnitBloodLevelsKey) -> (r: Option<&mut UnitBloodLevelsRow>) {
        assert(keys_of(self.rows@) =~= self.table_rows().map_values(
            |row: Self::Row| Self::row_id(row),
        ));
        match position(self.rows.as_slice(), key.id as i64) {
            Some(i) => Some(&mut self.rows[i]),
            None => None,
        }
    }
}

} // verus!
