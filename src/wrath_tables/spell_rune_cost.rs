use vstd::prelude::*;

use crate::codec::{fields_view, int_at, push_int, Cell, Field, FieldKind};
use crate::error::DbcError;
use crate::lookup::{keys_of, position, KeyedRow};
use crate::record::{read_records, records_cells, records_encodable, write_records, Record};
use crate::{DbcTable, Indexable};

verus! {

#[derive(Debug, Clone, PartialEq)]
pub struct SpellRuneCost {
    pub rows: Vec<SpellRuneCostRow>,
}

#[derive(Debug, Clone, Copy, PartialEq, Eq, Ord, PartialOrd, Hash)]
pub struct SpellRuneCostKey {
    pub id: i32,
}

impl SpellRuneCostKey {
    pub fn new(id: i32) -> (r: Self)
        ensures
            r.id == id,
    {
        Self { id }
    }
}

#[derive(Debug, Clone, PartialEq)]
pub struct SpellRuneCostRow {
    pub id: SpellRuneCostKey,
    pub blood: i32,
    pub unholy: i32,
    pub frost: i32,
    pub runic_power: i32,
}

impl Record for SpellRuneCostRow {
    open spec fn layout() -> Seq<FieldKind> {
        seq![FieldKind::Int, FieldKind::Int, FieldKind::Int, FieldKind::Int, FieldKind::Int]
    }

    open spec fn cells(&self) -> Seq<Cell> {
        seq![
            Cell::Int(self.id.id),
            Cell::Int(self.blood),
            Cell::Int(self.unholy),
            Cell::Int(self.frost),
            Cell::Int(self.runic_power),
        ]
    }

    proof fn lemma_layout_ok() {
    }

    proof fn lemma_fits(&self) {
    }

    fn layout_vec() -> (r: Vec<FieldKind>) {
        let r = vec![
            FieldKind::Int, FieldKind::Int, FieldKind::Int, FieldKind::Int,
            FieldKind::Int,
        ];
        assert(r@ =~= Self::layout());
        r
    }

    fn to_fields(&self) -> (r: Vec<Field>) {
        let mut out: Vec<Field> = Vec::new();
        push_int(&mut out, self.id.id);
        push_int(&mut out, self.blood);
        push_int(&mut out, self.unholy);
        push_int(&mut out, self.frost);
        push_int(&mut out, self.runic_power);
        assert(fields_view(out@) =~= self.cells());
        out
    }

    fn from_fields(f: &Vec<Field>) -> (r: Self) {
        let ghost cs = fields_view(f@);
        assert(forall|j: int| 0 <= j < f@.len() ==> #[trigger] f@[j]@ == cs[j]);
        let r = SpellRuneCostRow {
            id: SpellRuneCostKey::new(int_at(f, 0)),
            blood: int_at(f, 1),
            unholy: int_at(f, 2),
            frost: int_at(f, 3),
            runic_power: int_at(f, 4),
        };
        assert(r.cells() =~= cs);
        r
    }
}

impl KeyedRow for SpellRuneCostRow {
    open spec fn key_of(&self) -> int {
        self.id.id as int
    }

    fn key_value(&self) -> (r: i64) {
        self.id.id as i64
    }
}

impl DbcTable for SpellRuneCost {
    type Row = SpellRuneCostRow;

    open spec fn layout() -> Seq<FieldKind> {
        SpellRuneCostRow::layout()
    }

    open spec fn table_rows(&self) -> Seq<SpellRuneCostRow> {
        self.rows@
    }

    open spec fn row_cells(row: SpellRuneCostRow) -> Seq<Cell> {
        row.cells()
    }

    proof fn lemma_layout_ok() {
        SpellRuneCostRow::lemma_layout_ok();
    }

    proof fn lemma_row_fits(row: SpellRuneCostRow) {
        row.lemma_fits();
    }

    open spec fn file_name() -> Seq<char> {
        "SpellRuneCost.dbc"@
    }

    fn filename() -> (r: &'static str) {
        "SpellRuneCost.dbc"
    }

    fn rows(&self) -> (r: &[SpellRuneCostRow]) {
        self.rows.as_slice()
    }

    fn rows_mut(&mut self) -> (r: &mut [SpellRuneCostRow]) {
        self.rows.as_mut_slice()
    }

    fn read(b: &[u8]) -> (r: Result<Self, DbcError>) {
        match read_records::<SpellRuneCostRow>(b) {
            Ok(rows) => Ok(SpellRuneCost { rows }),
            Err(e) => Err(e),
        }
    }

    fn fits_format(&self) -> (r: bool) {
        assert(records_cells(self.rows@) =~= self.table_rows().map_values(
            |row: Self::Row| Self::row_cells(row),
        ));
        records_encodable(&self.rows)
    }

    fn write(&self) -> (r: Vec<u8>) {
        assert(records_cells(self.rows@) =~= self.table_rows().map_values(
            |row: Self::Row| Self::row_cells(row),
        ));
        write_records(&self.rows)
    }
}

impl Indexable for SpellRuneCost {
    type PrimaryKey = SpellRuneCostKey;

    open spec fn key_id(key: &SpellRuneCostKey) -> int {
        key.id as int
    }

    open spec fn row_id(row: SpellRuneCostRow) -> int {
        row.key_of()
    }

    fn get(&self, key: &SpellRuneCostKey) -> (r: Option<&SpellRuneCostRow>) {
        assert(keys_of(self.rows@) =~= self.table_rows().map_values(
            |row: Self::Row| Self::row_id(row),
        ));
        match position(self.rows.as_slice(), key.id as i64) {
            Some(i) => Some(&self.rows[i]),
            None => None,
        }
    }

    fn get_mut(&mut self, key: &SpellRuneCostKey) -> (r: Option<&mut SpellRuneCostRow>) {
        assert(keys_of(self.rows@) =~= self.table_rows().map_values(
            |row: Self::Row| Self::row_id(row),
        ));
        match position(self.rows.as_slice(), key.id as i64) {
            Some(i) => Some(&mut self.rows[i]),
            None => None,
        }
    }
}

} // verus!
