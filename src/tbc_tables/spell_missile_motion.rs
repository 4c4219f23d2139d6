use vstd::prelude::*;

use crate::codec::{fields_view, int_at, push_int, push_text, text_at, Cell, Field, FieldKind};
use crate::error::DbcError;
use crate::lookup::{keys_of, position, KeyedRow};
use crate::record::{read_records, records_cells, records_encodable, write_records, Record};
use crate::{DbcTable, Indexable};

verus! {

#[derive(Debug, Clone, PartialEq)]
pub struct SpellMissileMotion {
    pub rows: Vec<SpellMissileMotionRow>,
}

#[derive(Debug, Clone, Copy, PartialEq, Eq, Ord, PartialOrd, Hash)]
pub struct SpellMissileMotionKey {
    pub id: i32,
}

impl SpellMissileMotionKey {
    pub fn new(id: i32) -> (r: Self)
        ensures
            r.id == id,
    {
        Self { id }
    }
}

#[derive(Debug, Clone, PartialEq)]
pub struct SpellMissileMotionRow {
    pub id: SpellMissileMotionKey,
    pub name: String,
    pub script_body: String,
    pub flags: i32,
    pub missile_count: i32,
}

impl Record for SpellMissileMotionRow {
    open spec fn layout() -> Seq<FieldKind> {
        seq![FieldKind::Int, FieldKind::Text, FieldKind::Text, FieldKind::Int, FieldKind::Int]
    }

    open spec fn cells(&self) -> Seq<Cell> {
        seq![
            Cell::Int(self.id.id),
            Cell::Text(self.name@),
            Cell::Text(self.script_body@),
            Cell::Int(self.flags),
            Cell::Int(self.missile_count),
        ]
    }

    proof fn lemma_layout_ok() {
    }

    proof fn lemma_fits(&self) {
    }

    fn layout_vec() -> (r: Vec<FieldKind>) {
        let r = vec![
            FieldKind::Int, FieldKind::Text, FieldKind::Text, FieldKind::Int,
            FieldKind::Int,
        ];
        assert(r@ =~= Self::layout());
        r
    }

    fn to_fields(&self) -> (r: Vec<Field>) {
        let mut out: Vec<Field> = Vec::new();
        push_int(&mut out, self.id.id);
        push_text(&mut out, &self.name);
        push_text(&mut out, &self.script_body);
        push_int(&mut out, self.flags);
        push_int(&mut out, self.missile_count);
        assert(fields_view(out@) =~= self.cells());
        out
    }

    fn from_fields(f: &Vec<Field>) -> (r: Self) {
        let ghost cs = fields_view(f@);
        assert(forall|j: int| 0 <= j < f@.len() ==> #[trigger] f@[j]@ == cs[j]);
        let r = SpellMissileMotionRow {
            id: SpellMissileMotionKey::new(int_at(f, 0)),
            name: text_at(f, 1),
            script_body: text_at(f, 2),
            flags: int_at(f, 3),
            missile_count: int_at(f, 4),
        };
        assert(r.cells() =~= cs);
        r
    }
}

impl KeyedRow for SpellMissileMotionRow {
    open spec fn key_of(&self) -> int {
        self.id.id as int
    }

    fn key_value(&self) -> (r: i64) {
        self.id.id as i64
    }
}

impl DbcTable for SpellMissileMotion {
    type Row = SpellMissileMotionRow;

    open spec fn layout() -> Seq<FieldKind> {
        SpellMissileMotionRow::layout()
    }

    open spec fn table_rows(&self) -> Seq<SpellMissileMotionRow> {
        self.rows@
    }

    open spec fn row_cells(row: SpellMissileMotionRow) -> Seq<Cell> {
        row.cells()
    }

    proof fn lemma_layout_ok() {
        SpellMissileMotionRow::lemma_layout_ok();
    }

    proof fn lemma_row_fits(row: SpellMissileMotionRow) {
        row.lemma_fits();
    }

    open spec fn file_name() -> Seq<char> {
        "SpellMissileMotion.dbc"@
    }

    fn filename() -> (r: &'static str) {
        "SpellMissileMotion.dbc"
    }

    fn rows(&self) -> (r: &[SpellMissileMotionRow]) {
        self.rows.as_slice()
    }

    fn rows_mut(&mut self) -> (r: &mut [SpellMissileMotionRow]) {
        self.rows.as_mut_slice()
    }

    fn read(b: &[u8]) -> (r: Result<Self, DbcError>) {
        match read_records::<SpellMissileMotionRow>(b) {
            Ok(rows) => Ok(SpellMissileMotion { rows }),
            Err(e) => Err(e),
        }
    }

    fn fits_format(&self) -> (r: bool) {
        assert(records_cells(self.rows@) =~= self.table_rows().map_values(
            |row: Self::Row| Self::row_cells(row),
        ));
        records_encodable(&self.rows)
    }

    fn write(&self) -> (r: Vec<u8>) {
        assert(records_cells(self.rows@) =~= self.table_rows().map_values(
            |row: Self::Row| Self::row_cells(row),
        ));
        write_records(&self.rows)
    }
}

impl Indexable for SpellMissileMotion {
    type PrimaryKey = SpellMissileMotionKey;

    open spec fn key_id(key: &SpellMissileMotionKey) -> int {
        key.id as int
    }

    open spec fn row_id(row: SpellMissileMotionRow) -> int {
        row.key_of()
    }

    fn get(&self, key: &SpellMissileMotionKey) -> (r: Option<&SpellMissileMotionRow>) {
        assert(keys_of(self.rows@) =~= self.table_rows().map_values(
            |row: Self::Row| Self::row_id(row),
        ));
        match position(self.rows.as_slice(), key.id as i64) {
            Some(i) => Some(&self.rows[i]),
            None => None,
        }
    }

    fn get_mut(&mut self, key: &SpellMissileMotionKey) -> (r: Option<&mut SpellMissileMotionRow>) {
        assert(keys_of(self.rows@) =~= self.table_rows().map_values(
            |row: Self::Row| Self::row_id(row),
        ));
        match position(self.rows.as_slice(), key.id as i64) {
            Some(i) => Some(&mut self.rows[i]),
            None => None,
        }
    }
}

} // verus!
