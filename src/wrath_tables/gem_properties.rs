use vstd::prelude::*;

use crate::codec::{fields_view, int_at, push_int, Cell, Field, FieldKind};
use crate::error::DbcError;
use crate::lookup::{keys_of, position, KeyedRow};
use crate::record::{read_records, records_cells, records_encodable, write_records, Record};
use crate::{DbcTable, Indexable};

verus! {

#[derive(Debug, Clone, PartialEq)]
pub struct GemProperties {
    pub rows: Vec<GemPropertiesRow>,
}

#[derive(Debug, Clone, Copy, PartialEq, Eq, Ord, PartialOrd, Hash)]
pub struct GemPropertiesKey {
    pub id: i32,
}

impl GemPropertiesKey {
    pub fn new(id: i32) -> (r: Self)
        ensures
            r.id == id,
    {
        Self { id }
    }
}

/// Key of a row of the SpellItemEnchantment table. Nothing checks that such a row exists.
#[derive(Debug, Clone, Copy, PartialEq, Eq, Ord, PartialOrd, Hash)]
pub struct SpellItemEnchantmentKey {
    pub id: i32,
}

impl SpellItemEnchantmentKey {
    pub fn new(id: i32) -> (r: Self)
        ensures
            r.id == id,
    {
        Self { id }
    }
}

#[derive(Debug, Clone, PartialEq)]
pub struct GemPropertiesRow {
    pub id: GemPropertiesKey,
    pub enchant_id: SpellItemEnchantmentKey,
    pub maxcount_inv: i32,
    pub maxcount_item: i32,
    pub ty: i32,
}

impl Record for GemPropertiesRow {
    open spec fn layout() -> Seq<FieldKind> {
        seq![FieldKind::Int, FieldKind::Int, FieldKind::Int, FieldKind::Int, FieldKind::Int]
    }

    open spec fn cells(&self) -> Seq<Cell> {
        seq![
            Cell::Int(self.id.id),
            Cell::Int(self.enchant_id.id),
            Cell::Int(self.maxcount_inv),
            Cell::Int(self.maxcount_item),
            Cell::Int(self.ty),
        ]
    }

    proof fn lemma_layout_ok() {
    }

    proof fn lemma_fits(&self) {
    }

    fn layout_vec() -> (r: Vec<FieldKind>) {
        let r = vec![
            FieldKind::Int, FieldKind::Int, FieldKind::Int, FieldKind::Int,
            FieldKind::Int,
        ];
        assert(r@ =~= Self::layout());
        r
    }

    fn to_fields(&self) -> (r: Vec<Field>) {
        let mut out: Vec<Field> = Vec::new();
        push_int(&mut out, self.id.id);
        push_int(&mut out, self.enchant_id.id);
        push_int(&mut out, self.maxcount_inv);
        push_int(&mut out, self.maxcount_item);
        push_int(&mut out, self.ty);
        assert(fields_view(out@) =~= self.cells());
        out
    }

    fn from_fields(f: &Vec<Field>) -> (r: Self) {
        let ghost cs = fields_view(f@);
        assert(forall|j: int| 0 <= j < f@.len() ==> #[trigger] f@[j]@ == cs[j]);
        let r = GemPropertiesRow {
            id: GemPropertiesKey::new(int_at(f, 0)),
            enchant_id: SpellItemEnchantmentKey::new(int_at(f, 1)),
            maxcount_inv: int_at(f, 2),
            maxcount_item: int_at(f, 3),
            ty: int_at(f, 4),
        };
        assert(r.cells() =~= cs);
        r
    }
}

impl KeyedRow for GemPropertiesRow {
    open spec fn key_of(&self) -> int {
        self.id.id as int
    }

    fn key_value(&self) -> (r: i64) {
        self.id.id as i64
    }
}

impl DbcTable for GemProperties {
    type Row = GemPropertiesRow;

    open spec fn layout() -> Seq<FieldKind> {
        GemPropertiesRow::layout()
    }

    open spec fn table_rows(&self) -> Seq<GemPropertiesRow> {
        self.rows@
    }

    open spec fn row_cells(row: GemPropertiesRow) -> Seq<Cell> {
        row.cells()
    }

    proof fn lemma_layout_ok() {
        GemPropertiesRow::lemma_layout_ok();
    }

    proof fn lemma_row_fits(row: GemPropertiesRow) {
        row.lemma_fits();
    }

    open spec fn file_name() -> Seq<char> {
        "GemProperties.dbc"@
    }

    fn filename() -> (r: &'static str) {
        "GemProperties.dbc"
    }

    fn rows(&self) -> (r: &[GemPropertiesRow]) {
        self.rows.as_slice()
    }

    fn rows_mut(&mut self) -> (r: &mut [GemPropertiesRow]) {
        self.rows.as_mut_slice()
    }

    fn read(b: &[u8]) -> (r: Result<Self, DbcError>) {
        match read_records::<GemPropertiesRow>(b) {
            Ok(rows) => Ok(GemProperties { rows }),
            Err(e) => Err(e),
        }
    }

    fn fits_format(&self) -> (r: bool) {
        assert(records_cells(self.rows@) =~= self.table_rows().map_values(
            |row: Self::Row| Self::row_cells(row),
        ));
        records_encodable(&self.rows)
    }

    fn write(&self) -> (r: Vec<u8>) {
        assert(records_cells(self.rows@) =~= self.table_rows().map_values(
            |row: Self::Row| Self::row_cells(row),
        ));
        write_records(&self.rows)
    }
}

impl Indexable for GemProperties {
    type PrimaryKey = GemPropertiesKey;

    open spec fn key_id(key: &GemPropertiesKey) -> int {
        key.id as int
    }

    open spec fn row_id(row: GemPropertiesRow) -> int {
        row.key_of()
    }

    fn get(&self, key: &GemPropertiesKey) -> (r: Option<&GemPropertiesRow>) {
        assert(keys_of(self.rows@) =~= self.table_rows().map_values(
            |row: Self::Row| Self::row_id(row),
        ));
        match position(self.rows.as_slice(), key.id as i64) {
            Some(i) => Some(&self.rows[i]),
            None => None,
        }
    }

    fn get_mut(&mut self, key: &GemPropertiesKey) -> (r: Option<&mut GemPropertiesRow>) {
        assert(keys_of(self.rows@) =~= self.table_rows().map_values(
            |row: Self::Row| Self::row_id(row),
        ));
        match position(self.rows.as_slice(), key.id as i64) {
            Some(i) => Some(&mut self.rows[i]),
            None => None,
        }
    }
}

} // verus!
