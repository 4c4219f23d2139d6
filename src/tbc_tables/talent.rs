use vstd::prelude::*;

use crate::codec::{
    fields_view, int_at, int_cells, ints_at, push_int, push_ints, repeat_kind, Cell, Field,
    FieldKind,
};
use crate::error::DbcError;
use crate::lookup::{keys_of, position, KeyedRow};
use crate::record::{read_records, records_cells, records_encodable, write_records, Record};
use crate::{DbcTable, Indexable};

verus! {

#[derive(Debug, Clone, PartialEq)]
pub struct Talent {
    pub rows: Vec<TalentRow>,
}

#[derive(Debug, Clone, Copy, PartialEq, Eq, Ord, PartialOrd, Hash)]
pub struct TalentKey {
    pub id: i32,
}

impl TalentKey {
    pub fn new(id: i32) -> (r: Self)
        ensures
            r.id == id,
    {
        Self { id }
    }
}

/// Key of a row of the Spell table. Nothing checks that such a row exists.
#[derive(Debug, Clone, Copy, PartialEq, Eq, Ord, PartialOrd, Hash)]
pub struct SpellKey {
    pub id: i32,
}

impl SpellKey {
    pub fn new(id: i32) -> (r: Self)
        ensures
            r.id == id,
    {
        Self { id }
    }
}

#[derive(Debug, Clone, PartialEq)]
pub struct TalentRow {
    pub id: TalentKey,
    pub tab_id: i32,
    pub tier_id: i32,
    pub column_index: i32,
    pub spell_rank: [i32; 9],
    pub prereq_talent: [i32; 3],
    pub prereq_rank: [i32; 3],
    pub flags: i32,
    pub required_spell_id: SpellKey,
}

impl Record for TalentRow {
    open spec fn layout() -> Seq<FieldKind> {
        seq![FieldKind::Int, FieldKind::Int, FieldKind::Int, FieldKind::Int]
            + repeat_kind(FieldKind::Int, 9)
            + repeat_kind(FieldKind::Int, 3)
            + repeat_kind(FieldKind::Int, 3)
            + seq![FieldKind::Int, FieldKind::Int]
    }

    open spec fn cells(&self) -> Seq<Cell> {
        seq![
            Cell::Int(self.id.id),
            Cell::Int(self.tab_id),
            Cell::Int(self.tier_id),
            Cell::Int(self.column_index),
        ]
            + int_cells(self.spell_rank@)
            + int_cells(self.prereq_talent@)
            + int_cells(self.prereq_rank@)
            + seq![Cell::Int(self.flags), Cell::Int(self.required_spell_id.id)]
    }

    proof fn lemma_layout_ok() {
    }

    proof fn lemma_fits(&self) {
    }

    fn layout_vec() -> (r: Vec<FieldKind>) {
        let r = vec![
            FieldKind::Int, FieldKind::Int, FieldKind::Int, FieldKind::Int,
            FieldKind::Int, FieldKind::Int, FieldKind::Int, FieldKind::Int,
            FieldKind::Int, FieldKind::Int, FieldKind::Int, FieldKind::Int,
            FieldKind::Int, FieldKind::Int, FieldKind::Int, FieldKind::Int,
            FieldKind::Int, FieldKind::Int, FieldKind::Int, FieldKind::Int,
            FieldKind::Int,
        ];
        assert(r@ =~= Self::layout());
        r
    }

    fn to_fields(&self) -> (r: Vec<Field>) {
        let mut out: Vec<Field> = Vec::new();
        push_int(&mut out, self.id.id);
        push_int(&mut out, self.tab_id);
        push_int(&mut out, self.tier_id);
        push_int(&mut out, self.column_index);
        push_ints(&mut out, self.spell_rank.as_slice());
        push_ints(&mut out, self.prereq_talent.as_slice());
        push_ints(&mut out, self.prereq_rank.as_slice());
        push_int(&mut out, self.flags);
        push_int(&mut out, self.required_spell_id.id);
        assert(fields_view(out@) =~= self.cells());
        out
    }

    fn from_fields(f: &Vec<Field>) -> (r: Self) {
        let ghost cs = fields_view(f@);
        assert(forall|j: int| 0 <= j < f@.len() ==> #[trigger] f@[j]@ == cs[j]);
        let r = TalentRow {
            id: TalentKey::new(int_at(f, 0)),
            tab_id: int_at(f, 1),
            tier_id: int_at(f, 2),
            column_index: int_at(f, 3),
            spell_rank: ints_at::<9>(f, 4),
            prereq_talent: ints_at::<3>(f, 13),
            prereq_rank: ints_at::<3>(f, 16),
            flags: int_at(f, 19),
            required_spell_id: SpellKey::new(int_at(f, 20)),
        };
        assert(r.cells() =~= cs);
        r
    }
}

impl KeyedRow for TalentRow {
    open spec fn key_of(&self) -> int {
        self.id.id as int
    }

    fn key_value(&self) -> (r: i64) {
        self.id.id as i64
    }
}

impl DbcTable for Talent {
    type Row = TalentRow;

    open spec fn layout() -> Seq<FieldKind> {
        TalentRow::layout()
    }

    open spec fn table_rows(&self) -> Seq<TalentRow> {
        self.rows@
    }

    open spec fn row_cells(row: TalentRow) -> Seq<Cell> {
        row.cells()
    }

    proof fn lemma_layout_ok() {
        TalentRow::lemma_layout_ok();
    }

    proof fn lemma_row_fits(row: TalentRow) {
        row.lemma_fits();
    }

    open spec fn file_name() -> Seq<char> {
        "Talent.dbc"@
    }

    fn filename() -> (r: &'static str) {
        "Talent.dbc"
    }

    fn rows(&self) -> (r: &[TalentRow]) {
        self.rows.as_slice()
    }

    fn rows_mut(&mut self) -> (r: &mut [TalentRow]) {
        self.rows.as_mut_slice()
    }

    fn read(b: &[u8]) -> (r: Result<Self, DbcError>) {
        match read_records::<TalentRow>(b) {
            Ok(rows) => Ok(Talent { rows }),
            Err(e) => Err(e),
        }
    }

    fn fits_format(&self) -> (r: bool) {
        assert(records_cells(self.rows@) =~= self.table_rows().map_values(
            |row: Self::Row| Self::row_cells(row),
        ));
        records_encodable(&self.rows)
    }

    fn write(&self) -> (r: Vec<u8>) {
        assert(records_cells(self.rows@) =~= self.table_rows().map_values(
            |row: Self::Row| Self::row_cells(row),
        ));
        write_records(&self.rows)
    }
}

impl Indexable for Talent {
    type PrimaryKey = TalentKey;

    open spec fn key_id(key: &TalentKey) -> int {
        key.id as int
    }

    open spec fn row_id(row: TalentRow) -> int {
        row.key_of()
    }

    fn get(&self, key: &TalentKey) -> (r: Option<&TalentRow>) {
        assert(keys_of(self.rows@) =~= self.table_rows().map_values(
            |row: Self::Row| Self::row_id(row),
        ));
        match position(self.rows.as_slice(), key.id as i64) {
            Some(i) => Some(&self.rows[i]),
            None => None,
        }
    }

    fn get_mut(&mut self, key: &TalentKey) -> (r: Option<&mut TalentRow>) {
        assert(keys_of(self.rows@) =~= self.table_rows().map_values(
            |row: Self::Row| Self::row_id(row),
        ));
        match position(self.rows.as_slice(), key.id as i64) {
            Some(i) => Some(&mut self.rows[i]),
            None => None,
        }
    }
}

} // verus!
