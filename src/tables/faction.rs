use vstd::prelude::*;

use crate::codec::{
    fields_view, int_at, push_int, push_uint, push_uints, repeat_kind, row_fits,
    uint_at, uint_cells, uints_at, Cell, Field, FieldKind,
};
use crate::error::DbcError;
use crate::lookup::{keys_of, position, KeyedRow};
use crate::record::{read_records, records_cells, records_encodable, write_records, Record};
use crate::{localized_layout, DbcTable, Indexable, LocalizedString};

verus! {

#[derive(Debug, Clone, PartialEq)]
pub struct Faction {
    pub rows: Vec<FactionRow>,
}

#[derive(Debug, Clone, Copy, PartialEq, Eq, Ord, PartialOrd, Hash)]
pub struct FactionKey {
    pub id: u32,
}

impl FactionKey {
    pub fn new(id: u32) -> (r: Self)
        ensures
            r.id == id,
    {
        Self { id }
    }
}

#[derive(Debug, Clone, Copy, Ord, PartialOrd, Eq, PartialEq, Default, Hash)]
pub struct ReputationRaceMask {
    value: i32,
}

impl View for ReputationRaceMask {
    type V = i32;

    closed spec fn view(&self) -> i32 {
        self.value
    }
}

impl ReputationRaceMask {
    pub fn new(value: i32) -> (r: Self)
        ensures
            r@ == value,
    {
        Self { value }
    }

    pub fn as_int(&self) -> (r: i32)
        ensures
            r == self@,
    {
        self.value
    }
}

#[derive(Debug, Clone, Copy, Ord, PartialOrd, Eq, PartialEq, Default, Hash)]
pub struct ReputationFlags {
    value: i32,
}

impl View for ReputationFlags {
    type V = i32;

    closed spec fn view(&self) -> i32 {
        self.value
    }
}

impl ReputationFlags {
    pub fn new(value: i32) -> (r: Self)
        ensures
            r@ == value,
    {
        Self { value }
    }

    pub fn as_int(&self) -> (r: i32)
        ensures
            r == self@,
    {
        self.value
    }
}

#[derive(Debug, Clone, PartialEq)]
pub struct FactionRow {
    pub id: FactionKey,
    pub reputation_index: u32,
    pub reputation_race_mask: [ReputationRaceMask; 4],
    pub reputation_class_mask: [u32; 4],
    pub reputation_base: [u32; 4],
    pub reputation_flags: [ReputationFlags; 4],
    pub parent_faction: FactionKey,
    pub name: LocalizedString,
    pub description: LocalizedString,
}

pub open spec fn race_mask_cells(a: Seq<ReputationRaceMask>) -> Seq<Cell> {
    a.map_values(|m: ReputationRaceMask| Cell::Int(m@))
}

pub open spec fn flags_cells(a: Seq<ReputationFlags>) -> Seq<Cell> {
    a.map_values(|m: ReputationFlags| Cell::Int(m@))
}

impl Record for FactionRow {
    open spec fn layout() -> Seq<FieldKind> {
        seq![FieldKind::UInt, FieldKind::UInt] + repeat_kind(FieldKind::Int, 4) + repeat_kind(
            FieldKind::UInt,
            8,
        ) + repeat_kind(FieldKind::Int, 4) + seq![FieldKind::UInt] + localized_layout()
            + localized_layout()
    }

    open spec fn cells(&self) -> Seq<Cell> {
        seq![Cell::UInt(self.id.id), Cell::UInt(self.reputation_index)] + race_mask_cells(
            self.reputation_race_mask@,
        ) + uint_cells(self.reputation_class_mask@) + uint_cells(self.reputation_base@)
            + flags_cells(self.reputation_flags@) + seq![Cell::UInt(self.parent_faction.id)]
            + self.name.cells() + self.description.cells()
    }

    proof fn lemma_layout_ok() {
    }

    proof fn lemma_fits(&self) {
        assert(row_fits(self.cells(), Self::layout()));
    }

    fn layout_vec() -> (r: Vec<FieldKind>) {
        let r = vec![
            FieldKind::UInt, FieldKind::UInt,
            FieldKind::Int, FieldKind::Int, FieldKind::Int, FieldKind::Int,
            FieldKind::UInt, FieldKind::UInt, FieldKind::UInt, FieldKind::UInt,
            FieldKind::UInt, FieldKind::UInt, FieldKind::UInt, FieldKind::UInt,
            FieldKind::Int, FieldKind::Int, FieldKind::Int, FieldKind::Int,
            FieldKind::UInt,
            FieldKind::Text, FieldKind::Text, FieldKind::Text, FieldKind::Text,
            FieldKind::Text, FieldKind::Text, FieldKind::Text, FieldKind::Text, FieldKind::UInt,
            FieldKind::Text, FieldKind::Text, FieldKind::Text, FieldKind::Text,
            FieldKind::Text, FieldKind::Text, FieldKind::Text, FieldKind::Text, FieldKind::UInt,
        ];
        assert(r@ =~= Self::layout());
        r
    }

    fn to_fields(&self) -> (r: Vec<Field>) {
        let mut out: Vec<Field> = Vec::new();
        push_uint(&mut out, self.id.id);
        push_uint(&mut out, self.reputation_index);
        push_int(&mut out, self.reputation_race_mask[0].as_int());
        push_int(&mut out, self.reputation_race_mask[1].as_int());
        push_int(&mut out, self.reputation_race_mask[2].as_int());
        push_int(&mut out, self.reputation_race_mask[3].as_int());
        push_uints(&mut out, self.reputation_class_mask.as_slice());
        push_uints(&mut out, self.reputation_base.as_slice());
        push_int(&mut out, self.reputation_flags[0].as_int());
        push_int(&mut out, self.reputation_flags[1].as_int());
        push_int(&mut out, self.reputation_flags[2].as_int());
        push_int(&mut out, self.reputation_flags[3].as_int());
        push_uint(&mut out, self.parent_faction.id);
        self.name.write_fields(&mut out);
        self.description.write_fields(&mut out);
        assert(fields_view(out@) =~= self.cells());
        out
    }

    fn from_fields(f: &Vec<Field>) -> (r: Self) {
        let ghost cs = fields_view(f@);
        assert(forall|j: int| 0 <= j < f@.len() ==> #[trigger] f@[j]@ == cs[j]);
        let r = FactionRow {
            id: FactionKey::new(uint_at(f, 0)),
            reputation_index: uint_at(f, 1),
            reputation_race_mask: [
                ReputationRaceMask::new(int_at(f, 2)),
                ReputationRaceMask::new(int_at(f, 3)),
                ReputationRaceMask::new(int_at(f, 4)),
                ReputationRaceMask::new(int_at(f, 5)),
            ],
            reputation_class_mask: uints_at::<4>(f, 6),
            reputation_base: uints_at::<4>(f, 10),
            reputation_flags: [
                ReputationFlags::new(int_at(f, 14)),
                ReputationFlags::new(int_at(f, 15)),
                ReputationFlags::new(int_at(f, 16)),
                ReputationFlags::new(int_at(f, 17)),
            ],
            parent_faction: FactionKey::new(uint_at(f, 18)),
            name: LocalizedString::read_fields(f, 19),
            description: LocalizedString::read_fields(f, 28),
        };
        assert(r.cells() =~= cs);
        r
    }
}

impl KeyedRow for FactionRow {
    open spec fn key_of(&self) -> int {
        self.id.id as int
    }

    fn key_value(&self) -> (r: i64) {
        self.id.id as i64
    }
}

impl DbcTable for Faction {
    type Row = FactionRow;

    open spec fn layout() -> Seq<FieldKind> {
        FactionRow::layout()
    }

    open spec fn table_rows(&self) -> Seq<FactionRow> {
        self.rows@
    }

    open spec fn row_cells(row: FactionRow) -> Seq<Cell> {
        row.cells()
    }

    proof fn lemma_layout_ok() {
        FactionRow::lemma_layout_ok();
    }

    proof fn lemma_row_fits(row: FactionRow) {
        row.lemma_fits();
    }

    open spec fn file_name() -> Seq<char> {
        "Faction.dbc"@
    }

    fn filename() -> (r: &'static str) {
        "Faction.dbc"
    }

    fn rows(&self) -> (r: &[FactionRow]) {
        self.rows.as_slice()
    }

    fn rows_mut(&mut self) -> (r: &mut [FactionRow]) {
        self.rows.as_mut_slice()
    }

    fn read(b: &[u8]) -> (r: Result<Self, DbcError>) {
        match read_records::<FactionRow>(b) {
            Ok(rows) => Ok(Faction { rows }),
            Err(e) => Err(e),
        }
    }

    fn fits_format(&self) -> (r: bool) {
        assert(records_cells(self.rows@) =~= self.table_rows().map_values(
            |row: Self::Row| Self::row_cells(row),
        ));
        records_encodable(&self.rows)
    }

    fn write(&self) -> (r: Vec<u8>) {
        assert(records_cells(self.rows@) =~= self.table_rows().map_values(
            |row: Self::Row| Self::row_cells(row),
        ));
        write_records(&self.rows)
    }
}

impl Indexable for Faction {
    type PrimaryKey = FactionKey;

    open spec fn key_id(key: &FactionKey) -> int {
        key.id as int
    }

    open spec fn row_id(row: FactionRow) -> int {
        row.key_of()
    }

    fn get(&self, key: &FactionKey) -> (r: Option<&FactionRow>) {
        assert(keys_of(self.rows@) =~= self.table_rows().map_values(
            |row: Self::Row| Self::row_id(row),
        ));
        match position(self.rows.as_slice(), key.id as i64) {
            Some(i) => Some(&self.rows[i]),
            None => None,
        }
    }

    fn get_mut(&mut self, key: &FactionKey) -> (r: Option<&mut FactionRow>) {
        assert(keys_of(self.rows@) =~= self.table_rows().map_values(
            |row: Self::Row| Self::row_id(row),
        ));
        match position(self.rows.as_slice(), key.id as i64) {
            Some(i) => Some(&mut self.rows[i]),
            None => None,
        }
    }
}

} // verus!
