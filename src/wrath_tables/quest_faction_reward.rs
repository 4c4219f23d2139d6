use vstd::prelude::*;

use crate::codec::{
    fields_view, int_at, int_cells, ints_at, push_int, push_ints, repeat_kind, Cell, Field,
    FieldKind,
};
use crate::error::DbcError;
use crate::lookup::{keys_of, position, KeyedRow};
use crate::record::{read_records, records_cells, records_encodable, write_records, Record};
use crate::{DbcTable, Indexable};

verus! {

#[derive(Debug, Clone, PartialEq)]
pub struct QuestFactionReward {
    pub rows: Vec<QuestFactionRewardRow>,
}

#[derive(Debug, Clone, Copy, PartialEq, Eq, Ord, PartialOrd, Hash)]
pub struct QuestFactionRewardKey {
    pub id: i32,
}

impl QuestFactionRewardKey {
    pub fn new(id: i32) -> (r: Self)
        ensures
            r.id == id,
    {
        Self { id }
    }
}

#[derive(Debug, Clone, PartialEq)]
pub struct QuestFactionRewardRow {
    pub id: QuestFactionRewardKey,
    pub difficulty: [i32; 10],
}

impl Record for QuestFactionRewardRow {
    open spec fn layout() -> Seq<FieldKind> {
        seq![FieldKind::Int]
            + repeat_kind(FieldKind::Int, 10)
    }

    open spec fn cells(&self) -> Seq<Cell> {
        seq![Cell::Int(self.id.id)]
            + int_cells(self.difficulty@)
    }

    proof fn lemma_layout_ok() {
    }

    proof fn lemma_fits(&self) {
    }

    fn layout_vec() -> (r: Vec<FieldKind>) {
        let r = vec![
            FieldKind::Int, FieldKind::Int, FieldKind::Int, FieldKind::Int,
            FieldKind::Int, FieldKind::Int, FieldKind::Int, FieldKind::Int,
            FieldKind::Int, FieldKind::Int, FieldKind::Int,
        ];
        assert(r@ =~= Self::layout());
        r
    }

    fn to_fields(&self) -> (r: Vec<Field>) {
        let mut out: Vec<Field> = Vec::new();
        push_int(&mut out, self.id.id);
        push_ints(&mut out, self.difficulty.as_slice());
        assert(fields_view(out@) =~= self.cells());
        out
    }

    fn from_fields(f: &Vec<Field>) -> (r: Self) {
        let ghost cs = fields_view(f@);
        assert(forall|j: int| 0 <= j < f@.len() ==> #[trigger] f@[j]@ == cs[j]);
        let r = QuestFactionRewardRow {
            id: QuestFactionRewardKey::new(int_at(f, 0)),
            difficulty: ints_at::<10>(f, 1),
        };
        assert(r.cells() =~= cs);
        r
    }
}

impl KeyedRow for QuestFactionRewardRow {
    open spec fn key_of(&self) -> int {
        self.id.id as int
    }

    fn key_value(&self) -> (r: i64) {
        self.id.id as i64
    }
}

impl DbcTable for QuestFactionReward {
    type Row = QuestFactionRewardRow;

    open spec fn layout() -> Seq<FieldKind> {
        QuestFactionRewardRow::layout()
    }

    open spec fn table_rows(&self) -> Seq<QuestFactionRewardRow> {
        self.rows@
    }

    open spec fn row_cells(row: QuestFactionRewardRow) -> Seq<Cell> {
        row.cells()
    }

    proof fn lemma_layout_ok() {
        QuestFactionRewardRow::lemma_layout_ok();
    }

    proof fn lemma_row_fits(row: QuestFactionRewardRow) {
        row.lemma_fits();
    }

    open spec fn file_name() -> Seq<char> {
        "QuestFactionReward.dbc"@
    }

    fn filename() -> (r: &'static str) {
        "QuestFactionReward.dbc"
    }

    fn rows(&self) -> (r: &[QuestFactionRewardRow]) {
        self.rows.as_slice()
    }

    fn rows_mut(&mut self) -> (r: &mut [QuestFactionRewardRow]) {
        self.rows.as_mut_slice()
    }

    fn read(b: &[u8]) -> (r: Result<Self, DbcError>) {
        match read_records::<QuestFactionRewardRow>(b) {
            Ok(rows) => Ok(QuestFactionReward { rows }),
            Err(e) => Err(e),
        }
    }

    fn fits_format(&self) -> (r: bool) {
        assert(records_cells(self.rows@) =~= self.table_rows().map_values(
            |row: Self::Row| Self::row_cells(row),
        ));
        records_encodable(&self.rows)
    }

    fn write(&self) -> (r: Vec<u8>) {
        assert(records_cells(self.rows@) =~= self.table_rows().map_values(
            |row: Self::Row| Self::row_cells(row),
        ));
        write_records(&self.rows)
    }
}

impl Indexable for QuestFactionReward {
    type PrimaryKey = QuestFactionRewardKey;

    open spec fn key_id(key: &QuestFactionRewardKey) -> int {
        key.id as int
    }

    open spec fn row_id(row: QuestFactionRewardRow) -> int {
        row.key_of()
    }

    fn get(&self, key: &QuestFactionRewardKey) -> (r: Option<&QuestFactionRewardRow>) {
        assert(keys_of(self.rows@) =~= self.table_rows().map_values(
            |row: Self::Row| Self::row_id(row),
        ));
        match position(self.rows.as_slice(), key.id as i64) {
            Some(i) => Some(&self.rows[i]),
            None => None,
        }
    }

    fn get_mut(&mut self, key: &QuestFactionRewardKey) -> (r: Option<&mut QuestFactionRewardRow>) {
        assert(keys_of(self.rows@) =~= self.table_rows().map_values(
            |row: Self::Row| Self::row_id(row),
        ));
        match position(self.rows.as_slice(), key.id as i64) {
            Some(i) => Some(&mut self.rows[i]),
            None => None,
        }
    }
}

} // verus!
