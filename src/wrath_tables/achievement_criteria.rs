use vstd::prelude::*;

use crate::codec::{fields_view, int_at, push_int, Cell, Field, FieldKind};
use crate::error::DbcError;
use crate::lookup::{keys_of, position, KeyedRow};
use crate::record::{read_records, records_cells, records_encodable, write_records, Record};
use crate::{localized_layout, DbcTable, Indexable, LocalizedString};

verus! {

#[derive(Debug, Clone, PartialEq)]
pub struct Achievement_Criteria {
    pub rows: Vec<Achievement_CriteriaRow>,
}

#[derive(Debug, Clone, Copy, PartialEq, Eq, Ord, PartialOrd, Hash)]
pub struct Achievement_CriteriaKey {
    pub id: i32,
}

impl Achievement_CriteriaKey {
    pub fn new(id: i32) -> (r: Self)
        ensures
            r.id == id,
    {
        Self { id }
    }
}

/// Key of a row of the Achievement table. Nothing checks that such a row exists.
#[derive(Debug, Clone, Copy, PartialEq, Eq, Ord, PartialOrd, Hash)]
pub struct AchievementKey {
    pub id: i32,
}

impl AchievementKey {
    pub fn new(id: i32) -> (r: Self)
        ensures
            r.id == id,
    {
        Self { id }
    }
}

#[derive(Debug, Clone, PartialEq)]
pub struct Achievement_CriteriaRow {
    pub id: Achievement_CriteriaKey,
    pub achievement_id: AchievementKey,
    pub ty: i32,
    pub asset_id: i32,
    pub quantity: i32,
    pub start_event: i32,
    pub start_asset: i32,
    pub fail_event: i32,
    pub fail_asset: i32,
    pub description_lang: LocalizedString,
    pub flags: i32,
    pub timer_start_event: i32,
    pub timer_asset_id: i32,
    pub timer_time: i32,
    pub ui_order: i32,
}

impl Record for Achievement_CriteriaRow {
    open spec fn layout() -> Seq<FieldKind> {
        seq![
            FieldKind::Int,
            FieldKind::Int,
            FieldKind::Int,
            FieldKind::Int,
            FieldKind::Int,
            FieldKind::Int,
            FieldKind::Int,
            FieldKind::Int,
            FieldKind::Int,
        ]
            + localized_layout()
            + seq![FieldKind::Int, FieldKind::Int, FieldKind::Int, FieldKind::Int, FieldKind::Int]
    }

    open spec fn cells(&self) -> Seq<Cell> {
        seq![
            Cell::Int(self.id.id),
            Cell::Int(self.achievement_id.id),
            Cell::Int(self.ty),
            Cell::Int(self.asset_id),
            Cell::Int(self.quantity),
            Cell::Int(self.start_event),
            Cell::Int(self.start_asset),
            Cell::Int(self.fail_event),
            Cell::Int(self.fail_asset),
        ]
            + self.description_lang.cells()
            + seq![
            Cell::Int(self.flags),
            Cell::Int(self.timer_start_event),
            Cell::Int(self.timer_asset_id),
            Cell::Int(self.timer_time),
            Cell::Int(self.ui_order),
        ]
    }

    proof fn lemma_layout_ok() {
    }

    proof fn lemma_fits(&self) {
    }

    fn layout_vec() -> (r: Vec<FieldKind>) {
        let r = vec![
            FieldKind::Int, FieldKind::Int, FieldKind::Int, FieldKind::Int,
            FieldKind::Int, FieldKind::Int, FieldKind::Int, FieldKind::Int,
            FieldKind::Int, FieldKind::Text, FieldKind::Text, FieldKind::Text,
            FieldKind::Text, FieldKind::Text, FieldKind::Text, FieldKind::Text,
            FieldKind::Text, FieldKind::UInt, FieldKind::Int, FieldKind::Int,
            FieldKind::Int, FieldKind::Int, FieldKind::Int,
        ];
        assert(r@ =~= Self::layout());
        r
    }

    fn to_fields(&self) -> (r: Vec<Field>) {
        let mut out: Vec<Field> = Vec::new();
        push_int(&mut out, self.id.id);
        push_int(&mut out, self.achievement_id.id);
        push_int(&mut out, self.ty);
        push_int(&mut out, self.asset_id);
        push_int(&mut out, self.quantity);
        push_int(&mut out, self.start_event);
        push_int(&mut out, self.start_asset);
        push_int(&mut out, self.fail_event);
        push_int(&mut out, self.fail_asset);
        self.description_lang.write_fields(&mut out);
        push_int(&mut out, self.flags);
        push_int(&mut out, self.timer_start_event);
        push_int(&mut out, self.timer_asset_id);
        push_int(&mut out, self.timer_time);
        push_int(&mut out, self.ui_order);
        assert(fields_view(out@) =~= self.cells());
        out
    }

    fn from_fields(f: &Vec<Field>) -> (r: Self) {
        let ghost cs = fields_view(f@);
        assert(forall|j: int| 0 <= j < f@.len() ==> #[trigger] f@[j]@ == cs[j]);
        let r = Achievement_CriteriaRow {
            id: Achievement_CriteriaKey::new(int_at(f, 0)),
            achievement_id: AchievementKey::new(int_at(f, 1)),
            ty: int_at(f, 2),
            asset_id: int_at(f, 3),
            quantity: int_at(f, 4),
            start_event: int_at(f, 5),
            start_asset: int_at(f, 6),
            fail_event: int_at(f, 7),
            fail_asset: int_at(f, 8),
            description_lang: LocalizedString::read_fields(f, 9),
            flags: int_at(f, 18),
            timer_start_event: int_at(f, 19),
            timer_asset_id: int_at(f, 20),
            timer_time: int_at(f, 21),
            ui_order: int_at(f, 22),
        };
        assert(r.cells() =~= cs);
        r
    }
}

impl KeyedRow for Achievement_CriteriaRow {
    open spec fn key_of(&self) -> int {
        self.id.id as int
    }

    fn key_value(&self) -> (r: i64) {
        self.id.id as i64
    }
}

impl DbcTable for Achievement_Criteria {
    type Row = Achievement_CriteriaRow;

    open spec fn layout() -> Seq<FieldKind> {
        Achievement_CriteriaRow::layout()
    }

    open spec fn table_rows(&self) -> Seq<Achievement_CriteriaRow> {
        self.rows@
    }

    open spec fn row_cells(row: Achievement_CriteriaRow) -> Seq<Cell> {
        row.cells()
    }

    proof fn lemma_layout_ok() {
        Achievement_CriteriaRow::lemma_layout_ok();
    }

    proof fn lemma_row_fits(row: Achievement_CriteriaRow) {
        row.lemma_fits();
    }

    open spec fn file_name() -> Seq<char> {
        "Achievement_Criteria.dbc"@
    }

    fn filename() -> (r: &'static str) {
        "Achievement_Criteria.dbc"
    }

    fn rows(&self) -> (r: &[Achievement_CriteriaRow]) {
        self.rows.as_slice()
    }

    fn rows_mut(&mut self) -> (r: &mut [Achievement_CriteriaRow]) {
        self.rows.as_mut_slice()
    }

    fn read(b: &[u8]) -> (r: Result<Self, DbcError>) {
        match read_records::<Achievement_CriteriaRow>(b) {
            Ok(rows) => Ok(Achievement_Criteria { rows }),
            Err(e) => Err(e),
        }
    }

    fn fits_format(&self) -> (r: bool) {
        assert(records_cells(self.rows@) =~= self.table_rows().map_values(
            |row: Self::Row| Self::row_cells(row),
        ));
        records_encodable(&self.rows)
    }

    fn write(&self) -> (r: Vec<u8>) {
        assert(records_cells(self.rows@) =~= self.table_rows().map_values(
            |row: Self::Row| Self::row_cells(row),
        ));
        write_records(&self.rows)
    }
}

impl Indexable for Achievement_Criteria {
    type PrimaryKey = Achievement_CriteriaKey;

    open spec fn key_id(key: &Achievement_CriteriaKey) -> int {
        key.id as int
    }

    open spec fn row_id(row: Achievement_CriteriaRow) -> int {
        row.key_of()
    }

    fn get(&self, key: &Achievement_CriteriaKey) -> (r: Option<&Achievement_CriteriaRow>) {
        assert(keys_of(self.rows@) =~= self.table_rows().map_values(
            |row: Self::Row| Self::row_id(row),
        ));
        match position(self.rows.as_slice(), key.id as i64) {
            Some(i) => Some(&self.rows[i]),
            None => None,
        }
    }

    fn get_mut(&mut self, key: &Achievement_CriteriaKey) -> (r: Option<&mut Achievement_CriteriaRow>) {
        assert(keys_of(self.rows@) =~= self.table_rows().map_values(
            |row: Self::Row| Self::row_id(row),
        ));
        match position(self.rows.as_slice(), key.id as i64) {
            Some(i) => Some(&mut self.rows[i]),
            None => None,
        }
    }
}

} // verus!
