use vstd::prelude::*;

use crate::codec::{fields_view, int_at, push_int, Cell, Field, FieldKind};
use crate::error::DbcError;
use crate::lookup::{keys_of, position, KeyedRow};
use crate::record::{read_records, records_cells, records_encodable, write_records, Record};
use crate::{localized_layout, DbcTable, Indexable, LocalizedString};

verus! {

#[derive(Debug, Clone, PartialEq)]
pub struct ChatChannels {
    pub rows: Vec<ChatChannelsRow>,
}

#[derive(Debug, Clone, Copy, PartialEq, Eq, Ord, PartialOrd, Hash)]
pub struct ChatChannelsKey {
    pub id: i32,
}

impl ChatChannelsKey {
    pub fn new(id: i32) -> (r: Self)
        ensures
            r.id == id,
    {
        Self { id }
    }
}

#[derive(Debug, Clone, PartialEq)]
pub struct ChatChannelsRow {
    pub id: ChatChannelsKey,
    pub flags: i32,
    pub faction_group: i32,
    pub name_lang: LocalizedString,
    pub shortcut_lang: LocalizedString,
}

impl Record for ChatChannelsRow {
    open spec fn layout() -> Seq<FieldKind> {
        seq![FieldKind::Int, FieldKind::Int, FieldKind::Int]
            + localized_layout()
            + localized_layout()
    }

    open spec fn cells(&self) -> Seq<Cell> {
        seq![Cell::Int(self.id.id), Cell::Int(self.flags), Cell::Int(self.faction_group)]
            + self.name_lang.cells()
            + self.shortcut_lang.cells()
    }

    proof fn lemma_layout_ok() {
    }

    proof fn lemma_fits(&self) {
    }

    fn layout_vec() -> (r: Vec<FieldKind>) {
        let r = vec![
            FieldKind::Int, FieldKind::Int, FieldKind::Int, FieldKind::Text,
            FieldKind::Text, FieldKind::Text, FieldKind::Text, FieldKind::Text,
            FieldKind::Text, FieldKind::Text, FieldKind::Text, FieldKind::UInt,
            FieldKind::Text, FieldKind::Text, FieldKind::Text, FieldKind::Text,
            FieldKind::Text, FieldKind::Text, FieldKind::Text, FieldKind::Text,
            FieldKind::UInt,
        ];
        assert(r@ =~= Self::layout());
        r
    }

    fn to_fields(&self) -> (r: Vec<Field>) {
        let mut out: Vec<Field> = Vec::new();
        push_int(&mut out, self.id.id);
        push_int(&mut out, self.flags);
        push_int(&mut out, self.faction_group);
        self.name_lang.write_fields(&mut out);
        self.shortcut_lang.write_fields(&mut out);
        assert(fields_view(out@) =~= self.cells());
        out
    }

    fn from_fields(f: &Vec<Field>) -> (r: Self) {
        let ghost cs = fields_view(f@);
        assert(forall|j: int| 0 <= j < f@.len() ==> #[trigger] f@[j]@ == cs[j]);
        let r = ChatChannelsRow {
            id: ChatChannelsKey::new(int_at(f, 0)),
            flags: int_at(f, 1),
            faction_group: int_at(f, 2),
            name_lang: LocalizedString::read_fields(f, 3),
            shortcut_lang: LocalizedString::read_fields(f, 12),
        };
        assert(r.cells() =~= cs);
        r
    }
}

impl KeyedRow for ChatChannelsRow {
    open spec fn key_of(&self) -> int {
        self.id.id as int
    }

    fn key_value(&self) -> (r: i64) {
        self.id.id as i64
    }
}

impl DbcTable for ChatChannels {
    type Row = ChatChannelsRow;

    open spec fn layout() -> Seq<FieldKind> {
        ChatChannelsRow::layout()
    }

    open spec fn table_rows(&self) -> Seq<ChatChannelsRow> {
        self.rows@
    }

    open spec fn row_cells(row: ChatChannelsRow) -> Seq<Cell> {
        row.cells()
    }

    proof fn lemma_layout_ok() {
        ChatChannelsRow::lemma_layout_ok();
    }

    proof fn lemma_row_fits(row: ChatChannelsRow) {
        row.lemma_fits();
    }

    open spec fn file_name() -> Seq<char> {
        "ChatChannels.dbc"@
    }

    fn filename() -> (r: &'static str) {
        "ChatChannels.dbc"
    }

    fn rows(&self) -> (r: &[ChatChannelsRow]) {
        self.rows.as_slice()
    }

    fn rows_mut(&mut self) -> (r: &mut [ChatChannelsRow]) {
        self.rows.as_mut_slice()
    }

    fn read(b: &[u8]) -> (r: Result<Self, DbcError>) {
        match read_records::<ChatChannelsRow>(b) {
            Ok(rows) => Ok(ChatChannels { rows }),
            Err(e) => Err(e),
        }
    }

    fn fits_format(&self) -> (r: bool) {
        assert(records_cells(self.rows@) =~= self.table_rows().map_values(
            |row: Self::Row| Self::row_cells(row),
        ));
        records_encodable(&self.rows)
    }

    fn write(&self) -> (r: Vec<u8>) {
        assert(records_cells(self.rows@) =~= self.table_rows().map_values(
            |row: Self::Row| Self::row_cells(row),
        ));
        write_records(&self.rows)
    }
}

impl Indexable for ChatChannels {
    type PrimaryKey = ChatChannelsKey;

    open spec fn key_id(key: &ChatChannelsKey) -> int {
        key.id as int
    }

    open spec fn row_id(row: ChatChannelsRow) -> int {
        row.key_of()
    }

    fn get(&self, key: &ChatChannelsKey) -> (r: Option<&ChatChannelsRow>) {
        assert(keys_of(self.rows@) =~= self.table_rows().map_values(
            |row: Self::Row| Self::row_id(row),
        ));
        match position(self.rows.as_slice(), key.id as i64) {
            Some(i) => Some(&self.rows[i]),
            None => None,
        }
    }

    fn get_mut(&mut self, key: &ChatChannelsKey) -> (r: Option<&mut ChatChannelsRow>) {
        assert(keys_of(self.rows@) =~= self.table_rows().map_values(
            |row: Self::Row| Self::row_id(row),
        ));
        match position(self.rows.as_slice(), key.id as i64) {
            Some(i) => Some(&mut self.rows[i]),
            None => None,
        }
    }
}

} // verus!
