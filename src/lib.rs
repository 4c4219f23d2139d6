//! Reading and writing of DBC files: fixed-record binary tables with a
//! trailing string heap.
use vstd::prelude::*;

pub mod codec;
pub mod error;
pub mod header;
pub mod laws;
pub mod lookup;
pub mod record;
pub mod tables;
pub mod tbc_tables;
pub mod wrath_tables;

pub use error::{DbcError, InvalidEnumError, InvalidHeaderError};

use crate::codec::{
    decode_table_spec, encodable, encode_table_spec, fields_view, layout_ok, push_text, push_uint,
    row_fits, rows_fit, rows_nul_free, text_at, uint_at, Cell, Field, FieldKind,
};
use crate::lookup::first_match;

verus! {

/// One string per language variant, plus a flags word.
///
/// Files from the English version of the game only fill `en_gb`.
#[derive(Debug, Clone, PartialEq, Eq)]
pub struct LocalizedString {
    /// English, Great Britain
    pub en_gb: String,
    /// Korean, Korea
    pub ko_kr: String,
    /// French, France
    pub fr_fr: String,
    /// German, Germany
    pub de_de: String,
    /// English, China
    pub en_cn: String,
    /// English, Taiwan
    pub en_tw: String,
    /// Spanish, Spain
    pub es_es: String,
    /// Spanish, Mexico
    pub es_mx: String,
    /// Unknown flags.
    pub flags: u32,
}

impl LocalizedString {
    /// The eight variants in file order.
    pub open spec fn variants(&self) -> Seq<Seq<char>> {
        seq![
            self.en_gb@,
            self.ko_kr@,
            self.fr_fr@,
            self.de_de@,
            self.en_cn@,
            self.en_tw@,
            self.es_es@,
            self.es_mx@,
        ]
    }

    /// The nine cells that the value takes in a record: one string reference
    /// per variant, then the flags.
    pub open spec fn cells(&self) -> Seq<Cell> {
        self.variants().map_values(|s: Seq<char>| Cell::Text(s)).push(Cell::UInt(self.flags))
    }

    #[allow(clippy::too_many_arguments)]
    pub fn new(
        en_gb: String,
        ko_kr: String,
        fr_fr: String,
        de_de: String,
        en_cn: String,
        en_tw: String,
        es_es: String,
        es_mx: String,
        flags: u32,
    ) -> (r: Self)
        ensures
            r == (LocalizedString { en_gb, ko_kr, fr_fr, de_de, en_cn, en_tw, es_es, es_mx, flags }),
    {
        Self { en_gb, ko_kr, fr_fr, de_de, en_cn, en_tw, es_es, es_mx, flags }
    }

    /// The eight variants in file order.
    pub fn strings(&self) -> (r: [&String; 8])
        ensures
            r@.map_values(|s: &String| s@) == self.variants(),
    {
        let r = [
            &self.en_gb,
            &self.ko_kr,
            &self.fr_fr,
            &self.de_de,
            &self.en_cn,
            &self.en_tw,
            &self.es_es,
            &self.es_mx,
        ];
        assert(r@.map_values(|s: &String| s@) =~= self.variants());
        r
    }

    /// Appends the nine cells of this value.
    pub fn write_fields(&self, out: &mut Vec<Field>)
        ensures
            fields_view(final(out)@) == fields_view(old(out)@) + self.cells(),
    {
        let ghost start = fields_view(out@);
        push_text(out, &self.en_gb);
        push_text(out, &self.ko_kr);
        push_text(out, &self.fr_fr);
        push_text(out, &self.de_de);
        push_text(out, &self.en_cn);
        push_text(out, &self.en_tw);
        push_text(out, &self.es_es);
        push_text(out, &self.es_mx);
        push_uint(out, self.flags);
        assert(fields_view(out@) =~= start + self.cells());
    }

    /// Reads the value from the nine cells that start at `at`.
    pub fn read_fields(f: &Vec<Field>, at: usize) -> (r: Self)
        requires
            at + 9 <= f@.len(),
            row_fits(fields_view(f@).subrange(at as int, at + 9), localized_layout()),
        ensures
            r.cells() == fields_view(f@).subrange(at as int, at + 9),
    {
        let ghost cs = fields_view(f@).subrange(at as int, at + 9);
        let n = f.len();
        assert(at + 9 <= n);
        assert(forall|j: int| 0 <= j < 9 ==> f@[at + j]@ == #[trigger] cs[j]);
        assert(cs[0] is Text && cs[1] is Text && cs[2] is Text && cs[3] is Text);
        assert(cs[4] is Text && cs[5] is Text && cs[6] is Text && cs[7] is Text && cs[8] is UInt);
        let r = LocalizedString {
            en_gb: text_at(f, at),
            ko_kr: text_at(f, at + 1),
            fr_fr: text_at(f, at + 2),
            de_de: text_at(f, at + 3),
            en_cn: text_at(f, at + 4),
            en_tw: text_at(f, at + 5),
            es_es: text_at(f, at + 6),
            es_mx: text_at(f, at + 7),
            flags: uint_at(f, at + 8),
        };
        assert(r.cells() =~= cs);
        r
    }
}

/// Layout of a localized string: eight string references and a flags word.
pub open spec fn localized_layout() -> Seq<FieldKind> {
    seq![
        FieldKind::Text,
        FieldKind::Text,
        FieldKind::Text,
        FieldKind::Text,
        FieldKind::Text,
        FieldKind::Text,
        FieldKind::Text,
        FieldKind::Text,
        FieldKind::UInt,
    ]
}

#[allow(missing_docs)]
#[derive(Debug, Clone, Copy, Ord, PartialOrd, Eq, PartialEq, Hash)]
pub enum Gender {
    Male,
    Female,
}

impl Gender {
    /// The raw value stored for each variant.
    pub open spec fn spec_as_int(&self) -> i32 {
        match self {
            Gender::Male => 0,
            Gender::Female => 1,
        }
    }

    #[verifier::when_used_as_spec(spec_as_int)]
    pub fn as_int(&self) -> (r: i32)
        ensures
            r == self.spec_as_int(),
    {
        match self {
            Self::Male => 0,
            Self::Female => 1,
        }
    }
}

impl TryFrom<i32> for Gender {
    type Error = InvalidEnumError;

    fn try_from(value: i32) -> (r: Result<Self, Self::Error>) {
        match value {
            0 => Ok(Self::Male),
            1 => Ok(Self::Female),
            val => Err(InvalidEnumError::new("Gender", val as i64)),
        }
    }
}

impl TryFrom<i8> for Gender {
    type Error = InvalidEnumError;

    fn try_from(value: i8) -> (r: Result<Self, Self::Error>) {
        match value {
            0 => Ok(Self::Male),
            1 => Ok(Self::Female),
            val => Err(InvalidEnumError::new("Gender", val as i64)),
        }
    }
}

impl vstd::std_specs::convert::TryFromSpecImpl<i8> for Gender {
    open spec fn obeys_try_from_spec() -> bool {
        true
    }

    open spec fn try_from_spec(v: i8) -> Result<Self, InvalidEnumError> {
        if v == 0 {
            Ok(Gender::Male)
        } else if v == 1 {
            Ok(Gender::Female)
        } else {
            Err(InvalidEnumError { enum_name: "Gender", value: v as i64 })
        }
    }
}

impl vstd::std_specs::convert::TryFromSpecImpl<i32> for Gender {
    open spec fn obeys_try_from_spec() -> bool {
        true
    }

    open spec fn try_from_spec(v: i32) -> Result<Self, InvalidEnumError> {
        if v == 0 {
            Ok(Gender::Male)
        } else if v == 1 {
            Ok(Gender::Female)
        } else {
            Err(InvalidEnumError { enum_name: "Gender", value: v as i64 })
        }
    }
}

impl Default for Gender {
    fn default() -> (r: Self)
        ensures
            r == Gender::Male,
    {
        Self::Male
    }
}

#[allow(missing_docs)]
#[derive(Debug, Clone, Copy, Ord, PartialOrd, Eq, PartialEq, Hash)]
pub enum SizeClass {
    NoSize,
    Small,
    Medium,
    Large,
    Giant,
    Colossal,
}

impl SizeClass {
    /// The raw value stored for each variant.
    pub open spec fn spec_as_int(&self) -> i32 {
        match self {
            SizeClass::NoSize => -1i32,
            SizeClass::Small => 0,
            SizeClass::Medium => 1,
            SizeClass::Large => 2,
            SizeClass::Giant => 3,
            SizeClass::Colossal => 4,
        }
    }

    #[verifier::when_used_as_spec(spec_as_int)]
    pub fn as_int(&self) -> (r: i32)
        ensures
            r == self.spec_as_int(),
    {
        match self {
            Self::NoSize => -1,
            Self::Small => 0,
            Self::Medium => 1,
            Self::Large => 2,
            Self::Giant => 3,
            Self::Colossal => 4,
        }
    }
}

impl TryFrom<i32> for SizeClass {
    type Error = InvalidEnumError;

    fn try_from(value: i32) -> (r: Result<Self, Self::Error>) {
        match value {
            -1 => Ok(Self::NoSize),
            0 => Ok(Self::Small),
            1 => Ok(Self::Medium),
            2 => Ok(Self::Large),
            3 => Ok(Self::Giant),
            4 => Ok(Self::Colossal),
            val => Err(InvalidEnumError::new("SizeClass", val as i64)),
        }
    }
}

impl vstd::std_specs::convert::TryFromSpecImpl<i32> for SizeClass {
    open spec fn obeys_try_from_spec() -> bool {
        true
    }

    open spec fn try_from_spec(v: i32) -> Result<Self, InvalidEnumError> {
        if v == -1 {
            Ok(SizeClass::NoSize)
        } else if v == 0 {
            Ok(SizeClass::Small)
        } else if v == 1 {
            Ok(SizeClass::Medium)
        } else if v == 2 {
            Ok(SizeClass::Large)
        } else if v == 3 {
            Ok(SizeClass::Giant)
        } else if v == 4 {
            Ok(SizeClass::Colossal)
        } else {
            Err(InvalidEnumError { enum_name: "SizeClass", value: v as i64 })
        }
    }
}

impl Default for SizeClass {
    fn default() -> (r: Self)
        ensures
            r == SizeClass::NoSize,
    {
        Self::NoSize
    }
}

/// A table of one layout, read from and written to the file format.
pub trait DbcTable: Sized {
    /// The type of one row.
    type Row;

    /// The cells of one record, in file order.
    spec fn layout() -> Seq<FieldKind>;

    /// The rows, in file order.
    spec fn table_rows(&self) -> Seq<Self::Row>;

    /// The cells that a row takes in its record.
    spec fn row_cells(row: Self::Row) -> Seq<Cell>;

    /// The layout's record size fits the header's counter.
    proof fn lemma_layout_ok()
        ensures
            layout_ok(Self::layout()),
    ;

    /// Every row matches the layout, cell for cell.
    proof fn lemma_row_fits(row: Self::Row)
        ensures
            row_fits(Self::row_cells(row), Self::layout()),
    ;

    /// The name of the file, `.dbc` included.
    spec fn file_name() -> Seq<char>;

    /// The name of the file, `.dbc` included.
    fn filename() -> (r: &'static str)
        ensures
            r@ == Self::file_name(),
    ;

    /// All rows. They are in no particular order.
    fn rows(&self) -> (r: &[Self::Row])
        ensures
            r@ == self.table_rows(),
    ;

    /// All rows, for changing in place.
    fn rows_mut(&mut self) -> (r: &mut [Self::Row])
        ensures
            r@ == old(self).table_rows(),
            final(r)@ == final(self).table_rows(),
    ;

    /// Reads a table from the bytes of a whole file.
    fn read(b: &[u8]) -> (r: Result<Self, DbcError>)
        ensures
            match decode_table_spec(b@, Self::layout()) {
                Ok(rows) => r matches Ok(t) && t.table_rows().map_values(
                    |row: Self::Row| Self::row_cells(row),
                ) == rows,
                Err(e) => r == Err::<Self, DbcError>(e),
            },
    ;

    /// Whether the table fits the header's 32-bit counters: at most
    /// `u32::MAX` rows and a heap of at most `u32::MAX` bytes. `write`
    /// needs this.
    fn fits_format(&self) -> (r: bool)
        ensures
            r == encodable(self.table_rows().map_values(|row: Self::Row| Self::row_cells(row))),
    ;

    /// The bytes of the file for this table. The heap always starts with a
    /// zero byte, so offset 0 is the empty string; strings are not shared.
    fn write(&self) -> (r: Vec<u8>)
        requires
            encodable(self.table_rows().map_values(|row: Self::Row| Self::row_cells(row))),
        ensures
            r@ == encode_table_spec(
                self.table_rows().map_values(|row: Self::Row| Self::row_cells(row)),
                Self::layout(),
            ),
    ;
}

/// The cells of every row of `t`.
pub open spec fn table_cells<T: DbcTable>(t: &T) -> Seq<Seq<Cell>> {
    t.table_rows().map_values(|r: T::Row| T::row_cells(r))
}

/// For every table type, what `write` produces is read back by `read` as a
/// table with the same cells in the same order, strings compared by their
/// characters. Strings must hold no nul character, and the table must fit
/// the header's 32-bit counters.
pub proof fn lemma_table_round_trip<T: DbcTable>(t: &T)
    requires
        rows_nul_free(table_cells(t)),
        encodable(table_cells(t)),
    ensures
        decode_table_spec(encode_table_spec(table_cells(t), T::layout()), T::layout()) == Ok::<
            Seq<Seq<Cell>>,
            DbcError,
        >(table_cells(t)),
{
    T::lemma_layout_ok();
    assert forall|r: int| 0 <= r < table_cells(t).len() implies row_fits(
        #[trigger] table_cells(t)[r],
        T::layout(),
    ) by {
        T::lemma_row_fits(t.table_rows()[r]);
    }
    assert(rows_fit(table_cells(t), T::layout()));
    crate::laws::lemma_round_trip(table_cells(t), T::layout());
}

/// Tables whose rows carry a primary key. The format does not make keys
/// unique or ordered, so lookups scan the rows and take the first match.
pub trait Indexable: DbcTable {
    /// The key type of the table.
    type PrimaryKey;

    /// The number a key stands for.
    spec fn key_id(key: &Self::PrimaryKey) -> int;

    /// The primary key of a row, as a number.
    spec fn row_id(row: Self::Row) -> int;

    /// The first row that carries `key`, if any.
    fn get(&self, key: &Self::PrimaryKey) -> (r: Option<&Self::Row>)
        ensures
            match first_match(
                self.table_rows().map_values(|row: Self::Row| Self::row_id(row)),
                Self::key_id(key),
            ) {
                Some(i) => r matches Some(row) && *row == self.table_rows()[i],
                None => r is None,
            },
    ;

    /// The first row that carries `key`, if any, for changing in place.
    fn get_mut(&mut self, key: &Self::PrimaryKey) -> (r: Option<&mut Self::Row>)
        ensures
            match first_match(
                old(self).table_rows().map_values(|row: Self::Row| Self::row_id(row)),
                Self::key_id(key),
            ) {
                Some(i) => r matches Some(row) && *row == old(self).table_rows()[i]
                    && final(self).table_rows() == old(self).table_rows().update(i, *final(row)),
                None => r is None && final(self).table_rows() == old(self).table_rows(),
            },
    ;
}

} // verus!
