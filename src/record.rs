//! Typed rows: how each row type maps onto the cells of its record.
use vstd::prelude::*;

use crate::codec::{
    decode_table, decode_table_spec, encodable, encode_table, encode_table_spec, fields_view,
    layout_ok, lemma_decoded_fit, row_fits, rows_fit, table_encodable, table_view, Cell, Field,
    FieldKind,
};
use crate::error::DbcError;

verus! {

/// A row type together with the layout of its record.
pub trait Record: Sized {
    /// The cells of one record, in file order.
    spec fn layout() -> Seq<FieldKind>;

    /// The cells that this row takes in its record.
    spec fn cells(&self) -> Seq<Cell>;

    /// The layout's record size fits the header's counter.
    proof fn lemma_layout_ok()
        ensures
            layout_ok(Self::layout()),
    ;

    /// The row matches the layout, cell for cell.
    proof fn lemma_fits(&self)
        ensures
            row_fits(self.cells(), Self::layout()),
    ;

    /// The layout as a value.
    fn layout_vec() -> (r: Vec<FieldKind>)
        ensures
            r@ == Self::layout(),
    ;

    /// The cells of this row, as values.
    fn to_fields(&self) -> (r: Vec<Field>)
        ensures
            fields_view(r@) == self.cells(),
    ;

    /// The row whose cells are `f`.
    fn from_fields(f: &Vec<Field>) -> (r: Self)
        requires
            row_fits(fields_view(f@), Self::layout()),
        ensures
            r.cells() == fields_view(f@),
    ;
}

/// The cells of every row.
pub open spec fn records_cells<R: Record>(rows: Seq<R>) -> Seq<Seq<Cell>> {
    rows.map_values(|x: R| x.cells())
}

/// Reads every row of a whole file.
pub fn read_records<R: Record>(b: &[u8]) -> (r: Result<Vec<R>, DbcError>)
    ensures
        match decode_table_spec(b@, R::layout()) {
            Ok(rows) => r matches Ok(v) && records_cells(v@) == rows,
            Err(e) => r == Err::<Vec<R>, DbcError>(e),
        },
{
    let layout = R::layout_vec();
    proof {
        R::lemma_layout_ok();
    }
    let decoded = match decode_table(b, &layout) {
        Ok(d) => d,
        Err(e) => return Err(e),
    };
    proof {
        lemma_decoded_fit(b@, layout@);
    }
    let ghost tv = table_view(decoded@);
    let mut rows: Vec<R> = Vec::new();
    let mut i: usize = 0;
    assert(records_cells(rows@) =~= tv.take(0));
    while i < decoded.len()
        invariant
            tv == table_view(decoded@),
            rows_fit(tv, R::layout()),
            i <= decoded@.len(),
            records_cells(rows@) == tv.take(i as int),
        decreases decoded@.len() - i,
    {
        assert(tv[i as int] == fields_view(decoded@[i as int]@));
        let row = R::from_fields(&decoded[i]);
        let ghost prev = rows@;
        rows.push(row);
        assert(records_cells(rows@) =~= records_cells(prev).push(row.cells()));
        assert(tv.take(i + 1) =~= tv.take(i as int).push(tv[i as int]));
        i += 1;
    }
    assert(tv.take(decoded@.len() as int) =~= tv);
    Ok(rows)
}

/// The cells of every row, as values.
pub fn records_fields<R: Record>(rows: &Vec<R>) -> (r: Vec<Vec<Field>>)
    ensures
        table_view(r@) == records_cells(rows@),
{
    let ghost cells = records_cells(rows@);
    let mut out: Vec<Vec<Field>> = Vec::new();
    let mut i: usize = 0;
    assert(table_view(out@) =~= cells.take(0));
    while i < rows.len()
        invariant
            cells == records_cells(rows@),
            i <= rows@.len(),
            table_view(out@) == cells.take(i as int),
        decreases rows@.len() - i,
    {
        let f = rows[i].to_fields();
        let ghost prev = out@;
        out.push(f);
        assert(table_view(out@) =~= table_view(prev).push(fields_view(f@)));
        assert(cells.take(i + 1) =~= cells.take(i as int).push(cells[i as int]));
        i += 1;
    }
    assert(cells.take(rows@.len() as int) =~= cells);
    out
}

/// Whether the header's 32-bit counters can describe `rows`.
pub fn records_encodable<R: Record>(rows: &Vec<R>) -> (r: bool)
    ensures
        r == encodable(records_cells(rows@)),
{
    let fields = records_fields(rows);
    table_encodable(&fields)
}

/// The bytes of the file for `rows`.
pub fn write_records<R: Record>(rows: &Vec<R>) -> (r: Vec<u8>)
    requires
        encodable(records_cells(rows@)),
    ensures
        r@ == encode_table_spec(records_cells(rows@), R::layout()),
{
    let layout = R::layout_vec();
    proof {
        R::lemma_layout_ok();
    }
    let fields = records_fields(rows);
    encode_table(&fields, &layout)
}

} // verus!
