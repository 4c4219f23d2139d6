//! The table-independent part of the format: rows are sequences of 4-byte
//! cells (unsigned integers, signed integers, or string references into the
//! heap that follows the rows).
use vstd::bytes::spec_u32_to_le_bytes;
use vstd::prelude::*;
use vstd::utf8::{decode_utf8, encode_utf8, valid_utf8};

use crate::error::{DbcError, InvalidHeaderError};
use crate::header::{
    header_bytes, header_fields, parse_header, parse_header_spec, push_word, read_word, word_at,
    DbcHeader, HEADER_SIZE,
};

verus! {

broadcast use vstd::utf8::group_utf8_lib;

/// What a cell of a row holds; every kind is four bytes wide in a record.
#[derive(Debug, Clone, Copy, PartialEq, Eq)]
pub enum FieldKind {
    UInt,
    Int,
    Text,
}

/// One decoded cell.
#[derive(Debug, Clone, PartialEq, Eq)]
pub enum Field {
    UInt(u32),
    Int(i32),
    Text(String),
}

/// The mathematical value of a cell: strings are their characters.
pub enum Cell {
    UInt(u32),
    Int(i32),
    Text(Seq<char>),
}

impl View for Field {
    type V = Cell;

    open spec fn view(&self) -> Cell {
        match self {
            Field::UInt(v) => Cell::UInt(*v),
            Field::Int(v) => Cell::Int(*v),
            Field::Text(s) => Cell::Text(s@),
        }
    }
}

pub open spec fn fields_view(v: Seq<Field>) -> Seq<Cell> {
    v.map_values(|f: Field| f@)
}

pub open spec fn table_view(v: Seq<Vec<Field>>) -> Seq<Seq<Cell>> {
    v.map_values(|r: Vec<Field>| fields_view(r@))
}

/// Bytes taken by one record of `layout`.
pub open spec fn record_size(layout: Seq<FieldKind>) -> int {
    4 * layout.len() as int
}

/// A layout whose record size and field count fit the header's counters.
pub open spec fn layout_ok(layout: Seq<FieldKind>) -> bool {
    record_size(layout) <= u32::MAX
}

pub open spec fn cell_fits(c: Cell, k: FieldKind) -> bool {
    match k {
        FieldKind::UInt => c is UInt,
        FieldKind::Int => c is Int,
        FieldKind::Text => c is Text,
    }
}

pub open spec fn row_fits(cs: Seq<Cell>, layout: Seq<FieldKind>) -> bool {
    &&& cs.len() == layout.len()
    &&& forall|j: int| 0 <= j < cs.len() ==> cell_fits(#[trigger] cs[j], layout[j])
}

pub open spec fn rows_fit(rows: Seq<Seq<Cell>>, layout: Seq<FieldKind>) -> bool {
    forall|r: int| 0 <= r < rows.len() ==> row_fits(#[trigger] rows[r], layout)
}

/// No string of the row holds a nul character, which the heap could not
/// represent.
pub open spec fn row_nul_free(cs: Seq<Cell>) -> bool {
    forall|j: int|
        0 <= j < cs.len() ==> (#[trigger] cs[j] matches Cell::Text(s) ==> !s.contains('\0'))
}

pub open spec fn rows_nul_free(rows: Seq<Seq<Cell>>) -> bool {
    forall|r: int| 0 <= r < rows.len() ==> row_nul_free(#[trigger] rows[r])
}

// ---------------------------------------------------------------------------
// Encoding
// ---------------------------------------------------------------------------

/// What a string adds to the heap: nothing when empty, else its UTF-8 bytes
/// and a nul.
pub open spec fn text_entry(s: Seq<char>) -> Seq<u8> {
    if s.len() == 0 {
        seq![]
    } else {
        encode_utf8(s).push(0u8)
    }
}

pub open spec fn cell_heap(c: Cell) -> Seq<u8> {
    match c {
        Cell::Text(s) => text_entry(s),
        _ => seq![],
    }
}

/// The word stored for a cell whose string entry, if any, starts at `off`.
pub open spec fn cell_word(c: Cell, off: int) -> u32 {
    match c {
        Cell::UInt(v) => v,
        Cell::Int(v) => v as u32,
        Cell::Text(s) => if s.len() == 0 {
            0
        } else {
            off as u32
        },
    }
}

pub open spec fn cells_heap(cs: Seq<Cell>) -> Seq<u8>
    decreases cs.len(),
{
    if cs.len() == 0 {
        seq![]
    } else {
        cells_heap(cs.drop_last()) + cell_heap(cs.last())
    }
}

/// The record bytes of a row whose first string entry starts at `off`.
pub open spec fn cells_bytes(cs: Seq<Cell>, off: int) -> Seq<u8>
    decreases cs.len(),
{
    if cs.len() == 0 {
        seq![]
    } else {
        cells_bytes(cs.drop_last(), off) + spec_u32_to_le_bytes(
            cell_word(cs.last(), off + cells_heap(cs.drop_last()).len()),
        )
    }
}

pub open spec fn rows_heap(rows: Seq<Seq<Cell>>) -> Seq<u8>
    decreases rows.len(),
{
    if rows.len() == 0 {
        seq![]
    } else {
        rows_heap(rows.drop_last()) + cells_heap(rows.last())
    }
}

pub open spec fn rows_bytes(rows: Seq<Seq<Cell>>, off: int) -> Seq<u8>
    decreases rows.len(),
{
    if rows.len() == 0 {
        seq![]
    } else {
        rows_bytes(rows.drop_last(), off) + cells_bytes(
            rows.last(),
            off + rows_heap(rows.drop_last()).len(),
        )
    }
}

/// The string heap written after the rows: a leading nul, so that offset 0
/// is the empty string, then every non-empty string in row and field order.
pub open spec fn heap_of(rows: Seq<Seq<Cell>>) -> Seq<u8> {
    seq![0u8] + rows_heap(rows)
}

/// Rows that the header's counters can describe.
pub open spec fn encodable(rows: Seq<Seq<Cell>>) -> bool {
    &&& rows.len() <= u32::MAX
    &&& heap_of(rows).len() <= u32::MAX
}

pub open spec fn header_for(rows: Seq<Seq<Cell>>, layout: Seq<FieldKind>) -> DbcHeader {
    DbcHeader {
        record_count: rows.len() as u32,
        field_count: layout.len() as u32,
        record_size: record_size(layout) as u32,
        string_block_size: heap_of(rows).len() as u32,
    }
}

/// The whole file for `rows`: header, records, heap.
pub open spec fn encode_table_spec(rows: Seq<Seq<Cell>>, layout: Seq<FieldKind>) -> Seq<u8> {
    header_bytes(header_for(rows, layout)) + rows_bytes(rows, 1) + heap_of(rows)
}

// ---------------------------------------------------------------------------
// Decoding
// ---------------------------------------------------------------------------

/// The index of the first nul at or after `i`, or the heap's length if none.
pub open spec fn nul_index(heap: Seq<u8>, i: int) -> int
    decreases heap.len() - i,
{
    if i >= heap.len() {
        heap.len() as int
    } else if heap[i] == 0 {
        i
    } else {
        nul_index(heap, i + 1)
    }
}

/// The string at offset `off` of the heap: offset 0 is always empty;
/// otherwise the bytes up to the next nul, which must exist and be UTF-8.
pub open spec fn heap_text(heap: Seq<u8>, off: u32) -> Result<Seq<char>, DbcError> {
    if off == 0 {
        Ok(seq![])
    } else if off >= heap.len() {
        Err(DbcError::Truncated)
    } else {
        let end = nul_index(heap, off as int);
        if end >= heap.len() {
            Err(DbcError::Truncated)
        } else if valid_utf8(heap.subrange(off as int, end)) {
            Ok(decode_utf8(heap.subrange(off as int, end)))
        } else {
            Err(DbcError::InvalidString)
        }
    }
}

pub open spec fn decode_cell(kind: FieldKind, word: u32, heap: Seq<u8>) -> Result<Cell, DbcError> {
    match kind {
        FieldKind::UInt => Ok(Cell::UInt(word)),
        FieldKind::Int => Ok(Cell::Int(word as i32)),
        FieldKind::Text => match heap_text(heap, word) {
            Ok(s) => Ok(Cell::Text(s)),
            Err(e) => Err(e),
        },
    }
}

/// The first `n` cells of the record `chunk`, decoded in field order; the
/// first failing cell decides the error.
pub open spec fn decode_cells(layout: Seq<FieldKind>, chunk: Seq<u8>, heap: Seq<u8>, n: nat) -> Result<
    Seq<Cell>,
    DbcError,
>
    decreases n,
{
    if n == 0 {
        Ok(seq![])
    } else {
        match decode_cells(layout, chunk, heap, (n - 1) as nat) {
            Err(e) => Err(e),
            Ok(p) => match decode_cell(layout[n - 1], word_at(chunk, 4 * (n - 1)), heap) {
                Err(e) => Err(e),
                Ok(c) => Ok(p.push(c)),
            },
        }
    }
}

/// Record `k` of the record block `data`.
pub open spec fn chunk_of(data: Seq<u8>, layout: Seq<FieldKind>, k: int) -> Seq<u8> {
    data.subrange(k * record_size(layout), (k + 1) * record_size(layout))
}

/// The first `n` records of `data`, decoded in order.
pub open spec fn decode_rows(layout: Seq<FieldKind>, data: Seq<u8>, heap: Seq<u8>, n: nat) -> Result<
    Seq<Seq<Cell>>,
    DbcError,
>
    decreases n,
{
    if n == 0 {
        Ok(seq![])
    } else {
        match decode_rows(layout, data, heap, (n - 1) as nat) {
            Err(e) => Err(e),
            Ok(p) => match decode_cells(
                layout,
                chunk_of(data, layout, n - 1),
                heap,
                layout.len(),
            ) {
                Err(e) => Err(e),
                Ok(c) => Ok(p.push(c)),
            },
        }
    }
}

/// Decoding a whole file against `layout`. The header must carry the tag,
/// then the layout's record size and field count; the records and the heap
/// must be complete. Bytes after the heap are ignored.
pub open spec fn decode_table_spec(b: Seq<u8>, layout: Seq<FieldKind>) -> Result<
    Seq<Seq<Cell>>,
    DbcError,
> {
    if b.len() < HEADER_SIZE {
        Err(DbcError::Truncated)
    } else {
        match parse_header_spec(b) {
            Err(e) => Err(DbcError::InvalidHeader(e)),
            Ok(h) => if h.record_size != record_size(layout) {
                Err(
                    DbcError::InvalidHeader(
                        InvalidHeaderError::RecordSize {
                            expected: record_size(layout) as u32,
                            actual: h.record_size,
                        },
                    ),
                )
            } else if h.field_count != layout.len() {
                Err(
                    DbcError::InvalidHeader(
                        InvalidHeaderError::FieldCount {
                            expected: layout.len() as u32,
                            actual: h.field_count,
                        },
                    ),
                )
            } else if b.len() < HEADER_SIZE + h.record_count * h.record_size
                + h.string_block_size {
                Err(DbcError::Truncated)
            } else {
                let data_end = HEADER_SIZE + h.record_count * h.record_size;
                decode_rows(
                    layout,
                    b.subrange(HEADER_SIZE as int, data_end),
                    b.subrange(data_end, data_end + h.string_block_size),
                    h.record_count as nat,
                )
            },
        }
    }
}


// ---------------------------------------------------------------------------
// Decoder
// ---------------------------------------------------------------------------

/// Relies on `std::str::from_utf8`: it accepts exactly the byte sequences
/// that are valid UTF-8, and then returns a `str` made of those very bytes.
#[verifier::external_body]
fn utf8_str(b: &[u8]) -> (r: Option<&str>)
    ensures
        r is Some <==> valid_utf8(b@),
        r matches Some(s) ==> s@ == decode_utf8(b@),
{
    std::str::from_utf8(b).ok()
}

proof fn lemma_nul_index_step(heap: Seq<u8>, i: int)
    requires
        0 <= i < heap.len(),
        heap[i] != 0,
    ensures
        nul_index(heap, i) == nul_index(heap, i + 1),
{
}

/// Reads the string that `off` refers to in `heap`.
pub fn read_heap_text(heap: &[u8], off: u32) -> (r: Result<String, DbcError>)
    ensures
        match heap_text(heap@, off) {
            Ok(s) => r matches Ok(t) && t@ == s,
            Err(e) => r == Err::<String, DbcError>(e),
        },
{
    if off == 0 {
        return Ok(String::new());
    }
    let n = heap.len();
    let start = off as usize;
    if start >= n {
        return Err(DbcError::Truncated);
    }
    let mut end = start;
    while end < n && heap[end] != 0
        invariant
            n == heap@.len(),
            start <= end <= n,
            nul_index(heap@, start as int) == nul_index(heap@, end as int),
        decreases n - end,
    {
        proof {
            lemma_nul_index_step(heap@, end as int);
        }
        end += 1;
    }
    if end >= n {
        return Err(DbcError::Truncated);
    }
    let bytes = &heap[start..end];
    assert(bytes@ == heap@.subrange(start as int, end as int));
    match utf8_str(bytes) {
        Some(s) => Ok(s.to_owned()),
        None => Err(DbcError::InvalidString),
    }
}

proof fn lemma_cells_err_persists(
    layout: Seq<FieldKind>,
    chunk: Seq<u8>,
    heap: Seq<u8>,
    j: nat,
    n: nat,
)
    requires
        j <= n,
        decode_cells(layout, chunk, heap, j) is Err,
    ensures
        decode_cells(layout, chunk, heap, n) == decode_cells(layout, chunk, heap, j),
    decreases n - j,
{
    if j < n {
        lemma_cells_err_persists(layout, chunk, heap, j, (n - 1) as nat);
    }
}

proof fn lemma_rows_err_persists(
    layout: Seq<FieldKind>,
    data: Seq<u8>,
    heap: Seq<u8>,
    j: nat,
    n: nat,
)
    requires
        j <= n,
        decode_rows(layout, data, heap, j) is Err,
    ensures
        decode_rows(layout, data, heap, n) == decode_rows(layout, data, heap, j),
    decreases n - j,
{
    if j < n {
        lemma_rows_err_persists(layout, data, heap, j, (n - 1) as nat);
    }
}

proof fn lemma_decoded_cells_fit(layout: Seq<FieldKind>, chunk: Seq<u8>, heap: Seq<u8>, n: nat)
    requires
        n <= layout.len(),
        decode_cells(layout, chunk, heap, n) is Ok,
    ensures
        decode_cells(layout, chunk, heap, n) matches Ok(cs) && cs.len() == n && forall|j: int|
            0 <= j < n ==> cell_fits(#[trigger] cs[j], layout[j]),
    decreases n,
{
    if n > 0 {
        lemma_decoded_cells_fit(layout, chunk, heap, (n - 1) as nat);
    }
}

proof fn lemma_decoded_rows_fit(layout: Seq<FieldKind>, data: Seq<u8>, heap: Seq<u8>, n: nat)
    requires
        decode_rows(layout, data, heap, n) is Ok,
    ensures
        decode_rows(layout, data, heap, n) matches Ok(rows) && rows.len() == n && rows_fit(
            rows,
            layout,
        ),
    decreases n,
{
    if n > 0 {
        lemma_decoded_rows_fit(layout, data, heap, (n - 1) as nat);
        lemma_decoded_cells_fit(layout, chunk_of(data, layout, n - 1), heap, layout.len());
    }
}

/// Whatever a successful decode returns fits the layout it was decoded with.
pub proof fn lemma_decoded_fit(b: Seq<u8>, layout: Seq<FieldKind>)
    requires
        decode_table_spec(b, layout) is Ok,
    ensures
        decode_table_spec(b, layout) matches Ok(rows) && rows_fit(rows, layout),
{
    let h = header_fields(b);
    let data_end = HEADER_SIZE + h.record_count * h.record_size;
    lemma_decoded_rows_fit(
        layout,
        b.subrange(HEADER_SIZE as int, data_end),
        b.subrange(data_end, data_end + h.string_block_size),
        h.record_count as nat,
    );
}

/// Decodes one record, field by field in layout order.
pub fn decode_row(layout: &Vec<FieldKind>, chunk: &[u8], heap: &[u8]) -> (r: Result<
    Vec<Field>,
    DbcError,
>)
    requires
        chunk@.len() == record_size(layout@),
    ensures
        match decode_cells(layout@, chunk@, heap@, layout@.len()) {
            Ok(cs) => r matches Ok(v) && fields_view(v@) == cs,
            Err(e) => r == Err::<Vec<Field>, DbcError>(e),
        },
{
    let mut out: Vec<Field> = Vec::new();
    let mut j: usize = 0;
    let clen = chunk.len();
    assert(fields_view(out@) =~= seq![]);
    while j < layout.len()
        invariant
            chunk@.len() == record_size(layout@),
            clen == chunk@.len(),
            j <= layout@.len(),
            decode_cells(layout@, chunk@, heap@, j as nat) == Ok::<Seq<Cell>, DbcError>(
                fields_view(out@),
            ),
        decreases layout@.len() - j,
    {
        let word = read_word(chunk, 4 * j);
        let field = match layout[j] {
            FieldKind::UInt => Field::UInt(word),
            FieldKind::Int => Field::Int(#[verifier::truncate] (word as i32)),
            FieldKind::Text => match read_heap_text(heap, word) {
                Ok(s) => Field::Text(s),
                Err(e) => {
                    proof {
                        lemma_cells_err_persists(
                            layout@,
                            chunk@,
                            heap@,
                            (j + 1) as nat,
                            layout@.len(),
                        );
                    }
                    return Err(e);
                },
            },
        };
        let ghost prev = out@;
        let ghost fv = field@;
        out.push(field);
        assert(fields_view(out@) =~= fields_view(prev).push(fv));
        j += 1;
    }
    Ok(out)
}

/// Decodes a whole file against `layout`.
pub fn decode_table(b: &[u8], layout: &Vec<FieldKind>) -> (r: Result<Vec<Vec<Field>>, DbcError>)
    requires
        layout_ok(layout@),
    ensures
        match decode_table_spec(b@, layout@) {
            Ok(rows) => r matches Ok(v) && table_view(v@) == rows,
            Err(e) => r == Err::<Vec<Vec<Field>>, DbcError>(e),
        },
{
    let n = b.len();
    if n < HEADER_SIZE {
        return Err(DbcError::Truncated);
    }
    let h = match parse_header(b) {
        Ok(h) => h,
        Err(e) => return Err(DbcError::InvalidHeader(e)),
    };
    let size = 4 * layout.len() as u32;
    if h.record_size != size {
        return Err(
            DbcError::InvalidHeader(
                InvalidHeaderError::RecordSize { expected: size, actual: h.record_size },
            ),
        );
    }
    if h.field_count != layout.len() as u32 {
        return Err(
            DbcError::InvalidHeader(
                InvalidHeaderError::FieldCount {
                    expected: layout.len() as u32,
                    actual: h.field_count,
                },
            ),
        );
    }
    assert(h.record_count as u64 * h.record_size as u64 <= u32::MAX as u64 * u32::MAX as u64)
        by (nonlinear_arith);
    let data_len = h.record_count as u64 * h.record_size as u64;
    if (n as u64) < HEADER_SIZE as u64 + data_len + h.string_block_size as u64 {
        return Err(DbcError::Truncated);
    }
    let data_end = HEADER_SIZE + data_len as usize;
    let data = &b[HEADER_SIZE..data_end];
    let heap = &b[data_end..data_end + h.string_block_size as usize];
    assert(data@ == b@.subrange(HEADER_SIZE as int, data_end as int));
    assert(heap@ == b@.subrange(data_end as int, data_end + h.string_block_size));
    let dlen = data.len();
    let count = h.record_count as usize;
    let rsize = size as usize;
    let mut rows: Vec<Vec<Field>> = Vec::new();
    let mut k: usize = 0;
    assert(table_view(rows@) =~= seq![]);
    assert(decode_table_spec(b@, layout@) == decode_rows(layout@, data@, heap@, count as nat));
    while k < count
        invariant
            decode_table_spec(b@, layout@) == decode_rows(layout@, data@, heap@, count as nat),
            dlen == data@.len(),
            data@.len() == count * rsize,
            rsize == record_size(layout@),
            k <= count,
            decode_rows(layout@, data@, heap@, k as nat) == Ok::<Seq<Seq<Cell>>, DbcError>(
                table_view(rows@),
            ),
        decreases count - k,
    {
        assert(k * rsize + rsize <= count * rsize) by (nonlinear_arith)
            requires
                k < count,
        ;
        assert((k + 1) * rsize == k * rsize + rsize) by (nonlinear_arith);
        let chunk = &data[k * rsize..k * rsize + rsize];
        assert(chunk@ == chunk_of(data@, layout@, k as int));
        match decode_row(layout, chunk, heap) {
            Ok(row) => {
                let ghost prev = rows@;
                let ghost rv = fields_view(row@);
                rows.push(row);
                assert(table_view(rows@) =~= table_view(prev).push(rv));
            },
            Err(e) => {
                proof {
                    assert(decode_rows(layout@, data@, heap@, (k + 1) as nat) == Err::<
                        Seq<Seq<Cell>>,
                        DbcError,
                    >(e));
                    lemma_rows_err_persists(layout@, data@, heap@, (k + 1) as nat, count as nat);
                }
                return Err(e);
            },
        }
        k += 1;
    }
    Ok(rows)
}

// ---------------------------------------------------------------------------
// Encoder
// ---------------------------------------------------------------------------

pub proof fn lemma_cells_heap_take(cs: Seq<Cell>, j: int)
    requires
        0 <= j <= cs.len(),
    ensures
        cells_heap(cs.take(j)).len() <= cells_heap(cs).len(),
    decreases cs.len(),
{
    if j < cs.len() {
        assert(cs.drop_last().take(j) =~= cs.take(j));
        lemma_cells_heap_take(cs.drop_last(), j);
    } else {
        assert(cs.take(j) =~= cs);
    }
}

pub proof fn lemma_rows_heap_take(rows: Seq<Seq<Cell>>, i: int)
    requires
        0 <= i <= rows.len(),
    ensures
        rows_heap(rows.take(i)).len() <= rows_heap(rows).len(),
    decreases rows.len(),
{
    if i < rows.len() {
        assert(rows.drop_last().take(i) =~= rows.take(i));
        lemma_rows_heap_take(rows.drop_last(), i);
    } else {
        assert(rows.take(i) =~= rows);
    }
}

/// Appends `b` to `out`.
fn push_bytes(out: &mut Vec<u8>, b: &[u8])
    ensures
        final(out)@ == old(out)@ + b@,
{
    let ghost start = out@;
    let mut i: usize = 0;
    while i < b.len()
        invariant
            0 <= i <= b@.len(),
            out@ == start + b@.subrange(0, i as int),
        decreases b@.len() - i,
    {
        out.push(b[i]);
        assert(b@.subrange(0, i + 1) == b@.subrange(0, i as int).push(b@[i as int]));
        i += 1;
    }
    assert(b@.subrange(0, b@.len() as int) == b@);
}

/// Appends the record of `row` to `data` and its strings to `heap`; the
/// first string goes at offset `heap.len()`.
fn encode_row(row: &Vec<Field>, data: &mut Vec<u8>, heap: &mut Vec<u8>)
    requires
        old(heap)@.len() + cells_heap(fields_view(row@)).len() <= u32::MAX,
    ensures
        final(data)@ == old(data)@ + cells_bytes(fields_view(row@), old(heap)@.len() as int),
        final(heap)@ == old(heap)@ + cells_heap(fields_view(row@)),
{
    let ghost cs = fields_view(row@);
    let ghost off = old(heap)@.len() as int;
    let ghost data0 = data@;
    let ghost heap0 = heap@;
    let mut j: usize = 0;
    assert(cs.take(0) =~= seq![]);
    while j < row.len()
        invariant
            cs == fields_view(row@),
            off == heap0.len(),
            off + cells_heap(cs).len() <= u32::MAX,
            0 <= j <= row@.len(),
            data@ == data0 + cells_bytes(cs.take(j as int), off),
            heap@ == heap0 + cells_heap(cs.take(j as int)),
        decreases row@.len() - j,
    {
        proof {
            lemma_cells_heap_take(cs, j + 1);
            assert(cs.take(j + 1).drop_last() =~= cs.take(j as int));
            assert(cs.take(j + 1).last() == cs[j as int]);
        }
        let ghost hlen = heap@.len();
        match &row[j] {
            Field::UInt(v) => {
                push_word(data, *v);
            },
            Field::Int(v) => {
                push_word(data, #[verifier::truncate] (*v as u32));
            },
            Field::Text(t) => {
                let st = t.as_str();
                if st.is_empty() {
                    push_word(data, 0);
                } else {
                    push_word(data, heap.len() as u32);
                    push_bytes(heap, st.as_bytes());
                    heap.push(0u8);
                }
            },
        }
        assert(data@ =~= data0 + cells_bytes(cs.take(j + 1), off));
        assert(heap@ =~= heap0 + cells_heap(cs.take(j + 1)));
        j += 1;
    }
    assert(cs.take(row@.len() as int) =~= cs);
}

/// The whole file for `rows`: header, then every record with its strings
/// replaced by heap offsets, then the heap.
pub fn encode_table(rows: &Vec<Vec<Field>>, layout: &Vec<FieldKind>) -> (r: Vec<u8>)
    requires
        layout_ok(layout@),
        encodable(table_view(rows@)),
    ensures
        r@ == encode_table_spec(table_view(rows@), layout@),
{
    let ghost tv = table_view(rows@);
    let mut data: Vec<u8> = Vec::new();
    let mut heap: Vec<u8> = Vec::new();
    heap.push(0u8);
    let mut i: usize = 0;
    assert(tv.take(0) =~= seq![]);
    assert(heap@ =~= heap_of(tv.take(0)));
    while i < rows.len()
        invariant
            tv == table_view(rows@),
            encodable(tv),
            0 <= i <= rows@.len(),
            data@ == rows_bytes(tv.take(i as int), 1),
            heap@ == heap_of(tv.take(i as int)),
        decreases rows@.len() - i,
    {
        proof {
            lemma_rows_heap_take(tv, i + 1);
            assert(tv.take(i + 1).drop_last() =~= tv.take(i as int));
            assert(tv.take(i + 1).last() == tv[i as int]);
        }
        encode_row(&rows[i], &mut data, &mut heap);
        assert(heap@ =~= heap_of(tv.take(i + 1)));
        i += 1;
    }
    assert(tv.take(rows@.len() as int) =~= tv);
    let h = DbcHeader {
        record_count: rows.len() as u32,
        field_count: layout.len() as u32,
        record_size: 4 * layout.len() as u32,
        string_block_size: heap.len() as u32,
    };
    let mut out = h.write_header();
    push_bytes(&mut out, data.as_slice());
    push_bytes(&mut out, heap.as_slice());
    out
}

/// Whether the header's 32-bit counters can describe `rows`.
pub fn table_encodable(rows: &Vec<Vec<Field>>) -> (r: bool)
    ensures
        r == encodable(table_view(rows@)),
{
    let ghost tv = table_view(rows@);
    if rows.len() as u64 > u32::MAX as u64 {
        return false;
    }
    let mut total: u64 = 1;
    let mut i: usize = 0;
    assert(tv.take(0) =~= seq![]);
    while i < rows.len()
        invariant
            tv == table_view(rows@),
            rows@.len() <= u32::MAX,
            i <= rows@.len(),
            total == heap_of(tv.take(i as int)).len(),
            total <= u32::MAX,
        decreases rows@.len() - i,
    {
        let row = &rows[i];
        let ghost cs = fields_view(row@);
        assert(tv[i as int] == cs);
        assert(tv.take(i + 1).drop_last() =~= tv.take(i as int));
        let mut j: usize = 0;
        assert(cs.take(0) =~= seq![]);
        while j < row.len()
            invariant
                cs == fields_view(row@),
                tv == table_view(rows@),
                i < rows@.len(),
                tv[i as int] == cs,
                j <= row@.len(),
                total == heap_of(tv.take(i as int)).len() + cells_heap(cs.take(j as int)).len(),
                total <= u32::MAX,
            decreases row@.len() - j,
        {
            assert(cs.take(j + 1).drop_last() =~= cs.take(j as int));
            assert(cs.take(j + 1).last() == cs[j as int]);
            assert(cs[j as int] == row@[j as int]@);
            assert(cells_heap(cs.take(j + 1)) == cells_heap(cs.take(j as int)) + cell_heap(
                cs[j as int],
            ));
            if let Field::Text(t) = &row[j] {
                let st = t.as_str();
                if !st.is_empty() {
                    let n = st.as_bytes().len() as u64;
                    assert(st@ == t@);
                    assert(cs[j as int] == Cell::Text(t@));
                    assert(n == encode_utf8(t@).len());
                    assert(cell_heap(cs[j as int]).len() == n + 1);
                    if n >= u32::MAX as u64 - total {
                        proof {
                            lemma_cells_heap_take(cs, j + 1);
                            lemma_rows_heap_take(tv, i + 1);
                            assert(tv.take(i + 1).last() == cs);
                            assert(tv.take(i + 1).drop_last() =~= tv.take(i as int));
                            assert(rows_heap(tv.take(i + 1)) == rows_heap(tv.take(i as int))
                                + cells_heap(cs));
                        }
                        return false;
                    }
                    total = total + n + 1;
                } else {
                    assert(cell_heap(cs[j as int]).len() == 0);
                }
            } else {
                assert(cell_heap(cs[j as int]).len() == 0);
            }
            j += 1;
        }
        assert(cs.take(row@.len() as int) =~= cs);
        assert(tv.take(i + 1).last() == cs);
        i += 1;
    }
    assert(tv.take(rows@.len() as int) =~= tv);
    true
}

// ---------------------------------------------------------------------------
// Moving typed values in and out of cells
// ---------------------------------------------------------------------------

pub open spec fn uint_cells(a: Seq<u32>) -> Seq<Cell> {
    a.map_values(|v: u32| Cell::UInt(v))
}

pub open spec fn int_cells(a: Seq<i32>) -> Seq<Cell> {
    a.map_values(|v: i32| Cell::Int(v))
}

/// `n` cells of one kind.
pub open spec fn repeat_kind(k: FieldKind, n: nat) -> Seq<FieldKind> {
    Seq::new(n, |i: int| k)
}

pub fn push_uint(out: &mut Vec<Field>, v: u32)
    ensures
        fields_view(final(out)@) == fields_view(old(out)@).push(Cell::UInt(v)),
{
    let ghost prev = out@;
    out.push(Field::UInt(v));
    assert(fields_view(out@) =~= fields_view(prev).push(Cell::UInt(v)));
}

pub fn push_int(out: &mut Vec<Field>, v: i32)
    ensures
        fields_view(final(out)@) == fields_view(old(out)@).push(Cell::Int(v)),
{
    let ghost prev = out@;
    out.push(Field::Int(v));
    assert(fields_view(out@) =~= fields_view(prev).push(Cell::Int(v)));
}

pub fn push_text(out: &mut Vec<Field>, s: &String)
    ensures
        fields_view(final(out)@) == fields_view(old(out)@).push(Cell::Text(s@)),
{
    let ghost prev = out@;
    out.push(Field::Text(s.clone()));
    assert(fields_view(out@) =~= fields_view(prev).push(Cell::Text(s@)));
}

pub fn push_uints(out: &mut Vec<Field>, a: &[u32])
    ensures
        fields_view(final(out)@) == fields_view(old(out)@) + uint_cells(a@),
{
    let ghost start = fields_view(out@);
    let mut i: usize = 0;
    while i < a.len()
        invariant
            i <= a@.len(),
            fields_view(out@) == start + uint_cells(a@.take(i as int)),
        decreases a@.len() - i,
    {
        push_uint(out, a[i]);
        assert(uint_cells(a@.take(i + 1)) =~= uint_cells(a@.take(i as int)).push(Cell::UInt(a@[i as int])));
        i += 1;
    }
    assert(a@.take(a@.len() as int) =~= a@);
}

pub fn push_ints(out: &mut Vec<Field>, a: &[i32])
    ensures
        fields_view(final(out)@) == fields_view(old(out)@) + int_cells(a@),
{
    let ghost start = fields_view(out@);
    let mut i: usize = 0;
    while i < a.len()
        invariant
            i <= a@.len(),
            fields_view(out@) == start + int_cells(a@.take(i as int)),
        decreases a@.len() - i,
    {
        push_int(out, a[i]);
        assert(int_cells(a@.take(i + 1)) =~= int_cells(a@.take(i as int)).push(Cell::Int(a@[i as int])));
        i += 1;
    }
    assert(a@.take(a@.len() as int) =~= a@);
}

pub fn uint_at(f: &Vec<Field>, i: usize) -> (r: u32)
    requires
        i < f@.len(),
        f@[i as int]@ is UInt,
    ensures
        f@[i as int]@ == Cell::UInt(r),
{
    match &f[i] {
        Field::UInt(v) => *v,
        _ => 0,
    }
}

pub fn int_at(f: &Vec<Field>, i: usize) -> (r: i32)
    requires
        i < f@.len(),
        f@[i as int]@ is Int,
    ensures
        f@[i as int]@ == Cell::Int(r),
{
    match &f[i] {
        Field::Int(v) => *v,
        _ => 0,
    }
}

pub fn text_at(f: &Vec<Field>, i: usize) -> (r: String)
    requires
        i < f@.len(),
        f@[i as int]@ is Text,
    ensures
        f@[i as int]@ == Cell::Text(r@),
{
    match &f[i] {
        Field::Text(s) => s.clone(),
        _ => String::new(),
    }
}

pub fn uints_at<const N: usize>(f: &Vec<Field>, at: usize) -> (r: [u32; N])
    requires
        at + N <= f@.len(),
        forall|i: int| at <= i < at + N ==> f@[i]@ is UInt,
    ensures
        uint_cells(r@) == fields_view(f@).subrange(at as int, at + N),
{
    let mut r = [0u32; N];
    let mut i: usize = 0;
    let n = f.len();
    while i < N
        invariant
            n == f@.len(),
            at + N <= f@.len(),
            forall|i: int| at <= i < at + N ==> f@[i]@ is UInt,
            i <= N,
            r@.len() == N,
            forall|j: int| 0 <= j < i ==> f@[at + j]@ == Cell::UInt(#[trigger] r@[j]),
        decreases N - i,
    {
        let v = uint_at(f, at + i);
        r[i] = v;
        i += 1;
    }
    assert(uint_cells(r@) =~= fields_view(f@).subrange(at as int, at + N));
    r
}

pub fn ints_at<const N: usize>(f: &Vec<Field>, at: usize) -> (r: [i32; N])
    requires
        at + N <= f@.len(),
        forall|i: int| at <= i < at + N ==> f@[i]@ is Int,
    ensures
        int_cells(r@) == fields_view(f@).subrange(at as int, at + N),
{
    let mut r = [0i32; N];
    let mut i: usize = 0;
    let n = f.len();
    while i < N
        invariant
            n == f@.len(),
            at + N <= f@.len(),
            forall|i: int| at <= i < at + N ==> f@[i]@ is Int,
            i <= N,
            r@.len() == N,
            forall|j: int| 0 <= j < i ==> f@[at + j]@ == Cell::Int(#[trigger] r@[j]),
        decreases N - i,
    {
        let v = int_at(f, at + i);
        r[i] = v;
        i += 1;
    }
    assert(int_cells(r@) =~= fields_view(f@).subrange(at as int, at + N));
    r
}

} // verus!
