//! Properties of the codec as a whole, proved over its specifications.
use vstd::bytes::{lemma_auto_spec_u32_to_from_le_bytes, spec_u32_to_le_bytes};
use vstd::prelude::*;
use vstd::utf8::{decode_utf8, encode_scalar, encode_utf8, valid_utf8};

use crate::codec::{
    cell_fits, cell_heap, cell_word, cells_bytes, cells_heap, chunk_of, decode_cell, decode_cells,
    decode_rows, decode_table_spec, encodable, encode_table_spec, header_for, heap_of, heap_text,
    layout_ok, nul_index, record_size, row_fits, row_nul_free, rows_bytes, rows_fit, rows_heap,
    rows_nul_free, text_entry, Cell, FieldKind,
};
use crate::error::{DbcError, InvalidHeaderError};
use crate::header::{header_bytes, parse_header_spec, word_at, DbcHeader, HEADER_SIZE, MAGIC};

verus! {

proof fn lemma_cells_bytes_len(cs: Seq<Cell>, off: int)
    ensures
        cells_bytes(cs, off).len() == 4 * cs.len(),
    decreases cs.len(),
{
    lemma_auto_spec_u32_to_from_le_bytes();
    if cs.len() > 0 {
        lemma_cells_bytes_len(cs.drop_last(), off);
    }
}

proof fn lemma_rows_bytes_len(rows: Seq<Seq<Cell>>, layout: Seq<FieldKind>, off: int)
    requires
        rows_fit(rows, layout),
    ensures
        rows_bytes(rows, off).len() == rows.len() * record_size(layout),
    decreases rows.len(),
{
    if rows.len() > 0 {
        let n = rows.len();
        assert(rows_fit(rows.drop_last(), layout)) by {
            assert forall|r: int| 0 <= r < rows.drop_last().len() implies row_fits(
                #[trigger] rows.drop_last()[r],
                layout,
            ) by {
                assert(rows.drop_last()[r] == rows[r]);
            }
        }
        lemma_rows_bytes_len(rows.drop_last(), layout, off);
        lemma_cells_bytes_len(rows.last(), off + rows_heap(rows.drop_last()).len());
        assert(row_fits(rows[n - 1], layout));
        assert((n - 1) * record_size(layout) + record_size(layout) == n * record_size(layout))
            by (nonlinear_arith);
    }
}

/// The word stored for cell `j` of a record.
proof fn lemma_cell_word(cs: Seq<Cell>, off: int, j: int)
    requires
        0 <= j < cs.len(),
    ensures
        word_at(cells_bytes(cs, off), 4 * j) == cell_word(cs[j], off + cells_heap(cs.take(j)).len()),
    decreases cs.len(),
{
    lemma_auto_spec_u32_to_from_le_bytes();
    let n = cs.len();
    let p = cells_bytes(cs.drop_last(), off);
    let t = spec_u32_to_le_bytes(cell_word(cs.last(), off + cells_heap(cs.drop_last()).len()));
    lemma_cells_bytes_len(cs.drop_last(), off);
    assert(cells_bytes(cs, off) == p + t);
    if j == n - 1 {
        assert((p + t).subrange(4 * j, 4 * j + 4) =~= t);
        assert(cs.take(j) =~= cs.drop_last());
    } else {
        assert((p + t).subrange(4 * j, 4 * j + 4) =~= p.subrange(4 * j, 4 * j + 4));
        lemma_cell_word(cs.drop_last(), off, j);
        assert(cs.drop_last().take(j) =~= cs.take(j));
    }
}

proof fn lemma_rows_fit_drop_last(rows: Seq<Seq<Cell>>, layout: Seq<FieldKind>)
    requires
        rows_fit(rows, layout),
        rows.len() > 0,
    ensures
        rows_fit(rows.drop_last(), layout),
{
    assert forall|r: int| 0 <= r < rows.drop_last().len() implies row_fits(
        #[trigger] rows.drop_last()[r],
        layout,
    ) by {
        assert(rows.drop_last()[r] == rows[r]);
    }
}

/// Record `k` of the record block is the encoding of row `k`.
proof fn lemma_chunk(rows: Seq<Seq<Cell>>, layout: Seq<FieldKind>, off: int, k: int)
    requires
        rows_fit(rows, layout),
        0 <= k < rows.len(),
    ensures
        chunk_of(rows_bytes(rows, off), layout, k) == cells_bytes(
            rows[k],
            off + rows_heap(rows.take(k)).len(),
        ),
    decreases rows.len(),
{
    let n = rows.len();
    let size = record_size(layout);
    lemma_rows_fit_drop_last(rows, layout);
    let p = rows_bytes(rows.drop_last(), off);
    let c = cells_bytes(rows.last(), off + rows_heap(rows.drop_last()).len());
    lemma_rows_bytes_len(rows.drop_last(), layout, off);
    lemma_cells_bytes_len(rows.last(), off + rows_heap(rows.drop_last()).len());
    assert(row_fits(rows[n - 1], layout));
    assert(rows_bytes(rows, off) == p + c);
    assert((k + 1) * size == k * size + size) by (nonlinear_arith);
    if k == n - 1 {
        assert((p + c).subrange(k * size, (k + 1) * size) =~= c);
        assert(rows.take(k) =~= rows.drop_last());
    } else {
        assert((k + 1) * size <= (n - 1) * size) by (nonlinear_arith)
            requires
                k + 1 <= n - 1,
                size >= 0,
        ;
        assert(0 <= k * size) by (nonlinear_arith)
            requires
                k >= 0,
                size >= 0,
        ;
        assert((p + c).subrange(k * size, (k + 1) * size) =~= p.subrange(k * size, (k + 1) * size));
        lemma_chunk(rows.drop_last(), layout, off, k);
        assert(rows.drop_last().take(k) =~= rows.take(k));
        assert(rows.drop_last()[k] == rows[k]);
    }
}

proof fn lemma_cells_heap_concat(a: Seq<Cell>, b: Seq<Cell>)
    ensures
        cells_heap(a + b) == cells_heap(a) + cells_heap(b),
    decreases b.len(),
{
    if b.len() == 0 {
        assert(a + b =~= a);
        assert(cells_heap(a) + seq![] =~= cells_heap(a));
    } else {
        assert((a + b).drop_last() =~= a + b.drop_last());
        lemma_cells_heap_concat(a, b.drop_last());
        assert(cells_heap(a + b) =~= cells_heap(a) + cells_heap(b));
    }
}

proof fn lemma_rows_heap_concat(a: Seq<Seq<Cell>>, b: Seq<Seq<Cell>>)
    ensures
        rows_heap(a + b) == rows_heap(a) + rows_heap(b),
    decreases b.len(),
{
    if b.len() == 0 {
        assert(a + b =~= a);
        assert(rows_heap(a) + seq![] =~= rows_heap(a));
    } else {
        assert((a + b).drop_last() =~= a + b.drop_last());
        lemma_rows_heap_concat(a, b.drop_last());
        assert(rows_heap(a + b) =~= rows_heap(a) + rows_heap(b));
    }
}

/// Where the heap entry of cell `j` of row `k` lies.
spec fn entry_offset(rows: Seq<Seq<Cell>>, k: int, j: int) -> int {
    1 + rows_heap(rows.take(k)).len() + cells_heap(rows[k].take(j)).len() as int
}

proof fn lemma_cells_split(cs: Seq<Cell>, j: int)
    requires
        0 <= j < cs.len(),
    ensures
        cells_heap(cs) == cells_heap(cs.take(j)) + cell_heap(cs[j]) + cells_heap(cs.skip(j + 1)),
{
    assert(cs =~= cs.take(j) + seq![cs[j]] + cs.skip(j + 1));
    lemma_cells_heap_concat(cs.take(j) + seq![cs[j]], cs.skip(j + 1));
    lemma_cells_heap_concat(cs.take(j), seq![cs[j]]);
    assert(seq![cs[j]].drop_last() =~= Seq::<Cell>::empty());
    assert(cells_heap(Seq::<Cell>::empty()) == Seq::<u8>::empty());
    assert(cells_heap(seq![cs[j]]) == cells_heap(seq![cs[j]].drop_last()) + cell_heap(
        seq![cs[j]].last(),
    ));
    assert(cells_heap(seq![cs[j]]) =~= cell_heap(cs[j]));
}

proof fn lemma_rows_split(rows: Seq<Seq<Cell>>, k: int)
    requires
        0 <= k < rows.len(),
    ensures
        rows_heap(rows) == rows_heap(rows.take(k)) + cells_heap(rows[k]) + rows_heap(
            rows.skip(k + 1),
        ),
{
    let cs = rows[k];
    assert(rows =~= rows.take(k) + seq![cs] + rows.skip(k + 1));
    lemma_rows_heap_concat(rows.take(k) + seq![cs], rows.skip(k + 1));
    lemma_rows_heap_concat(rows.take(k), seq![cs]);
    assert(seq![cs].drop_last() =~= Seq::<Seq<Cell>>::empty());
    assert(rows_heap(Seq::<Seq<Cell>>::empty()) == Seq::<u8>::empty());
    assert(rows_heap(seq![cs]) == rows_heap(seq![cs].drop_last()) + cells_heap(seq![cs].last()));
    assert(rows_heap(seq![cs]) =~= cells_heap(cs));
}

proof fn lemma_entry_position(rows: Seq<Seq<Cell>>, k: int, j: int)
    requires
        0 <= k < rows.len(),
        0 <= j < rows[k].len(),
    ensures
        ({
            let off = entry_offset(rows, k, j);
            let e = cell_heap(rows[k][j]);
            &&& off + e.len() <= heap_of(rows).len()
            &&& heap_of(rows).subrange(off, off + e.len()) == e
        }),
{
    let cs = rows[k];
    let a = rows_heap(rows.take(k));
    let b = cells_heap(cs.take(j));
    let e = cell_heap(cs[j]);
    let c = cells_heap(cs.skip(j + 1));
    let d = rows_heap(rows.skip(k + 1));
    lemma_cells_split(cs, j);
    lemma_rows_split(rows, k);
    let h = heap_of(rows);
    assert(h =~= seq![0u8] + a + b + e + c + d);
    let off = 1 + a.len() + b.len() as int;
    assert(h.subrange(off, off + e.len()) =~= e);
}

proof fn lemma_bytes_nonzero(x: u8)
    ensures
        0xC0u8 | x != 0,
        0xE0u8 | x != 0,
        0xF0u8 | x != 0,
        0x80u8 | x != 0,
{
    assert(0xC0u8 | x != 0) by (bit_vector);
    assert(0xE0u8 | x != 0) by (bit_vector);
    assert(0xF0u8 | x != 0) by (bit_vector);
    assert(0x80u8 | x != 0) by (bit_vector);
}

proof fn lemma_scalar_nonzero(v: u32)
    requires
        v != 0,
        vstd::utf8::is_scalar(v),
    ensures
        forall|i: int| 0 <= i < encode_scalar(v).len() ==> #[trigger] encode_scalar(v)[i] != 0,
{
    if vstd::utf8::has_width_1_encoding(v) {
        assert((v & 0x7F) as u8 != 0) by (bit_vector)
            requires
                0 < v <= 0x7F,
        ;
    } else {
        lemma_bytes_nonzero(((v >> 6) & 0x1F) as u8);
        lemma_bytes_nonzero(((v >> 12) & 0x0F) as u8);
        lemma_bytes_nonzero(((v >> 18) & 0x7) as u8);
        lemma_bytes_nonzero((v & 0x3F) as u8);
        lemma_bytes_nonzero(((v >> 6) & 0x3F) as u8);
        lemma_bytes_nonzero(((v >> 12) & 0x3F) as u8);
    }
}

/// A string without nul characters encodes to bytes without zero bytes.
proof fn lemma_encode_nul_free(s: Seq<char>)
    requires
        !s.contains('\0'),
    ensures
        forall|i: int| 0 <= i < encode_utf8(s).len() ==> #[trigger] encode_utf8(s)[i] != 0,
    decreases s.len(),
{
    if s.len() > 0 {
        let c = s[0];
        assert(s.drop_first().contains('\0') ==> s.contains('\0')) by {
            if s.drop_first().contains('\0') {
                let i = choose|i: int| 0 <= i < s.drop_first().len() && s.drop_first()[i] == '\0';
                assert(s[i + 1] == '\0');
            }
        }
        lemma_encode_nul_free(s.drop_first());
        assert(c != '\0');
        assert((c as u32) != 0) by {
            if (c as u32) == 0 {
                vstd::utf8::char_u32_cast(c, 0u32);
                vstd::utf8::char_u32_cast('\0', 0u32);
            }
        }
        vstd::utf8::char_is_scalar(c);
        lemma_scalar_nonzero(c as u32);
        let a = encode_scalar(c as u32);
        let b = encode_utf8(s.drop_first());
        assert(encode_utf8(s) == a + b);
        assert forall|i: int| 0 <= i < encode_utf8(s).len() implies #[trigger] encode_utf8(s)[i]
            != 0 by {
            if i < a.len() {
                assert((a + b)[i] == a[i]);
            } else {
                assert((a + b)[i] == b[i - a.len()]);
            }
        }
    }
}

proof fn lemma_nul_index_run(h: Seq<u8>, start: int, end: int)
    requires
        0 <= start <= end < h.len(),
        h[end] == 0,
        forall|i: int| start <= i < end ==> h[i] != 0,
    ensures
        nul_index(h, start) == end,
    decreases end - start,
{
    if start < end {
        lemma_nul_index_run(h, start + 1, end);
    }
}

/// A non-empty entry found at `off` reads back as its string.
proof fn lemma_heap_text_entry(h: Seq<u8>, off: int, s: Seq<char>)
    requires
        s.len() > 0,
        !s.contains('\0'),
        1 <= off,
        off + text_entry(s).len() <= h.len(),
        h.len() <= u32::MAX,
        h.subrange(off, off + text_entry(s).len()) == text_entry(s),
    ensures
        heap_text(h, off as u32) == Ok::<Seq<char>, DbcError>(s),
{
    broadcast use vstd::utf8::group_utf8_lib;

    let enc = encode_utf8(s);
    let e = text_entry(s);
    lemma_encode_nul_free(s);
    assert forall|i: int| off <= i < off + enc.len() implies h[i] != 0 by {
        assert(h[i] == h.subrange(off, off + e.len())[i - off]);
        assert(e[i - off] == enc[i - off]);
    }
    assert(h[off + enc.len()] == h.subrange(off, off + e.len())[enc.len() as int]);
    lemma_nul_index_run(h, off, off + enc.len());
    assert(h.subrange(off, off + enc.len()) =~= enc) by {
        assert forall|i: int| 0 <= i < enc.len() implies h.subrange(off, off + enc.len())[i]
            == enc[i] by {
            assert(h[off + i] == h.subrange(off, off + e.len())[i]);
        }
    }
    assert(valid_utf8(enc));
    assert(decode_utf8(enc) == s);
}

proof fn lemma_int_word(v: i32)
    ensures
        (v as u32) as i32 == v,
{
    assert((v as u32) as i32 == v) by (bit_vector);
}

/// Row `k` of the encoded rows decodes to itself, cell by cell.
proof fn lemma_decode_row(rows: Seq<Seq<Cell>>, layout: Seq<FieldKind>, k: int, n: nat)
    requires
        rows_fit(rows, layout),
        rows_nul_free(rows),
        encodable(rows),
        0 <= k < rows.len(),
        n <= layout.len(),
    ensures
        decode_cells(
            layout,
            cells_bytes(rows[k], 1 + rows_heap(rows.take(k)).len() as int),
            heap_of(rows),
            n,
        ) == Ok::<Seq<Cell>, DbcError>(rows[k].take(n as int)),
    decreases n,
{
    let cs = rows[k];
    let base = 1 + rows_heap(rows.take(k)).len() as int;
    let chunk = cells_bytes(cs, base);
    let h = heap_of(rows);
    assert(row_fits(cs, layout));
    assert(row_nul_free(cs));
    if n == 0 {
        assert(cs.take(0) =~= seq![]);
    } else {
        let j = n - 1;
        lemma_decode_row(rows, layout, k, (n - 1) as nat);
        lemma_cell_word(cs, base, j);
        assert(cell_fits(cs[j], layout[j]));
        lemma_entry_position(rows, k, j);
        assert(entry_offset(rows, k, j) == base + cells_heap(cs.take(j)).len());
        let word = word_at(chunk, 4 * j);
        match cs[j] {
            Cell::UInt(v) => {},
            Cell::Int(v) => {
                lemma_int_word(v);
            },
            Cell::Text(s) => {
                if s.len() == 0 {
                    assert(s =~= seq![]);
                } else {
                    let off = entry_offset(rows, k, j);
                    assert(off <= u32::MAX);
                    lemma_heap_text_entry(h, off, s);
                }
            },
        }
        assert(decode_cell(layout[j], word, h) == Ok::<Cell, DbcError>(cs[j]));
        assert(cs.take(j).push(cs[j]) =~= cs.take(n as int));
    }
}

proof fn lemma_decode_rows(rows: Seq<Seq<Cell>>, layout: Seq<FieldKind>, n: nat)
    requires
        rows_fit(rows, layout),
        rows_nul_free(rows),
        encodable(rows),
        n <= rows.len(),
    ensures
        decode_rows(layout, rows_bytes(rows, 1), heap_of(rows), n) == Ok::<
            Seq<Seq<Cell>>,
            DbcError,
        >(rows.take(n as int)),
    decreases n,
{
    if n == 0 {
        assert(rows.take(0) =~= seq![]);
    } else {
        let k = n - 1;
        lemma_decode_rows(rows, layout, (n - 1) as nat);
        lemma_chunk(rows, layout, 1, k);
        lemma_decode_row(rows, layout, k, layout.len());
        assert(row_fits(rows[k], layout));
        assert(rows[k].take(layout.len() as int) =~= rows[k]);
        assert(rows.take(k).push(rows[k]) =~= rows.take(n as int));
    }
}

/// Writing a table and reading the bytes back gives the same rows, cell for
/// cell, with every string compared by its characters. The rows must match
/// the layout, hold no string with a nul character (the heap ends strings at
/// nul), and be few and small enough for the header's 32-bit counters.
pub proof fn lemma_round_trip(rows: Seq<Seq<Cell>>, layout: Seq<FieldKind>)
    requires
        layout_ok(layout),
        rows_fit(rows, layout),
        rows_nul_free(rows),
        encodable(rows),
    ensures
        decode_table_spec(encode_table_spec(rows, layout), layout) == Ok::<
            Seq<Seq<Cell>>,
            DbcError,
        >(rows),
{
    lemma_auto_spec_u32_to_from_le_bytes();
    let h = header_for(rows, layout);
    let hb = header_bytes(h);
    let d = rows_bytes(rows, 1);
    let heap = heap_of(rows);
    let e = encode_table_spec(rows, layout);
    lemma_rows_bytes_len(rows, layout, 1);
    assert(e == hb + d + heap);
    assert(hb.len() == 20);
    assert(e.subrange(0, 4) =~= spec_u32_to_le_bytes(MAGIC));
    assert(e.subrange(4, 8) =~= spec_u32_to_le_bytes(h.record_count));
    assert(e.subrange(8, 12) =~= spec_u32_to_le_bytes(h.field_count));
    assert(e.subrange(12, 16) =~= spec_u32_to_le_bytes(h.record_size));
    assert(e.subrange(16, 20) =~= spec_u32_to_le_bytes(h.string_block_size));
    assert(parse_header_spec(e) == Ok::<DbcHeader, InvalidHeaderError>(h));
    let data_end = 20 + rows.len() * record_size(layout);
    assert(h.record_count * h.record_size == rows.len() * record_size(layout));
    assert(e.subrange(20, data_end) =~= d);
    assert(e.subrange(data_end, data_end + heap.len()) =~= heap);
    lemma_decode_rows(rows, layout, rows.len());
    assert(rows.take(rows.len() as int) =~= rows);
}

/// The heap of a written file begins with a zero byte, so offset 0 always
/// reads as the empty string.
pub proof fn lemma_heap_starts_with_nul(rows: Seq<Seq<Cell>>, layout: Seq<FieldKind>)
    requires
        rows_fit(rows, layout),
    ensures
        encode_table_spec(rows, layout)[HEADER_SIZE + rows.len() * record_size(layout)] == 0,
        heap_text(heap_of(rows), 0) == Ok::<Seq<char>, DbcError>(seq![]),
{
    lemma_auto_spec_u32_to_from_le_bytes();
    lemma_rows_bytes_len(rows, layout, 1);
    let e = encode_table_spec(rows, layout);
    let hb = header_bytes(header_for(rows, layout));
    let d = rows_bytes(rows, 1);
    assert(e == hb + d + heap_of(rows));
    assert(e[HEADER_SIZE + rows.len() * record_size(layout)] == heap_of(rows)[0]);
}

/// An empty string is always written as offset 0: the word of cell `j` of
/// record `k` in the written file is zero.
pub proof fn lemma_empty_string_offset_zero(
    rows: Seq<Seq<Cell>>,
    layout: Seq<FieldKind>,
    k: int,
    j: int,
)
    requires
        rows_fit(rows, layout),
        0 <= k < rows.len(),
        0 <= j < rows[k].len(),
        rows[k][j] == Cell::Text(seq![]),
    ensures
        word_at(
            encode_table_spec(rows, layout),
            HEADER_SIZE + k * record_size(layout) + 4 * j,
        ) == 0,
{
    lemma_auto_spec_u32_to_from_le_bytes();
    let size = record_size(layout);
    lemma_rows_bytes_len(rows, layout, 1);
    let e = encode_table_spec(rows, layout);
    let hb = header_bytes(header_for(rows, layout));
    let d = rows_bytes(rows, 1);
    assert(e == hb + d + heap_of(rows));
    lemma_chunk(rows, layout, 1, k);
    let off = 1 + rows_heap(rows.take(k)).len() as int;
    let c = cells_bytes(rows[k], off);
    lemma_cell_word(rows[k], off, j);
    assert(row_fits(rows[k], layout));
    assert((k + 1) * size == k * size + size) by (nonlinear_arith);
    assert((k + 1) * size <= rows.len() * size) by (nonlinear_arith)
        requires
            k + 1 <= rows.len(),
            size >= 0,
    ;
    assert(0 <= k * size) by (nonlinear_arith)
        requires
            k >= 0,
            size >= 0,
    ;
    let at = HEADER_SIZE + k * size + 4 * j;
    assert(e.subrange(at, at + 4) =~= c.subrange(4 * j, 4 * j + 4)) by {
        assert(c == d.subrange(k * size, (k + 1) * size));
        assert forall|i: int| 0 <= i < 4 implies #[trigger] e.subrange(at, at + 4)[i]
            == c.subrange(4 * j, 4 * j + 4)[i] by {
            assert(e[at + i] == d[k * size + 4 * j + i]);
        }
    }
}

/// A header whose record size differs from the layout's is rejected as a
/// shape mismatch that carries both sizes; the outcome depends on the header
/// alone, so no record is decoded.
pub proof fn lemma_shape_rejection(b: Seq<u8>, layout: Seq<FieldKind>)
    requires
        b.len() >= HEADER_SIZE,
        word_at(b, 0) == MAGIC,
        word_at(b, 12) != record_size(layout),
    ensures
        decode_table_spec(b, layout) == Err::<Seq<Seq<Cell>>, DbcError>(
            DbcError::InvalidHeader(
                InvalidHeaderError::RecordSize {
                    expected: record_size(layout) as u32,
                    actual: word_at(b, 12),
                },
            ),
        ),
        forall|b2: Seq<u8>|
            b2.len() >= HEADER_SIZE && b2.subrange(0, HEADER_SIZE as int) == b.subrange(
                0,
                HEADER_SIZE as int,
            ) ==> #[trigger] decode_table_spec(b2, layout) == decode_table_spec(b, layout),
{
    assert forall|b2: Seq<u8>|
        b2.len() >= HEADER_SIZE && b2.subrange(0, HEADER_SIZE as int) == b.subrange(
            0,
            HEADER_SIZE as int,
        ) implies #[trigger] decode_table_spec(b2, layout) == decode_table_spec(b, layout) by {
        assert forall|at: int| 0 <= at <= 16 implies word_at(b2, at) == word_at(b, at) by {
            assert(b2.subrange(at, at + 4) =~= b2.subrange(0, HEADER_SIZE as int).subrange(
                at,
                at + 4,
            ));
            assert(b.subrange(at, at + 4) =~= b.subrange(0, HEADER_SIZE as int).subrange(
                at,
                at + 4,
            ));
        }
        assert(word_at(b2, 0) == word_at(b, 0));
        assert(word_at(b2, 12) == word_at(b, 12));
    }
}

/// Input that stops before the header, the records or the heap is complete
/// is rejected as truncated, never read as fewer rows.
pub proof fn lemma_truncation_rejection(b: Seq<u8>, layout: Seq<FieldKind>)
    requires
        b.len() < HEADER_SIZE || ({
            &&& word_at(b, 0) == MAGIC
            &&& word_at(b, 12) == record_size(layout)
            &&& word_at(b, 8) == layout.len()
            &&& b.len() < HEADER_SIZE + word_at(b, 4) * word_at(b, 12) + word_at(b, 16)
        }),
    ensures
        decode_table_spec(b, layout) == Err::<Seq<Seq<Cell>>, DbcError>(DbcError::Truncated),
{
}

} // verus!
