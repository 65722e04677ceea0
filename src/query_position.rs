use vstd::arithmetic::div_mod::{
    lemma_fundamental_div_mod, lemma_fundamental_div_mod_converse_div,
};
use vstd::prelude::*;

use crate::index_entry::{EntryView, IndexEntry};

verus! {

/// Byte offset in the file of logical base `start` of the record `e`.
pub open spec fn span_start(e: EntryView, start: int) -> int {
    e.offset + (start / e.line_bases as int) * e.line_width + start % e.line_bases as int
}

/// Number of line ends met while reading bases `[start, end)` of `e`.
pub open spec fn line_crossings(e: EntryView, start: int, end: int) -> int {
    ((end - start) + start % e.line_bases as int) / e.line_bases as int
}

/// Number of bytes that hold bases `[start, end)` of `e`, with one terminator
/// byte counted for each line end met.
pub open spec fn span_len(e: EntryView, start: int, end: int) -> int {
    (end - start) + line_crossings(e, start, end)
}

/// One past the last byte of the span of bases `[start, end)` of `e`.
pub open spec fn span_end(e: EntryView, start: int, end: int) -> int {
    span_start(e, start) + span_len(e, start, end)
}

/// The byte span in the file that holds a logical interval of a record.
pub struct QueryPosition {
    pub buffer_size: usize,
    pub pos: usize,
}

proof fn lemma_span_terms_nonneg(e: EntryView, start: int, end: int)
    requires
        0 <= start < end,
        e.line_bases > 0,
    ensures
        0 <= (start / e.line_bases as int) * e.line_width,
        0 <= start % (e.line_bases as int) < e.line_bases,
        0 <= line_crossings(e, start, end),
{
    let lb = e.line_bases as int;
    let lw = e.line_width as int;
    assert(0 <= (start / lb) * lw) by (nonlinear_arith)
        requires
            0 <= start,
            0 < lb,
            0 <= lw,
    ;
    assert(0 <= start % lb < lb) by (nonlinear_arith)
        requires
            0 <= start,
            0 < lb,
    ;
    assert(0 <= ((end - start) + start % lb) / lb) by (nonlinear_arith)
        requires
            0 <= (end - start) + start % lb,
            0 < lb,
    ;
}

impl QueryPosition {
    /// Translates bases `[start, end)` of `entry` into the byte span that holds
    /// them.
    pub fn new(start: usize, end: usize, entry: &IndexEntry) -> (r: Self)
        requires
            start < end,
            entry.line_bases > 0,
            span_end(entry@, start as int, end as int) <= usize::MAX,
        ensures
            r.pos == span_start(entry@, start as int),
            r.buffer_size == span_len(entry@, start as int, end as int),
    {
        proof {
            lemma_span_terms_nonneg(entry@, start as int, end as int);
        }
        let size = end - start;
        let row_pos = (start / entry.line_bases) * entry.line_width;
        let col_pos = start % entry.line_bases;
        let num_lines = (size + col_pos) / entry.line_bases;
        let buffer_size = size + num_lines;
        let pos = entry.offset + row_pos + col_pos;
        QueryPosition { buffer_size, pos }
    }

    /// The span of bases `[start, end)` of `entry`, or `None` where its end
    /// does not fit in a `usize`.
    pub fn checked_new(start: usize, end: usize, entry: &IndexEntry) -> (r: Option<Self>)
        requires
            start < end,
            entry.line_bases > 0,
        ensures
            r is Some <==> span_end(entry@, start as int, end as int) <= usize::MAX,
            r matches Some(q) ==> q.pos == span_start(entry@, start as int) && q.buffer_size
                == span_len(entry@, start as int, end as int),
    {
        proof {
            lemma_span_terms_nonneg(entry@, start as int, end as int);
        }
        let size = end - start;
        let row = start / entry.line_bases;
        let col_pos = start % entry.line_bases;
        let row_pos = match row.checked_mul(entry.line_width) {
            Some(v) => v,
            None => return None,
        };
        let pos = match entry.offset.checked_add(row_pos) {
            Some(v) => match v.checked_add(col_pos) {
                Some(w) => w,
                None => return None,
            },
            None => return None,
        };
        let spread = match size.checked_add(col_pos) {
            Some(v) => v,
            None => return None,
        };
        let buffer_size = match size.checked_add(spread / entry.line_bases) {
            Some(v) => v,
            None => return None,
        };
        match pos.checked_add(buffer_size) {
            Some(_) => Some(QueryPosition { buffer_size, pos }),
            None => None,
        }
    }
}

/// The line terminator byte.
pub const NEWLINE: u8 = 0x0A;

/// `s` with every line terminator byte removed.
pub open spec fn strip_terminators(s: Seq<u8>) -> Seq<u8> {
    s.filter(|b: u8| b != NEWLINE)
}

/// Bases `[start, end)` of record `e`, read one by one at their byte offsets.
pub open spec fn record_bases(bytes: Seq<u8>, e: EntryView, start: int, end: int) -> Seq<u8> {
    Seq::new((end - start) as nat, |k: int| bytes[span_start(e, start + k)])
}

/// The bytes of the file lay out record `e` as its index entry says: lines of
/// `line_bases` bases, each full line followed by one terminator byte.
pub open spec fn layout_matches(bytes: Seq<u8>, e: EntryView) -> bool {
    &&& e.line_bases > 0
    &&& e.line_width == e.line_bases + 1
    &&& span_start(e, e.length as int) <= bytes.len()
    &&& forall|i: int| 0 <= i < e.length ==> #[trigger] bytes[span_start(e, i)] != NEWLINE
    &&& forall|i: int|
        0 <= i < e.length && (i + 1) % (e.line_bases as int) == 0 ==> bytes[span_start(e, i) + 1]
            == NEWLINE
}

/// With one terminator byte per line, base `i` sits `i / line_bases` bytes
/// past its logical position.
proof fn lemma_start_closed(e: EntryView, i: int)
    requires
        i >= 0,
        e.line_bases > 0,
        e.line_width == e.line_bases + 1,
    ensures
        span_start(e, i) == e.offset + i + i / (e.line_bases as int),
{
    let lb = e.line_bases as int;
    lemma_fundamental_div_mod(i, lb);
    assert((i / lb) * (lb + 1) == lb * (i / lb) + i / lb) by (nonlinear_arith);
}

/// With one terminator byte per line, a span runs from the byte of its first
/// base to the byte of the base after its last.
proof fn lemma_span_closed(e: EntryView, start: int, end: int)
    requires
        0 <= start <= end,
        e.line_bases > 0,
        e.line_width == e.line_bases + 1,
    ensures
        span_end(e, start, end) == span_start(e, end),
{
    let lb = e.line_bases as int;
    lemma_start_closed(e, start);
    lemma_start_closed(e, end);
    lemma_fundamental_div_mod(start, lb);
    lemma_fundamental_div_mod(end, lb);
    let q = end / lb - start / lb;
    let x = (end - start) + start % lb;
    assert(x == q * lb + end % lb) by (nonlinear_arith)
        requires
            start == lb * (start / lb) + start % lb,
            end == lb * (end / lb) + end % lb,
            q == end / lb - start / lb,
            x == (end - start) + start % lb,
    ;
    lemma_fundamental_div_mod_converse_div(x, lb, q, end % lb);
}

/// The byte after base `i` is the next base, or a terminator where base `i`
/// ends its line.
proof fn lemma_next_base(e: EntryView, i: int)
    requires
        i >= 0,
        e.line_bases > 0,
        e.line_width == e.line_bases + 1,
    ensures
        (i + 1) % (e.line_bases as int) == 0 ==> span_start(e, i + 1) == span_start(e, i) + 2,
        (i + 1) % (e.line_bases as int) != 0 ==> span_start(e, i + 1) == span_start(e, i) + 1,
{
    let lb = e.line_bases as int;
    lemma_start_closed(e, i);
    lemma_start_closed(e, i + 1);
    lemma_fundamental_div_mod(i, lb);
    lemma_fundamental_div_mod(i + 1, lb);
    if i % lb + 1 < lb {
        lemma_fundamental_div_mod_converse_div(i + 1, lb, i / lb, i % lb + 1);
        vstd::arithmetic::div_mod::lemma_fundamental_div_mod_converse_mod(
            i + 1,
            lb,
            i / lb,
            i % lb + 1,
        );
    } else {
        assert(i + 1 == (i / lb + 1) * lb + 0) by (nonlinear_arith)
            requires
                i == lb * (i / lb) + i % lb,
                i % lb + 1 == lb,
        ;
        lemma_fundamental_div_mod_converse_div(i + 1, lb, i / lb + 1, 0);
        vstd::arithmetic::div_mod::lemma_fundamental_div_mod_converse_mod(
            i + 1,
            lb,
            i / lb + 1,
            0,
        );
    }
}

/// Where the file lays out record `e` as indexed, removing the terminators
/// from the span of bases `[start, end)` leaves exactly those bases.
pub proof fn lemma_strip_span(bytes: Seq<u8>, e: EntryView, start: int, end: int)
    requires
        layout_matches(bytes, e),
        0 <= start <= end <= e.length,
    ensures
        span_end(e, start, end) == span_start(e, end),
        span_start(e, end) <= bytes.len(),
        strip_terminators(bytes.subrange(span_start(e, start), span_start(e, end)))
            == record_bases(bytes, e, start, end),
    decreases end - start,
{
    lemma_span_closed(e, start, end);
    lemma_start_closed(e, end);
    lemma_start_closed(e, e.length as int);
    assert(end / (e.line_bases as int) <= (e.length as int) / (e.line_bases as int)) by {
        vstd::arithmetic::div_mod::lemma_div_is_ordered(end, e.length as int, e.line_bases as int);
    }
    let ps = span_start(e, start);
    if end == start {
        assert(bytes.subrange(ps, ps).filter(|b: u8| b != NEWLINE) =~= Seq::<u8>::empty()) by {
            reveal(Seq::filter);
        }
        assert(record_bases(bytes, e, start, end) =~= Seq::<u8>::empty());
    } else {
        let t = end - 1;
        lemma_strip_span(bytes, e, start, t);
        lemma_next_base(e, t);
        lemma_start_closed(e, t);
        let pt = span_start(e, t);
        let head = bytes.subrange(ps, pt);
        let tail = bytes.subrange(pt, span_start(e, end));
        assert(bytes.subrange(ps, span_start(e, end)) =~= head + tail);
        Seq::filter_distributes_over_add(head, tail, |b: u8| b != NEWLINE);
        assert(bytes[pt] != NEWLINE);
        if (t + 1) % (e.line_bases as int) == 0 {
            assert(bytes[pt + 1] == NEWLINE);
            assert(tail =~= seq![bytes[pt], bytes[pt + 1]]);
            assert(tail.filter(|b: u8| b != NEWLINE) =~= seq![bytes[pt]]) by {
                reveal_with_fuel(Seq::filter, 3);
                assert(tail.drop_last() =~= seq![bytes[pt]]);
                assert(tail.drop_last().drop_last() =~= Seq::<u8>::empty());
            }
        } else {
            assert(tail =~= seq![bytes[pt]]);
            assert(tail.filter(|b: u8| b != NEWLINE) =~= seq![bytes[pt]]) by {
                reveal_with_fuel(Seq::filter, 2);
                assert(tail.drop_last() =~= Seq::<u8>::empty());
            }
        }
        assert(record_bases(bytes, e, start, end) =~= record_bases(bytes, e, start, t).push(
            bytes[pt],
        ));
    }
}

} // verus!
