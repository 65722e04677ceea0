use vstd::prelude::*;

use crate::indexed_fasta::{clamp_end, strip_result, IndexedFasta, QueryError};
use crate::query_position::{
    lemma_strip_span, layout_matches, line_crossings, record_bases, span_end, span_start,
    strip_terminators, NEWLINE,
};

verus! {

/// Where the file lays out record `name` as its entry says, a bounded copying
/// query of `[start, end)` with `start < end <= length` succeeds with exactly
/// those bases: `end - start` bytes, none of them a line terminator.
pub proof fn law_copy_query_is_exact(f: IndexedFasta, name: Seq<char>, start: int, end: int)
    requires
        f.index_view().contains_key(name),
        layout_matches(f.mapped(), f.index_view()[name]),
        0 <= start < end <= f.index_view()[name].length,
    ensures
        strip_result(f.selected(name, start, end, true)) == Ok::<Seq<u8>, QueryError>(
            record_bases(f.mapped(), f.index_view()[name], start, end),
        ),
        record_bases(f.mapped(), f.index_view()[name], start, end).len() == end - start,
        forall|i: int|
            0 <= i < end - start ==> #[trigger] record_bases(
                f.mapped(),
                f.index_view()[name],
                start,
                end,
            )[i] != NEWLINE,
{
    let e = f.index_view()[name];
    lemma_strip_span(f.mapped(), e, start, end);
    assert forall|i: int| 0 <= i < end - start implies #[trigger] record_bases(
        f.mapped(),
        e,
        start,
        end,
    )[i] != NEWLINE by {
        assert(f.mapped()[span_start(e, start + i)] != NEWLINE);
    }
}

/// Where the file lays out record `name` as its entry says, a query that is
/// accepted borrows a span as long as its copy plus one terminator per line
/// end crossed, and removing the terminators from that span gives the copy.
/// `bounded` picks the mode; a truncating query reads up to the clamped end.
pub proof fn law_borrowed_span_strips_to_copy(
    f: IndexedFasta,
    name: Seq<char>,
    start: int,
    end: int,
    bounded: bool,
)
    requires
        f.index_view().contains_key(name),
        layout_matches(f.mapped(), f.index_view()[name]),
        0 <= start < end,
        start < f.index_view()[name].length,
        bounded ==> end <= f.index_view()[name].length,
    ensures
        f.selected(name, start, end, bounded) is Ok,
        strip_result(f.selected(name, start, end, bounded)) == Ok::<Seq<u8>, QueryError>(
            strip_terminators(f.selected(name, start, end, bounded)->Ok_0),
        ),
        f.selected(name, start, end, bounded)->Ok_0.len() == strip_terminators(
            f.selected(name, start, end, bounded)->Ok_0,
        ).len() + line_crossings(
            f.index_view()[name],
            start,
            clamp_end(f.index_view()[name], end),
        ),
        strip_terminators(f.selected(name, start, end, bounded)->Ok_0) == record_bases(
            f.mapped(),
            f.index_view()[name],
            start,
            clamp_end(f.index_view()[name], end),
        ),
{
    let e = f.index_view()[name];
    lemma_strip_span(f.mapped(), e, start, clamp_end(e, end));
}

/// A truncating query whose end lies past the sequence answers as a bounded
/// query that ends at the sequence's length, for the same record and start;
/// where the start is at or past the length both fail.
pub proof fn law_truncating_is_bounded_at_length(
    f: IndexedFasta,
    name: Seq<char>,
    start: int,
    end: int,
)
    requires
        f.index_view().contains_key(name),
        end > f.index_view()[name].length,
    ensures
        start < f.index_view()[name].length ==> f.selected(name, start, end, false) == f.selected(
            name,
            start,
            f.index_view()[name].length as int,
            true,
        ),
        start < f.index_view()[name].length ==> strip_result(f.selected(name, start, end, false))
            == strip_result(f.selected(name, start, f.index_view()[name].length as int, true)),
        start >= f.index_view()[name].length ==> f.selected(name, start, end, false) is Err
            && f.selected(name, start, f.index_view()[name].length as int, true) is Err,
{
}

/// An empty interval is refused for every record and start, in every mode.
pub proof fn law_empty_interval_refused(f: IndexedFasta, name: Seq<char>, start: int, bounded: bool)
    requires
        f.index_view().contains_key(name),
    ensures
        f.selected(name, start, start, bounded) == Err::<Seq<u8>, QueryError>(
            QueryError::EmptyInterval,
        ),
        strip_result(f.selected(name, start, start, bounded)) == Err::<Seq<u8>, QueryError>(
            QueryError::EmptyInterval,
        ),
{
}

/// A start at or past the end of the sequence is refused in both modes.
pub proof fn law_start_past_length_refused(
    f: IndexedFasta,
    name: Seq<char>,
    start: int,
    end: int,
    bounded: bool,
)
    requires
        f.index_view().contains_key(name),
        start >= f.index_view()[name].length,
    ensures
        f.selected(name, start, end, bounded) is Err,
        strip_result(f.selected(name, start, end, bounded)) is Err,
        start < end ==> f.selected(name, start, end, bounded) == Err::<Seq<u8>, QueryError>(
            QueryError::StartOutOfRange,
        ),
{
}

/// A name that the index lacks is reported as such, whatever the interval
/// and the mode.
pub proof fn law_missing_record(f: IndexedFasta, name: Seq<char>, start: int, end: int, bounded: bool)
    requires
        !f.index_view().contains_key(name),
    ensures
        f.selected(name, start, end, bounded) == Err::<Seq<u8>, QueryError>(
            QueryError::RecordNotFound,
        ),
        strip_result(f.selected(name, start, end, bounded)) == Err::<Seq<u8>, QueryError>(
            QueryError::RecordNotFound,
        ),
{
}

} // verus!
