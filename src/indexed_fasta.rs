use vstd::prelude::*;

use crate::fasta_index::FastaIndex;
use crate::index_entry::{EntryView, IndexEntry};
use crate::query_position::{span_len, span_start, strip_terminators, QueryPosition, NEWLINE};

verus! {

#[verifier::external_type_specification]
#[verifier::external_body]
pub struct ExMmap(memmap2::Mmap);

/// The bytes that a read-only [`memmap2::Mmap`] maps. The map is fixed when
/// it is made; the file must not change while it is mapped.
pub uninterp spec fn mapped_bytes(m: memmap2::Mmap) -> Seq<u8>;

/// Relies on `<memmap2::Mmap as Deref>::deref`: the mapped bytes as a slice,
/// the same slice on every call.
#[verifier::external_body]
fn map_bytes(m: &memmap2::Mmap) -> (r: &[u8])
    ensures
        r@ == mapped_bytes(*m),
        r@.len() <= usize::MAX,
{
    std::ops::Deref::deref(m)
}

/// Why a query was refused.
#[derive(Debug, Clone, Copy, PartialEq, Eq, Structural)]
pub enum QueryError {
    /// No entry of the index has the name asked for.
    RecordNotFound,
    /// The interval is empty or inverted: `start >= end`.
    EmptyInterval,
    /// The interval starts at or past the end of the sequence.
    StartOutOfRange,
    /// A bounded query ends past the end of the sequence.
    EndOutOfRange,
    /// The entry declares zero bases per line.
    MalformedEntry,
    /// The byte span of the interval lies outside the mapped file.
    SpanOutsideFile,
}

/// The reason, if any, that the interval `[start, end)` of `e` is refused;
/// `bounded` also refuses an `end` past the sequence.
pub open spec fn interval_error(e: EntryView, start: int, end: int, bounded: bool) -> Option<
    QueryError,
> {
    if start >= end {
        Some(QueryError::EmptyInterval)
    } else if start >= e.length {
        Some(QueryError::StartOutOfRange)
    } else if bounded && end > e.length {
        Some(QueryError::EndOutOfRange)
    } else {
        None
    }
}

/// `end`, cut down to the length of the sequence.
pub open spec fn clamp_end(e: EntryView, end: int) -> int {
    if end > e.length {
        e.length as int
    } else {
        end
    }
}

/// The bytes of the file, terminators included, that a query of bases
/// `[start, end)` of the record `name` returns, or why it fails.
pub open spec fn select_span(
    index: Map<Seq<char>, EntryView>,
    bytes: Seq<u8>,
    name: Seq<char>,
    start: int,
    end: int,
    bounded: bool,
) -> Result<Seq<u8>, QueryError> {
    if !index.contains_key(name) {
        Err(QueryError::RecordNotFound)
    } else {
        let e = index[name];
        match interval_error(e, start, end, bounded) {
            Some(err) => Err(err),
            None => {
                let end = clamp_end(e, end);
                if e.line_bases == 0 {
                    Err(QueryError::MalformedEntry)
                } else if span_start(e, start) + span_len(e, start, end) > bytes.len() {
                    Err(QueryError::SpanOutsideFile)
                } else {
                    Ok(
                        bytes.subrange(
                            span_start(e, start),
                            span_start(e, start) + span_len(e, start, end),
                        ),
                    )
                }
            },
        }
    }
}

/// What a copying query returns: the selected span with its terminators
/// removed.
pub open spec fn strip_result(r: Result<Seq<u8>, QueryError>) -> Result<Seq<u8>, QueryError> {
    match r {
        Ok(s) => Ok(strip_terminators(s)),
        Err(e) => Err(e),
    }
}

/// The bytes that a query result holds.
pub open spec fn result_bytes(r: Result<&[u8], QueryError>) -> Result<Seq<u8>, QueryError> {
    match r {
        Ok(s) => Ok(s@),
        Err(e) => Err(e),
    }
}

/// A FASTA file mapped into memory together with its index.
#[derive(Debug)]
pub struct IndexedFasta {
    index: FastaIndex,
    map: memmap2::Mmap,
    buffer: Vec<u8>,
}

/// Why `[start, end)` of `entry` is refused, checked in the order: empty or
/// inverted, start past the sequence, and (when `bounded`) end past it.
fn validate_interval(entry: &IndexEntry, start: usize, end: usize, bounded: bool) -> (r: Result<
    (),
    QueryError,
>)
    ensures
        match interval_error(entry@, start as int, end as int, bounded) {
            Some(err) => r == Err::<(), QueryError>(err),
            None => r is Ok,
        },
{
    if start > end {
        Err(QueryError::EmptyInterval)
    } else if start == end {
        Err(QueryError::EmptyInterval)
    } else if start >= entry.length {
        Err(QueryError::StartOutOfRange)
    } else if bounded && end > entry.length {
        Err(QueryError::EndOutOfRange)
    } else {
        Ok(())
    }
}

/// The span of `bytes` that holds bases `[start, end)` of the record `name`.
fn select<'a>(
    index: &FastaIndex,
    bytes: &'a [u8],
    name: &str,
    start: usize,
    end: usize,
    bounded: bool,
) -> (r: Result<&'a [u8], QueryError>)
    requires
        bytes@.len() <= usize::MAX,
    ensures
        result_bytes(r) == select_span(index@, bytes@, name@, start as int, end as int, bounded),
{
    let entry = match index.get(name) {
        Some(entry) => entry,
        None => return Err(QueryError::RecordNotFound),
    };
    match validate_interval(entry, start, end, bounded) {
        Ok(()) => {},
        Err(e) => return Err(e),
    }
    let end = if end > entry.length {
        entry.length
    } else {
        end
    };
    if entry.line_bases == 0 {
        return Err(QueryError::MalformedEntry);
    }
    let query_pos = match QueryPosition::checked_new(start, end, entry) {
        Some(q) => q,
        None => return Err(QueryError::SpanOutsideFile),
    };
    if query_pos.pos > bytes.len() || query_pos.buffer_size > bytes.len() - query_pos.pos {
        return Err(QueryError::SpanOutsideFile);
    }
    Ok(vstd::slice::slice_subrange(bytes, query_pos.pos, query_pos.pos + query_pos.buffer_size))
}

/// Replaces the contents of `buffer` by the bytes of `src` that are not line
/// terminators.
fn copy_stripped(buffer: &mut Vec<u8>, src: &[u8])
    ensures
        final(buffer)@ == strip_terminators(src@),
{
    buffer.clear();
    let mut i: usize = 0;
    while i < src.len()
        invariant
            i <= src@.len(),
            buffer@ == strip_terminators(src@.subrange(0, i as int)),
        decreases src@.len() - i,
    {
        let c = src[i];
        proof {
            let pre = src@.subrange(0, i as int);
            let next = src@.subrange(0, i + 1);
            assert(next.drop_last() =~= pre);
            assert(next.last() == c);
            reveal(Seq::filter);
        }
        if c != NEWLINE {
            buffer.push(c);
        }
        i = i + 1;
    }
    assert(src@.subrange(0, src@.len() as int) =~= src@);
}

impl IndexedFasta {
    /// The index.
    pub closed spec fn index_view(&self) -> Map<Seq<char>, EntryView> {
        self.index@
    }

    /// The bytes of the mapped file.
    pub closed spec fn mapped(&self) -> Seq<u8> {
        mapped_bytes(self.map)
    }

    /// The contents of the scratch buffer that copying queries fill.
    pub closed spec fn buffer_view(&self) -> Seq<u8> {
        self.buffer@
    }

    /// The span that a query of `[start, end)` of the record `name` selects
    /// in this file.
    pub open spec fn selected(&self, name: Seq<char>, start: int, end: int, bounded: bool) -> Result<
        Seq<u8>,
        QueryError,
    > {
        select_span(self.index_view(), self.mapped(), name, start, end, bounded)
    }

    /// Queries the file mapped by `map` through `index`.
    pub fn new(index: FastaIndex, map: memmap2::Mmap) -> (r: Self)
        ensures
            r.index_view() == index@,
            r.mapped() == mapped_bytes(map),
            r.buffer_view().len() == 0,
    {
        IndexedFasta { index, map, buffer: Vec::new() }
    }

    /// Bases `[start, end)` of the record `name`, copied into the scratch
    /// buffer without line terminators. Fails where `end` is past the
    /// sequence.
    pub fn query(&mut self, name: &str, start: usize, end: usize) -> (r: Result<&[u8], QueryError>)
        ensures
            result_bytes(r) == strip_result(old(self).selected(name@, start as int, end as int, true)),
            final(self).index_view() == old(self).index_view(),
            final(self).mapped() == old(self).mapped(),
            r matches Ok(s) ==> final(self).buffer_view() == s@,
            r is Err ==> final(self).buffer_view() == old(self).buffer_view(),
    {
        let bytes = map_bytes(&self.map);
        match select(&self.index, bytes, name, start, end, true) {
            Ok(span) => {
                copy_stripped(&mut self.buffer, span);
                Ok(self.buffer.as_slice())
            },
            Err(e) => Err(e),
        }
    }

    /// Bases `[start, end)` of the record `name`, borrowed from the mapped
    /// file with any line terminators among them. Fails where `end` is past
    /// the sequence.
    pub fn query_buffer(&self, name: &str, start: usize, end: usize) -> (r: Result<&[u8], QueryError>)
        ensures
            result_bytes(r) == self.selected(name@, start as int, end as int, true),
    {
        let bytes = map_bytes(&self.map);
        select(&self.index, bytes, name, start, end, true)
    }

    /// Bases `[start, end)` of the record `name`, copied into the scratch
    /// buffer without line terminators; an `end` past the sequence is cut
    /// down to its length.
    pub fn query_unbounded(&mut self, name: &str, start: usize, end: usize) -> (r: Result<
        &[u8],
        QueryError,
    >)
        ensures
            result_bytes(r) == strip_result(
                old(self).selected(name@, start as int, end as int, false),
            ),
            final(self).index_view() == old(self).index_view(),
            final(self).mapped() == old(self).mapped(),
            r matches Ok(s) ==> final(self).buffer_view() == s@,
            r is Err ==> final(self).buffer_view() == old(self).buffer_view(),
    {
        let bytes = map_bytes(&self.map);
        match select(&self.index, bytes, name, start, end, false) {
            Ok(span) => {
                copy_stripped(&mut self.buffer, span);
                Ok(self.buffer.as_slice())
            },
            Err(e) => Err(e),
        }
    }

    /// Bases `[start, end)` of the record `name`, borrowed from the mapped
    /// file with any line terminators among them; an `end` past the sequence
    /// is cut down to its length.
    pub fn query_buffer_unbounded(&self, name: &str, start: usize, end: usize) -> (r: Result<
        &[u8],
        QueryError,
    >)
        ensures
            result_bytes(r) == self.selected(name@, start as int, end as int, false),
    {
        let bytes = map_bytes(&self.map);
        select(&self.index, bytes, name, start, end, false)
    }
}

} // verus!
