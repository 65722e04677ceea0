use faiquery::{FastaIndex, IndexEntry, IndexedFasta, QueryError, QueryPosition};
use memmap2::MmapMut;

const TEST_FASTA: &[u8] = b">chr1
ACCTACGATCGACTGATCGTAGCTAGCT
CATCGATCGTACGGACGATCGATCGGTT
CACACCGGGCATGACTGATCGGGGGCCC
ACGTGTGTGCAGCGCGCGGCGCGCGCGG
>chr2
TTTTGATCGATCGGCGGGCGCGCGCGGC
CAGATTCGGGCGCGATTATATATTAGCT
CGACGGCGACTCGAGCTACACGTCGGGC
GCGAGCGGGACGCGCGGCGCGCGCGGCC
AAAAAAATTTTTATATATTATTACGCGC
CGACTCAGTCGACTGGGGGCGCGCGCGC
AAACCACA
";

const TEST_FASTA_INDEX: &[u8] = b"chr1\t112\t6\t28\t29\nchr2\t176\t128\t28\t29\n";

fn map_of(bytes: &[u8]) -> memmap2::Mmap {
    let mut map = MmapMut::map_anon(bytes.len()).expect("anonymous map");
    map.copy_from_slice(bytes);
    map.make_read_only().expect("read-only map")
}

fn example() -> IndexedFasta {
    let index = FastaIndex::from_bytes(TEST_FASTA_INDEX).expect("index decodes");
    IndexedFasta::new(index, map_of(TEST_FASTA))
}

fn entry(length: usize, offset: usize, line_bases: usize, line_width: usize) -> IndexEntry {
    IndexEntry { name: String::from("seq"), length, offset, line_bases, line_width }
}

#[test]
fn standard_usage() {
    let mut faidx = example();
    let seq = faidx.query("chr1", 0, 10).unwrap();
    assert_eq!(seq, b"ACCTACGATC");
    let seq = faidx.query("chr2", 0, 10).unwrap();
    assert_eq!(seq, b"TTTTGATCGA");
}

#[test]
fn buffered_usage() {
    let faidx = example();
    let seq = faidx.query_buffer("chr1", 0, 10).unwrap();
    assert_eq!(seq, b"ACCTACGATC");
    let seq = faidx.query_buffer("chr2", 0, 10).unwrap();
    assert_eq!(seq, b"TTTTGATCGA");
}

#[test]
fn interval_over_newline() {
    let mut faidx = example();
    let seq = faidx.query("chr1", 20, 30).unwrap();
    assert_eq!(seq, b"AGCTAGCTCA");
    let seq = faidx.query("chr2", 20, 30).unwrap();
    assert_eq!(seq, b"CGCGCGGCCA");
}

#[test]
fn interval_over_newline_buffer() {
    let faidx = example();
    let seq = faidx.query_buffer("chr1", 20, 30).unwrap();
    assert_eq!(seq, b"AGCTAGCT\nCA");
    let seq = faidx.query_buffer("chr2", 20, 30).unwrap();
    assert_eq!(seq, b"CGCGCGGC\nCA");
}

#[test]
fn interval_overextend_left() {
    let mut faidx = example();
    let seq = faidx.query("chr1", 130, 150);
    assert!(seq.is_err());
}

#[test]
fn interval_overextend_right() {
    let mut faidx = example();
    let seq = faidx.query("chr1", 100, 150);
    assert!(seq.is_err());
}

#[test]
fn interval_overextend_start_eq() {
    let mut faidx = example();
    let seq = faidx.query("chr1", 112, 113);
    assert!(seq.is_err());
}

#[test]
fn interval_overexted_left_buffered() {
    let faidx = example();
    let seq = faidx.query_buffer("chr1", 130, 150);
    assert!(seq.is_err());
}

#[test]
fn interval_overextend_right_buffered() {
    let faidx = example();
    let seq = faidx.query_buffer("chr1", 100, 150);
    assert!(seq.is_err());
}

#[test]
fn interval_overextend_start_eq_buffered() {
    let faidx = example();
    let seq = faidx.query_buffer("chr1", 112, 113);
    assert!(seq.is_err());
}

#[test]
fn interval_overextend_left_unbounded() {
    let mut faidx = example();
    let seq = faidx.query_unbounded("chr1", 130, 150);
    assert!(seq.is_err());
}

#[test]
fn interval_overextend_right_unbounded() {
    let mut faidx = example();
    let seq = faidx.query_unbounded("chr1", 100, 150).unwrap();
    assert_eq!(seq.len(), 12);
}

#[test]
fn interval_overextend_right_unbounded_start_eq() {
    let mut faidx = example();
    let seq = faidx.query_unbounded("chr1", 112, 150);
    assert!(seq.is_err());
}

#[test]
fn interval_overextend_left_unbounded_buffered() {
    let faidx = example();
    let seq = faidx.query_buffer_unbounded("chr1", 130, 150);
    assert!(seq.is_err());
}

#[test]
fn interval_overextend_right_unbounded_buffered() {
    let faidx = example();
    let seq = faidx.query_buffer_unbounded("chr1", 100, 150).unwrap();
    assert_eq!(seq.len(), 13);
    assert_eq!(seq.iter().filter(|&&b| b == b'\n').count(), 1);
}

#[test]
fn interval_overextend_right_unbounded_start_eq_buffered() {
    let faidx = example();
    let seq = faidx.query_buffer_unbounded("chr1", 112, 150);
    assert!(seq.is_err());
}

#[test]
fn missing_chr() {
    let mut faidx = example();
    let seq = faidx.query("chr3", 130, 150);
    assert!(seq.is_err());
}

#[test]
fn missing_chr_buffered() {
    let faidx = example();
    let seq = faidx.query_buffer("chr3", 130, 150);
    assert!(seq.is_err());
}

#[test]
fn malformed_interval() {
    let mut faidx = example();
    let seq = faidx.query("chr1", 130, 120);
    assert!(seq.is_err());
}

#[test]
fn malformed_interval_buffered() {
    let faidx = example();
    let seq = faidx.query_buffer("chr1", 130, 120);
    assert!(seq.is_err());
}

#[test]
fn empty_interval() {
    let mut faidx = example();
    let seq = faidx.query("chr1", 130, 130);
    assert!(seq.is_err());
}

#[test]
fn empty_interval_buffered() {
    let faidx = example();
    let seq = faidx.query_buffer("chr1", 130, 130);
    assert!(seq.is_err());
}

#[test]
fn first_bases_unbounded_modes() {
    let mut faidx = example();
    assert_eq!(faidx.query_unbounded("chr1", 0, 10).unwrap(), b"ACCTACGATC");
    assert_eq!(faidx.query_buffer_unbounded("chr1", 0, 10).unwrap(), b"ACCTACGATC");
}

#[test]
fn borrowed_span_strips_to_copy() {
    let mut faidx = example();
    let span: Vec<u8> = faidx.query_buffer("chr1", 20, 30).unwrap().to_vec();
    assert_eq!(span.len(), 11);
    assert_eq!(span.iter().filter(|&&b| b == b'\n').count(), 1);
    assert_eq!(span[8], b'\n');
    let stripped: Vec<u8> = span.iter().copied().filter(|&b| b != b'\n').collect();
    assert_eq!(faidx.query("chr1", 20, 30).unwrap(), &stripped[..]);
}

#[test]
fn bounded_copy_has_exact_length() {
    let mut faidx = example();
    for (start, end) in [(0, 112), (27, 29), (50, 80), (0, 40), (111, 112)] {
        let seq = faidx.query("chr1", start, end).unwrap();
        assert_eq!(seq.len(), end - start);
        assert!(!seq.contains(&b'\n'));
    }
    let seq = faidx.query("chr2", 0, 176).unwrap();
    assert_eq!(seq.len(), 176);
    assert_eq!(&seq[168..], b"AAACCACA");
}

#[test]
fn whole_record_span_counts_line_ends() {
    let faidx = example();
    let span = faidx.query_buffer("chr1", 0, 112).unwrap();
    assert_eq!(span.len(), 116);
    assert_eq!(span.iter().filter(|&&b| b == b'\n').count(), 4);
    let span = faidx.query_buffer("chr1", 50, 80).unwrap();
    assert_eq!(span.len(), 31);
}

#[test]
fn truncating_matches_bounded_at_length() {
    let mut faidx = example();
    let bounded: Vec<u8> = faidx.query("chr1", 100, 112).unwrap().to_vec();
    let truncated: Vec<u8> = faidx.query_unbounded("chr1", 100, 150).unwrap().to_vec();
    assert_eq!(bounded, truncated);
    assert_eq!(truncated, b"CGGCGCGCGCGG");
    assert_eq!(
        faidx.query_buffer("chr2", 170, 176).unwrap(),
        faidx.query_buffer_unbounded("chr2", 170, 500).unwrap()
    );
}

#[test]
fn errors_name_their_cause() {
    let mut faidx = example();
    assert_eq!(faidx.query("chr3", 0, 10), Err(QueryError::RecordNotFound));
    assert_eq!(faidx.query_buffer("chr3", 10, 0), Err(QueryError::RecordNotFound));
    assert_eq!(faidx.query_unbounded("chr1", 5, 5), Err(QueryError::EmptyInterval));
    assert_eq!(faidx.query_buffer_unbounded("chr1", 0, 0), Err(QueryError::EmptyInterval));
    assert_eq!(faidx.query("chr1", 130, 120), Err(QueryError::EmptyInterval));
    assert_eq!(faidx.query("chr1", 112, 113), Err(QueryError::StartOutOfRange));
    assert_eq!(faidx.query_buffer_unbounded("chr1", 112, 150), Err(QueryError::StartOutOfRange));
    assert_eq!(faidx.query_unbounded("chr1", 112, 113), Err(QueryError::StartOutOfRange));
    assert_eq!(faidx.query_buffer("chr1", 112, 113), Err(QueryError::StartOutOfRange));
    assert_eq!(faidx.query_unbounded("chr3", 0, 5), Err(QueryError::RecordNotFound));
    assert_eq!(faidx.query_buffer_unbounded("chr3", 130, 120), Err(QueryError::RecordNotFound));
    assert_eq!(faidx.query("chr1", 100, 150), Err(QueryError::EndOutOfRange));
    assert_eq!(faidx.query_buffer("chr1", 100, 113), Err(QueryError::EndOutOfRange));
}

#[test]
fn zero_line_bases_is_malformed() {
    let mut index = FastaIndex::new();
    index.insert(entry(10, 0, 0, 1));
    let mut faidx = IndexedFasta::new(index, map_of(b"ACGTACGTAC\n"));
    assert_eq!(faidx.query("seq", 0, 5), Err(QueryError::MalformedEntry));
    assert_eq!(faidx.query_buffer("seq", 0, 5), Err(QueryError::MalformedEntry));
}

#[test]
fn span_past_file_is_refused() {
    let mut index = FastaIndex::new();
    index.insert(entry(100, 0, 10, 11));
    let mut faidx = IndexedFasta::new(index, map_of(b"ACGTACGTAC\nACGT"));
    assert_eq!(faidx.query("seq", 10, 20), Err(QueryError::SpanOutsideFile));
    assert_eq!(faidx.query_buffer("seq", 0, 14), Ok(&b"ACGTACGTAC\nACGT"[..]));
    assert_eq!(faidx.query_buffer("seq", 0, 15), Err(QueryError::SpanOutsideFile));
    let mut index = FastaIndex::new();
    index.insert(entry(100, usize::MAX - 2, 10, 11));
    let faidx = IndexedFasta::new(index, map_of(b"ACGT"));
    assert_eq!(faidx.query_buffer("seq", 0, 10), Err(QueryError::SpanOutsideFile));
}

#[test]
fn copy_buffer_is_reused() {
    let mut faidx = example();
    let first: Vec<u8> = faidx.query("chr1", 0, 40).unwrap().to_vec();
    assert_eq!(first.len(), 40);
    let second = faidx.query("chr2", 0, 4).unwrap();
    assert_eq!(second, b"TTTT");
}

#[test]
fn query_position_formula() {
    let chr1 = entry(112, 6, 28, 29);
    let q = QueryPosition::new(20, 30, &chr1);
    assert_eq!((q.pos, q.buffer_size), (26, 11));
    let q = QueryPosition::new(0, 10, &chr1);
    assert_eq!((q.pos, q.buffer_size), (6, 10));
    let q = QueryPosition::new(100, 112, &chr1);
    assert_eq!((q.pos, q.buffer_size), (109, 13));
    let q = QueryPosition::new(56, 57, &chr1);
    assert_eq!((q.pos, q.buffer_size), (64, 1));
}

#[test]
fn query_position_keeps_one_byte_per_line_end() {
    let wide = entry(100, 0, 10, 12);
    let q = QueryPosition::new(15, 25, &wide);
    assert_eq!((q.pos, q.buffer_size), (17, 11));
}

#[test]
fn checked_query_position() {
    let chr2 = entry(176, 128, 28, 29);
    let q = QueryPosition::checked_new(170, 176, &chr2).unwrap();
    assert_eq!((q.pos, q.buffer_size), (304, 6));
    assert!(QueryPosition::checked_new(0, 10, &entry(10, usize::MAX - 5, 28, 29)).is_none());
    assert!(QueryPosition::checked_new(usize::MAX - 1, usize::MAX, &entry(10, 0, 1, 2)).is_none());
}
