use vstd::prelude::*;

use crate::index_entry::{EntryView, IndexEntry};

verus! {

/// The hash table that holds the entries of a [`FastaIndex`], keyed by name.
///
/// The `hashbrown` map sits behind this opaque struct because Verus cannot
/// declare its type, whose allocator parameter is bound by a trait of
/// `allocator_api2`; the functions below state what each call does to
/// [`table_entries`].
#[verifier::external_body]
#[derive(Debug)]
pub struct EntryTable {
    map: hashbrown::HashMap<String, IndexEntry>,
}

/// What an [`EntryTable`] holds: each name with its entry.
pub uninterp spec fn table_entries(t: EntryTable) -> Map<Seq<char>, IndexEntry>;

/// Relies on `hashbrown::HashMap::new`: the new table is empty.
#[verifier::external_body]
fn table_new() -> (r: EntryTable)
    ensures
        table_entries(r).dom() == Set::<Seq<char>>::empty(),
{
    EntryTable { map: hashbrown::HashMap::new() }
}

/// Relies on `hashbrown::HashMap::insert`: `v` is now the value under `k`,
/// replacing any earlier one, and no other key changes.
#[verifier::external_body]
fn table_insert(t: &mut EntryTable, k: String, v: IndexEntry)
    ensures
        table_entries(*final(t)) == table_entries(*old(t)).insert(k@, v),
{
    t.map.insert(k, v);
}

/// Relies on `hashbrown::HashMap::get`: the value under `k`, if any.
#[verifier::external_body]
fn table_get<'a>(t: &'a EntryTable, k: &str) -> (r: Option<&'a IndexEntry>)
    ensures
        match r {
            Some(v) => table_entries(*t).contains_key(k@) && *v == table_entries(*t)[k@],
            None => !table_entries(*t).contains_key(k@),
        },
{
    t.map.get(k)
}

/// Relies on `hashbrown::HashMap::len`: the number of keys in the table.
#[verifier::external_body]
fn table_len(t: &EntryTable) -> (r: usize)
    ensures
        r == table_entries(*t).len(),
{
    t.map.len()
}

#[verifier::external_type_specification]
#[verifier::external_body]
pub struct ExCsvError(csv::Error);

/// The number of fields of a record of a `.fai` file.
pub const FIELDS_PER_RECORD: usize = 5;

/// Why an index could not be decoded.
#[derive(Debug)]
pub enum IndexError {
    /// The records could not be read: csv's error says where.
    Csv(csv::Error),
    /// The record on `line` has `found` fields instead of five.
    FieldCount { line: u64, found: usize },
    /// A numeric field of the record on `line` is not a number that fits.
    InvalidNumber { line: u64 },
}

/// Records with their fields as sequences of characters.
pub open spec fn records_view(v: Seq<(u64, Vec<String>)>) -> Seq<(u64, Seq<Seq<char>>)> {
    v.map_values(|r: (u64, Vec<String>)| (r.0, fields_view(r.1@)))
}

/// Fields as sequences of characters.
pub open spec fn fields_view(v: Seq<String>) -> Seq<Seq<char>> {
    v.map_values(|f: String| f@)
}

/// The records of a tab-separated file with no header row, each with the
/// line it starts on; `None` where the bytes cannot be read as such.
pub uninterp spec fn tsv_records(data: Seq<u8>) -> Option<Seq<(u64, Seq<Seq<char>>)>>;

/// Relies on csv's `Reader::records`, set to tab delimiters, no header row and
/// records of any length: the records of `data` in order, each with the line
/// that `StringRecord::position` gives (always set on records that a reader
/// yields), or the first error met.
#[verifier::external_body]
fn read_tsv(data: &[u8]) -> (r: Result<Vec<(u64, Vec<String>)>, csv::Error>)
    ensures
        match r {
            Ok(v) => tsv_records(data@) == Some(records_view(v@)),
            Err(_) => tsv_records(data@) is None,
        },
{
    let mut reader = csv::ReaderBuilder::new().delimiter(b'\t').has_headers(false).flexible(
        true,
    ).from_reader(data);
    let mut records = Vec::new();
    for record in reader.records() {
        let record = record?;
        let line = record.position().map_or(0, csv::Position::line);
        records.push((line, record.iter().map(String::from).collect()));
    }
    Ok(records)
}

/// The length, offset, bases per line and bytes per line that the last four
/// of five fields give, or `None` where one of them is not a number.
pub uninterp spec fn entry_numbers(fields: Seq<Seq<char>>) -> Option<(usize, usize, usize, usize)>;

/// Relies on csv's `StringRecord::deserialize` into a
/// `(String, usize, usize, usize, usize)`: the numbers of the record's
/// numeric fields, or `None` where one does not parse.
#[verifier::external_body]
fn parse_numbers(fields: &Vec<String>) -> (r: Option<(usize, usize, usize, usize)>)
    ensures
        r == entry_numbers(fields_view(fields@)),
{
    let record = csv::StringRecord::from(fields.clone());
    record.deserialize::<(String, usize, usize, usize, usize)>(None).ok().map(
        |(_, length, offset, line_bases, line_width)| (length, offset, line_bases, line_width),
    )
}

/// The entry that one record gives, or why it gives none.
pub open spec fn record_entry(rec: (u64, Seq<Seq<char>>)) -> Result<EntryView, IndexError> {
    if rec.1.len() != FIELDS_PER_RECORD {
        Err(IndexError::FieldCount { line: rec.0, found: rec.1.len() as usize })
    } else {
        match entry_numbers(rec.1) {
            None => Err(IndexError::InvalidNumber { line: rec.0 }),
            Some(n) => Ok(
                EntryView {
                    name: rec.1[0],
                    length: n.0,
                    offset: n.1,
                    line_bases: n.2,
                    line_width: n.3,
                },
            ),
        }
    }
}

/// The index that the records give when inserted in order, or the error of
/// the first bad record.
pub open spec fn decode_records(recs: Seq<(u64, Seq<Seq<char>>)>) -> Result<
    Map<Seq<char>, EntryView>,
    IndexError,
>
    decreases recs.len(),
{
    if recs.len() == 0 {
        Ok(Map::empty())
    } else {
        match decode_records(recs.drop_last()) {
            Err(e) => Err(e),
            Ok(m) => match record_entry(recs.last()) {
                Err(e) => Err(e),
                Ok(v) => Ok(m.insert(v.name, v)),
            },
        }
    }
}

/// Once a prefix of the records fails to decode, so do all of them, with
/// the same error.
proof fn lemma_decode_error_kept(recs: Seq<(u64, Seq<Seq<char>>)>, k: int)
    requires
        0 <= k <= recs.len(),
        decode_records(recs.take(k)) is Err,
    ensures
        decode_records(recs) == decode_records(recs.take(k)),
    decreases recs.len(),
{
    if recs.len() > k {
        assert(recs.drop_last().take(k) =~= recs.take(k));
        lemma_decode_error_kept(recs.drop_last(), k);
    } else {
        assert(recs.take(k) =~= recs);
    }
}

/// The index that a decoding result holds.
pub open spec fn index_result(r: Result<FastaIndex, IndexError>) -> Result<
    Map<Seq<char>, EntryView>,
    IndexError,
> {
    match r {
        Ok(index) => Ok(index@),
        Err(e) => Err(e),
    }
}

impl EntryTable {
    /// The number of entries in the table.
    pub fn len(&self) -> (r: usize)
        ensures
            r == table_entries(*self).len(),
    {
        table_len(self)
    }
}

/// A FASTA index: the entry of each named sequence, at most one per name.
#[derive(Debug)]
pub struct FastaIndex {
    entries: EntryTable,
}

impl View for FastaIndex {
    type V = Map<Seq<char>, EntryView>;

    closed spec fn view(&self) -> Map<Seq<char>, EntryView> {
        table_entries(self.entries).map_values(|e: IndexEntry| e@)
    }
}

impl FastaIndex {
    /// An index with no entries.
    pub fn new() -> (r: Self)
        ensures
            r@.dom() == Set::<Seq<char>>::empty(),
    {
        let r = FastaIndex { entries: table_new() };
        assert(r@.dom() =~= Set::<Seq<char>>::empty());
        r
    }

    /// Adds `entry` under its name; an entry of the same name is replaced.
    pub fn insert(&mut self, entry: IndexEntry)
        ensures
            final(self)@ == old(self)@.insert(entry.name@, entry@),
    {
        let ghost v = entry@;
        let name = entry.name.clone();
        table_insert(&mut self.entries, name, entry);
        assert(final(self)@ =~= old(self)@.insert(v.name, v));
    }

    /// The entry named `name`, if there is one.
    pub fn get(&self, name: &str) -> (r: Option<&IndexEntry>)
        ensures
            match r {
                Some(e) => self@.contains_key(name@) && e@ == self@[name@],
                None => !self@.contains_key(name@),
            },
    {
        table_get(&self.entries, name)
    }

    /// Decodes an index from the bytes of a `.fai` file: one record per line,
    /// five tab-separated fields `name, length, offset, line_bases,
    /// line_width`, no header. Any bad record fails the whole decode.
    pub fn from_bytes(data: &[u8]) -> (r: Result<FastaIndex, IndexError>)
        ensures
            match tsv_records(data@) {
                None => r matches Err(IndexError::Csv(_)),
                Some(recs) => index_result(r) == decode_records(recs),
            },
    {
        match read_tsv(data) {
            Ok(records) => Self::from_records(&records),
            Err(e) => Err(IndexError::Csv(e)),
        }
    }

    /// Builds an index from records given as their line and their fields.
    /// Entries are inserted in order, so a later record replaces an earlier
    /// one of the same name; the first bad record fails the whole build.
    pub fn from_records(records: &Vec<(u64, Vec<String>)>) -> (r: Result<FastaIndex, IndexError>)
        ensures
            index_result(r) == decode_records(records_view(records@)),
    {
        let ghost recs = records_view(records@);
        let mut index = FastaIndex::new();
        assert(recs.take(0) =~= Seq::<(u64, Seq<Seq<char>>)>::empty());
        assert(index@ =~= Map::<Seq<char>, EntryView>::empty());
        let mut i: usize = 0;
        while i < records.len()
            invariant
                i <= records@.len(),
                recs == records_view(records@),
                decode_records(recs.take(i as int)) is Ok,
                decode_records(recs.take(i as int))->Ok_0 == index@,
            decreases records@.len() - i,
        {
            let record = &records[i];
            let line = record.0;
            proof {
                assert(recs.take(i + 1).drop_last() =~= recs.take(i as int));
                assert(recs.take(i + 1).last() == recs[i as int]);
            }
            if record.1.len() != FIELDS_PER_RECORD {
                proof {
                    lemma_decode_error_kept(recs, i + 1);
                }
                return Err(IndexError::FieldCount { line, found: record.1.len() });
            }
            match parse_numbers(&record.1) {
                Some(numbers) => {
                    let name = record.1[0].clone();
                    index.insert(
                        IndexEntry {
                            name,
                            length: numbers.0,
                            offset: numbers.1,
                            line_bases: numbers.2,
                            line_width: numbers.3,
                        },
                    );
                },
                None => {
                    proof {
                        lemma_decode_error_kept(recs, i + 1);
                    }
                    return Err(IndexError::InvalidNumber { line });
                },
            }
            i = i + 1;
        }
        assert(recs.take(records@.len() as int) =~= recs);
        Ok(index)
    }

    /// The table of entries, keyed by name.
    pub fn get_entries(&self) -> (r: &EntryTable)
        ensures
            table_entries(*r).map_values(|e: IndexEntry| e@) == self@,
    {
        &self.entries
    }
}


} // verus!
