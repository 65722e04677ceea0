use vstd::prelude::*;

verus! {

/// One record of a FASTA index: the physical layout of one named sequence.
#[derive(Debug)]
pub struct IndexEntry {
    pub name: String,
    pub length: usize,
    pub offset: usize,
    pub line_bases: usize,
    pub line_width: usize,
}

/// The mathematical value of an [`IndexEntry`].
pub struct EntryView {
    pub name: Seq<char>,
    pub length: usize,
    pub offset: usize,
    pub line_bases: usize,
    pub line_width: usize,
}

impl View for IndexEntry {
    type V = EntryView;

    open spec fn view(&self) -> EntryView {
        EntryView {
            name: self.name@,
            length: self.length,
            offset: self.offset,
            line_bases: self.line_bases,
            line_width: self.line_width,
        }
    }
}

} // verus!
