//! The result sink: one line per record, buffered until the caller hands
//! the text to a stream.
use vstd::prelude::*;

use crate::{csv_line, Site};

verus! {

/// Lines joined with a newline after each one.
pub open spec fn joined_lines(lines: Seq<Seq<char>>) -> Seq<char>
    decreases lines.len(),
{
    if lines.len() == 0 {
        Seq::empty()
    } else {
        joined_lines(lines.drop_last()) + lines.last() + "\n"@
    }
}

/// The record lines of `sites`, in order.
pub open spec fn record_lines(sites: Seq<Site>) -> Seq<Seq<char>> {
    sites.map_values(|s: Site| csv_line(s))
}

/// The output text for `sites`, in order.
pub open spec fn records_text(sites: Seq<Site>) -> Seq<char> {
    joined_lines(record_lines(sites))
}

/// One more record adds its line at the end of the text.
pub proof fn lemma_records_text_push(sites: Seq<Site>, s: Site)
    ensures
        records_text(sites.push(s)) == records_text(sites) + csv_line(s) + "\n"@,
{
    assert(sites.push(s).drop_last() =~= sites);
    assert(record_lines(sites.push(s)).drop_last() =~= record_lines(sites));
}

/// A line-oriented writer into an in-memory buffer.
pub struct CsvWriter {
    buf: String,
}

impl CsvWriter {
    /// The text written so far.
    pub closed spec fn text(&self) -> Seq<char> {
        self.buf@
    }

    pub fn new() -> (r: CsvWriter)
        ensures
            r.text() == Seq::<char>::empty(),
    {
        CsvWriter { buf: String::new() }
    }

    /// Appends `record` and a newline.
    pub fn add_record(&mut self, record: &str)
        ensures
            final(self).text() == old(self).text() + record@ + "\n"@,
    {
        self.buf.append(record);
        self.buf.append("\n");
    }

    /// Appends the record line of each site, in order.
    pub fn add_sites(&mut self, sites: &Vec<Site>)
        ensures
            final(self).text() == old(self).text() + records_text(sites@),
    {
        let ghost start = self.text();
        let mut i: usize = 0;
        while i < sites.len()
            invariant
                i <= sites.len(),
                self.text() == start + records_text(sites@.subrange(0, i as int)),
            decreases sites.len() - i,
        {
            let line = sites[i].to_csv();
            self.add_record(line.as_str());
            proof {
                lemma_records_text_push(sites@.subrange(0, i as int), sites@[i as int]);
                assert(sites@.subrange(0, i as int).push(sites@[i as int]) =~= sites@.subrange(0, i as int + 1));
            }
            i = i + 1;
        }
        assert(sites@.subrange(0, sites.len() as int) =~= sites@);
    }

    /// Gives up the buffer.
    pub fn into_inner(self) -> (r: String)
        ensures
            r@ == self.text(),
    {
        self.buf
    }
}

impl Default for CsvWriter {
    fn default() -> (r: CsvWriter)
        ensures
            r.text() == Seq::<char>::empty(),
    {
        CsvWriter::new()
    }
}

} // verus!
