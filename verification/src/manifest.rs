//! The manifest of a view directory: a table of its image files and their formats.

use crate::image_type::ImageType;
use vstd::prelude::*;
use vstd::string::*;
use vstd::utf8::*;

verus! {

/// The name of the first column of a manifest.
pub open spec fn image_type_column() -> Seq<char> {
    "image-type"@
}

/// The name of the second column of a manifest.
pub open spec fn location_column() -> Seq<char> {
    "location"@
}

/// A `csv::Writer` that appends to a byte vector.
#[verifier::external_body]
pub struct CsvWriter {
    writer: csv::Writer<Vec<u8>>,
}

/// The bytes that have been written through a CSV writer, those still in its own buffer
/// included.
pub uninterp spec fn csv_written(writer: CsvWriter) -> Seq<u8>;

/// The bytes that `csv::Writer::write_record` writes for a record of the two fields `first`
/// and `second`.
pub uninterp spec fn csv_record(first: Seq<char>, second: Seq<char>) -> Seq<u8>;

/// Whether a field is written as it is: it holds no comma, no double quote, no carriage
/// return and no line feed.
pub open spec fn is_plain(field: Seq<char>) -> bool {
    forall|k: int|
        0 <= k < field.len() ==> {
            let c = #[trigger] field[k];
            c != ',' && c != '"' && c != '\r' && c != '\n'
        }
}

/// The record of two fields that are written as they are: the first field, a comma, the
/// second field and a line feed, in UTF-8.
pub open spec fn plain_record(first: Seq<char>, second: Seq<char>) -> Seq<u8> {
    encode_utf8(first) + seq![0x2cu8] + encode_utf8(second) + seq![0x0au8]
}

/// `csv::Writer::from_writer` makes a writer with the default configuration that appends to
/// `buffer`.
#[verifier::external_body]
fn csv_writer(buffer: Vec<u8>) -> (writer: CsvWriter)
    ensures
        csv_written(writer) == buffer@,
{
    CsvWriter { writer: csv::Writer::from_writer(buffer) }
}

/// `csv::Writer::write_record` appends one record of two fields. What it appends depends on
/// the two fields alone. Fields without comma, double quote, carriage return and line feed
/// are appended as they are, with a comma between them and a line feed after them.
#[verifier::external_body]
fn csv_write_record(writer: &mut CsvWriter, first: &str, second: &str)
    ensures
        csv_written(*final(writer)) == csv_written(*old(writer)) + csv_record(first@, second@),
        is_plain(first@) && is_plain(second@) ==> csv_written(*final(writer)) == csv_written(
            *old(writer),
        ) + plain_record(first@, second@),
{
    writer.writer.write_record(&[first, second]).unwrap();
}

/// `csv::Writer::into_inner` flushes the writer and hands out everything that was written.
#[verifier::external_body]
fn csv_into_inner(writer: CsvWriter) -> (bytes: Vec<u8>)
    ensures
        bytes@ == csv_written(writer),
{
    writer.writer.into_inner().unwrap()
}

/// The records of the image files of a directory, in the order in which they were added.
pub struct DirectoryManifest {
    pub records: Vec<(String, String)>,
}

impl View for DirectoryManifest {
    type V = Seq<(Seq<char>, Seq<char>)>;

    /// The records as pairs of format name and location.
    open spec fn view(&self) -> Self::V {
        Seq::new(self.records@.len(), |k: int| (self.records@[k].0@, self.records@[k].1@))
    }
}

/// The bytes of the first `count` records of a manifest, one after the other.
pub open spec fn record_bytes(records: Seq<(Seq<char>, Seq<char>)>, count: nat) -> Seq<u8>
    recommends
        count <= records.len(),
    decreases count,
{
    if count == 0 {
        Seq::empty()
    } else {
        record_bytes(records, (count - 1) as nat) + csv_record(
            records[count - 1].0,
            records[count - 1].1,
        )
    }
}

/// The bytes of a manifest: the header, then the records in their order.
pub open spec fn manifest_bytes(records: Seq<(Seq<char>, Seq<char>)>) -> Seq<u8> {
    csv_record(image_type_column(), location_column()) + record_bytes(records, records.len())
}

/// Whether every field of every record is written as it is.
pub open spec fn all_plain(records: Seq<(Seq<char>, Seq<char>)>) -> bool {
    forall|k: int|
        0 <= k < records.len() ==> is_plain((#[trigger] records[k]).0) && is_plain(records[k].1)
}

/// The bytes of the first `count` records of a manifest whose fields are written as they
/// are.
pub open spec fn plain_record_bytes(records: Seq<(Seq<char>, Seq<char>)>, count: nat) -> Seq<u8>
    recommends
        count <= records.len(),
    decreases count,
{
    if count == 0 {
        Seq::empty()
    } else {
        plain_record_bytes(records, (count - 1) as nat) + plain_record(
            records[count - 1].0,
            records[count - 1].1,
        )
    }
}

/// The bytes of a manifest whose fields are written as they are: the line
/// `image-type,location`, then one line per record.
pub open spec fn plain_manifest_bytes(records: Seq<(Seq<char>, Seq<char>)>) -> Seq<u8> {
    plain_record(image_type_column(), location_column()) + plain_record_bytes(
        records,
        records.len(),
    )
}

/// The names of the two columns are written as they are.
pub proof fn lemma_columns_are_plain()
    ensures
        is_plain(image_type_column()),
        is_plain(location_column()),
{
    reveal_strlit("image-type");
    reveal_strlit("location");
}

impl DirectoryManifest {
    /// A manifest without records.
    pub fn new() -> (manifest: Self)
        ensures
            manifest@ == Seq::<(Seq<char>, Seq<char>)>::empty(),
    {
        let manifest = DirectoryManifest { records: Vec::new() };
        assert(manifest@ =~= Seq::<(Seq<char>, Seq<char>)>::empty());
        manifest
    }

    /// Adds the record of one image file at the end.
    pub fn add(&mut self, image_type: ImageType, location: &str)
        ensures
            final(self)@ == old(self)@.push((image_type.extension(), location@)),
    {
        self.records.push((image_type.to_string(), String::from_str(location)));
        assert(self@ =~= old(self)@.push((image_type.extension(), location@)));
    }

    /// The manifest as CSV: the header `image-type,location`, then one line per record.
    /// Where no field holds a comma, a double quote, a carriage return or a line feed, every
    /// line is the two fields with a comma between them.
    pub fn to_vec(&self) -> (bytes: Vec<u8>)
        ensures
            bytes@ == manifest_bytes(self@),
            all_plain(self@) ==> bytes@ == plain_manifest_bytes(self@),
    {
        let mut writer = csv_writer(Vec::new());
        proof {
            lemma_columns_are_plain();
        }
        csv_write_record(&mut writer, "image-type", "location");
        let ghost header = csv_record(image_type_column(), location_column());
        let ghost plain_header = plain_record(image_type_column(), location_column());
        assert(csv_written(writer) =~= header + record_bytes(self@, 0));
        assert(csv_written(writer) =~= plain_header + plain_record_bytes(self@, 0));
        let mut position: usize = 0;
        while position < self.records.len()
            invariant
                position <= self.records.len(),
                header == csv_record(image_type_column(), location_column()),
                plain_header == plain_record(image_type_column(), location_column()),
                csv_written(writer) == header + record_bytes(self@, position as nat),
                all_plain(self@) ==> csv_written(writer) == plain_header + plain_record_bytes(
                    self@,
                    position as nat,
                ),
            decreases self.records.len() - position,
        {
            let record = &self.records[position];
            assert(self@[position as int] == (record.0@, record.1@));
            csv_write_record(&mut writer, record.0.as_str(), record.1.as_str());
            position += 1;
            assert(csv_written(writer) =~= header + record_bytes(self@, position as nat));
            assert(all_plain(self@) ==> csv_written(writer) =~= plain_header + plain_record_bytes(
                self@,
                position as nat,
            ));
        }
        csv_into_inner(writer)
    }
}

} // verus!
