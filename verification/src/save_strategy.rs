//! Output records and the formats they can be saved in.

use vstd::prelude::*;
use vstd::string::*;
use std::path::PathBuf;
use crate::text::{degrees_text, metres_text, write_degrees, write_metres};

verus! {

/// The formats in which records can be saved.
#[derive(Clone, Copy, Debug, PartialEq, Eq)]
pub enum SavingType {
    Csv,
}

/// Lower-case form of a text, as `str::to_lowercase` gives it.
pub uninterp spec fn lowercased(text: Seq<char>) -> Seq<char>;

/// `str::to_lowercase`: the text with each character replaced by its lower-case
/// equivalent.
#[verifier::external_body]
fn to_lowercase(text: &str) -> (lower: String)
    ensures
        lower@ == lowercased(text@),
{
    text.to_lowercase()
}

/// The message for a text that names no saving type.
pub open spec fn unknown_type_text(text: Seq<char>) -> Seq<char> {
    "Unknown saving type: "@ + text
}

impl SavingType {
    /// The saving type that a name, given with its lower-case form, stands
    /// for: `Csv` where the lower-case form is `csv`, else the message that
    /// the name is unknown.
    pub fn from_lowered(lowered: &str, name: &str) -> (r: Result<SavingType, String>)
        ensures
            match r {
                Ok(t) => t == SavingType::Csv && lowered@ == "csv"@,
                Err(text) => lowered@ != "csv"@ && text@ == unknown_type_text(name@),
            },
    {
        if String::from_str(lowered) == String::from_str("csv") {
            Ok(SavingType::Csv)
        } else {
            let mut text = String::from_str("Unknown saving type: ");
            text.append(name);
            Err(text)
        }
    }

    /// Reads a saving type from its name, whatever the case of its letters.
    pub fn from_str(s: &str) -> (r: Result<SavingType, String>)
        ensures
            match r {
                Ok(t) => t == SavingType::Csv && lowercased(s@) == "csv"@,
                Err(text) => lowercased(s@) != "csv"@ && text@ == unknown_type_text(s@),
            },
    {
        let lower = to_lowercase(s);
        SavingType::from_lowered(lower.as_str(), s)
    }
}

/// One row of output: a point of a processed batch with what it stands for.
#[derive(Clone, Debug, PartialEq, Eq)]
pub struct Record {
    pub batch_id: String,
    pub angle: i64,
    pub action: String,
    pub longitude: i64,
    pub latitude: i64,
    pub elevation: i64,
    pub is_original: bool,
}

/// Saves records as comma-separated values.
#[derive(Clone, Copy, Debug, PartialEq, Eq)]
pub struct CsvSaveStrategy;

/// The column titles of a saved table, in order.
pub open spec fn header_titles() -> Seq<Seq<char>> {
    seq![
        "BatchID"@,
        "Angle"@,
        "Action"@,
        "Processed_Longitude"@,
        "Processed_Latitude"@,
        "Processed_Elevation"@,
        "Is_Original"@,
    ]
}

/// The text of a truth value.
pub open spec fn flag_text(flag: bool) -> Seq<char> {
    if flag {
        "true"@
    } else {
        "false"@
    }
}

/// The fields of a record's row, in the order of the titles: the angle in
/// degrees, the three coordinates in metres.
pub open spec fn row_fields(record: Record) -> Seq<Seq<char>> {
    seq![
        record.batch_id@,
        degrees_text(record.angle as int),
        record.action@,
        metres_text(record.longitude as int),
        metres_text(record.latitude as int),
        metres_text(record.elevation as int),
        flag_text(record.is_original),
    ]
}

/// The texts of a table's cells, row by row.
pub open spec fn table_views(table: Seq<Vec<String>>) -> Seq<Seq<Seq<char>>> {
    Seq::new(table.len(), |r: int| Seq::new(table[r]@.len(), |c: int| table[r]@[c]@))
}

/// The table that saving `records` writes: the titles, then one row per
/// record, in order.
pub open spec fn table_of(records: Seq<Record>) -> Seq<Seq<Seq<char>>> {
    Seq::new(
        records.len() + 1,
        |r: int|
            if r == 0 {
                header_titles()
            } else {
                row_fields(records[r - 1])
            },
    )
}

/// The table that saving `records` in the format `saving_type` writes.
pub open spec fn layout_of(saving_type: SavingType, records: Seq<Record>) -> Seq<Seq<Seq<char>>> {
    match saving_type {
        SavingType::Csv => table_of(records),
    }
}

/// A way to lay records out for saving.
pub trait SaveStrategy {
    /// The table that this strategy writes for `records`.
    spec fn layout(&self, records: Seq<Record>) -> Seq<Seq<Seq<char>>>;

    /// The table to write for `records`.
    fn table(&self, records: &Vec<Record>) -> (table: Vec<Vec<String>>)
        requires
            records.len() < usize::MAX,
        ensures
            table_views(table@) == self.layout(records@),
    ;
}

impl CsvSaveStrategy {
    /// The row of titles.
    pub fn header(&self) -> (titles: Vec<String>)
        ensures
            table_views(seq![titles])[0] == header_titles(),
    {
        let mut titles: Vec<String> = Vec::new();
        titles.push(String::from_str("BatchID"));
        titles.push(String::from_str("Angle"));
        titles.push(String::from_str("Action"));
        titles.push(String::from_str("Processed_Longitude"));
        titles.push(String::from_str("Processed_Latitude"));
        titles.push(String::from_str("Processed_Elevation"));
        titles.push(String::from_str("Is_Original"));
        assert(table_views(seq![titles])[0] =~= header_titles());
        titles
    }

    /// The row of one record.
    pub fn row(&self, record: &Record) -> (fields: Vec<String>)
        ensures
            table_views(seq![fields])[0] == row_fields(*record),
    {
        let mut fields: Vec<String> = Vec::new();
        fields.push(record.batch_id.clone());
        fields.push(write_degrees(record.angle));
        fields.push(record.action.clone());
        fields.push(write_metres(record.longitude));
        fields.push(write_metres(record.latitude));
        fields.push(write_metres(record.elevation));
        if record.is_original {
            fields.push(String::from_str("true"));
        } else {
            fields.push(String::from_str("false"));
        }
        assert(table_views(seq![fields])[0] =~= row_fields(*record));
        fields
    }
}

impl SaveStrategy for CsvSaveStrategy {
    open spec fn layout(&self, records: Seq<Record>) -> Seq<Seq<Seq<char>>> {
        table_of(records)
    }

    fn table(&self, records: &Vec<Record>) -> (table: Vec<Vec<String>>) {
        let mut table: Vec<Vec<String>> = Vec::new();
        table.push(self.header());
        let mut i: usize = 0;
        while i < records.len()
            invariant
                i <= records.len(),
                records.len() < usize::MAX,
                table.len() == i + 1,
                forall|r: int|
                    0 <= r < table.len() ==> #[trigger] table_views(table@)[r] == table_of(
                        records@,
                    )[r],
            decreases records.len() - i,
        {
            let fields = self.row(&records[i]);
            let ghost before = table@;
            table.push(fields);
            proof {
                assert forall|r: int| 0 <= r < table.len() implies #[trigger] table_views(
                    table@,
                )[r] == table_of(records@)[r] by {
                    if r < before.len() {
                        assert(table_views(before)[r] == table_of(records@)[r]);
                        assert(table@[r] == before[r]);
                        assert(table_views(table@)[r] =~= table_views(before)[r]);
                    } else {
                        assert(table_views(table@)[r] =~= table_views(seq![fields])[0]);
                    }
                }
            }
            i = i + 1;
        }
        assert(table_views(table@) =~= table_of(records@));
        table
    }
}

/// The strategy for the format `saving_type`: the one whose table, for any
/// records, is the table of that format.
pub fn create_save_strategy(saving_type: SavingType) -> (strategy: Box<dyn SaveStrategy>)
    ensures
        forall|records: Seq<Record>|
            (#[trigger] strategy.layout(records)) == layout_of(saving_type, records),
{
    match saving_type {
        SavingType::Csv => {
            return Box::new(CsvSaveStrategy);
        },
    }
}

/// What a run saves with: a strategy and the path of the file to write.
pub struct DataSaver {
    strategy: Box<dyn SaveStrategy>,
    output_path: PathBuf,
}

impl DataSaver {
    /// The path of the file to write.
    pub closed spec fn path(&self) -> PathBuf {
        self.output_path
    }

    /// The table that the saver's strategy writes for `records`.
    pub closed spec fn layout(&self, records: Seq<Record>) -> Seq<Seq<Seq<char>>> {
        self.strategy.layout(records)
    }

    /// A saver that writes to `output_path` with the strategy for the format
    /// `saving_type`.
    pub fn new(saving_type: SavingType, output_path: PathBuf) -> (saver: DataSaver)
        ensures
            saver.path() == output_path,
            forall|records: Seq<Record>|
                (#[trigger] saver.layout(records)) == layout_of(saving_type, records),
    {
        match saving_type {
            SavingType::Csv => DataSaver { strategy: Box::new(CsvSaveStrategy), output_path },
        }
    }

    /// The path of the file to write.
    pub fn output_path(&self) -> (path: &PathBuf)
        ensures
            *path == self.path(),
    {
        &self.output_path
    }

    /// The table to write for `records`: the one that the saver's strategy
    /// lays out.
    pub fn table(&self, records: &Vec<Record>) -> (table: Vec<Vec<String>>)
        requires
            records.len() < usize::MAX,
        ensures
            table_views(table@) == self.layout(records@),
    {
        self.strategy.table(records)
    }
}

} // verus!
