//! Header checks on tabular input, and the salted hash that anonymises labels.

use vstd::prelude::*;
use vstd::string::*;
use csv::StringRecord;
use sha2::{Digest, Sha256};

verus! {

/// `csv::StringRecord`, one row of text fields.
#[verifier::external_type_specification]
#[verifier::external_body]
pub struct ExStringRecord(StringRecord);

/// The fields that a record holds, in order.
pub uninterp spec fn record_fields(record: StringRecord) -> Seq<Seq<char>>;

/// `csv::StringRecord::len`: the number of fields in the record.
pub assume_specification[ StringRecord::len ](record: &StringRecord) -> (n: usize)
    ensures
        n == record_fields(*record).len(),
;

/// `csv::StringRecord::get`: the field at index `i`, or `None` where the
/// record has no such field.
pub assume_specification<'a>[ StringRecord::get ](record: &'a StringRecord, i: usize) -> (field: Option<&'a str>)
    ensures
        field is Some <==> i < record_fields(*record).len(),
        field matches Some(text) ==> text@ == record_fields(*record)[i as int],
;

/// The SHA-256 digest of the UTF-8 bytes of `text`, written as lower-case
/// hexadecimal digits.
pub uninterp spec fn sha256_hex(text: Seq<char>) -> Seq<char>;

/// A lower-case hexadecimal digit.
pub open spec fn is_lower_hex(c: char) -> bool {
    ('0' <= c <= '9') || ('a' <= c <= 'f')
}

/// `sha2::Sha256::digest`, formatted with `{:x}`: the digest of `text`'s bytes
/// as 64 lower-case hexadecimal digits, two for each of its 32 bytes.
#[verifier::external_body]
fn sha256_hex_of(text: &str) -> (digest: String)
    ensures
        digest@ == sha256_hex(text@),
        digest@.len() == 64,
        forall|i: int| 0 <= i < 64 ==> is_lower_hex(#[trigger] digest@[i]),
{
    format!("{:x}", Sha256::digest(text))
}

/// The text that is hashed for `action` under `salt`: the two joined by a dot.
pub open spec fn salted(action: Seq<char>, salt: Seq<char>) -> Seq<char> {
    action + seq!['.'] + salt
}

/// The token that stands for `action` under `salt`: the SHA-256 digest of
/// `action`, a dot and `salt`, as 64 lower-case hexadecimal digits.
pub fn hash_with_salt(action: &str, salt: &str) -> (token: String)
    ensures
        token@ == sha256_hex(salted(action@, salt@)),
        token@.len() == 64,
        forall|i: int| 0 <= i < 64 ==> is_lower_hex(#[trigger] token@[i]),
{
    let mut combined = String::from_str(action);
    combined.append(".");
    combined.append(salt);
    proof {
        reveal_strlit(".");
        assert(combined@ =~= salted(action@, salt@));
    }
    sha256_hex_of(combined.as_str())
}

/// Whether `name` is one of the header fields.
pub open spec fn has_column(headers: Seq<Seq<char>>, name: Seq<char>) -> bool {
    exists|i: int| 0 <= i < headers.len() && #[trigger] headers[i] == name
}

/// The index of the first header field equal to `name`.
pub open spec fn is_column_position(headers: Seq<Seq<char>>, name: Seq<char>, at: int) -> bool {
    &&& 0 <= at < headers.len()
    &&& headers[at] == name
    &&& forall|i: int| 0 <= i < at ==> #[trigger] headers[i] != name
}

/// The message for a column that the header row lacks.
pub open spec fn missing_column_text(name: Seq<char>) -> Seq<char> {
    "[\u{2717}] Column '"@ + name + "' not found in the csv"@
}

/// The index of the first header field equal to `name`, if there is one.
pub fn column_position(headers: &StringRecord, name: &str) -> (at: Option<usize>)
    ensures
        match at {
            Some(i) => is_column_position(record_fields(*headers), name@, i as int),
            None => !has_column(record_fields(*headers), name@),
        },
{
    let wanted = String::from_str(name);
    let n = headers.len();
    let mut i: usize = 0;
    while i < n
        invariant
            i <= n,
            n == record_fields(*headers).len(),
            wanted@ == name@,
            forall|j: int| 0 <= j < i ==> #[trigger] record_fields(*headers)[j] != name@,
        decreases n - i,
    {
        match headers.get(i) {
            Some(field) => {
                if String::from_str(field) == wanted {
                    return Some(i);
                }
            },
            None => {},
        }
        i = i + 1;
    }
    None
}

/// Looks each wanted column up in the header row. The result has one entry
/// per name, in order: the name itself where the header row has it, the
/// message that it is missing where not.
pub fn find_columns(headers: &StringRecord, column_names: &[String]) -> (results: Vec<
    Result<String, String>,
>)
    ensures
        results.len() == column_names.len(),
        forall|i: int|
            0 <= i < results.len() ==> match #[trigger] results[i] {
                Ok(name) => has_column(record_fields(*headers), column_names[i]@) && name@
                    == column_names[i]@,
                Err(text) => !has_column(record_fields(*headers), column_names[i]@) && text@
                    == missing_column_text(column_names[i]@),
            },
{
    let mut results: Vec<Result<String, String>> = Vec::new();
    let mut i: usize = 0;
    while i < column_names.len()
        invariant
            i <= column_names.len(),
            results.len() == i,
            forall|j: int|
                0 <= j < i ==> match #[trigger] results[j] {
                    Ok(name) => has_column(record_fields(*headers), column_names[j]@) && name@
                        == column_names[j]@,
                    Err(text) => !has_column(record_fields(*headers), column_names[j]@) && text@
                        == missing_column_text(column_names[j]@),
                },
        decreases column_names.len() - i,
    {
        let name = &column_names[i];
        match column_position(headers, name.as_str()) {
            Some(_) => {
                results.push(Ok(name.clone()));
            },
            None => {
                let mut text = String::from_str("[\u{2717}] Column '");
                text.append(name.as_str());
                text.append("' not found in the csv");
                results.push(Err(text));
            },
        }
        i = i + 1;
    }
    results
}

/// The line that reports a column as found.
pub open spec fn found_column_text(name: Seq<char>) -> Seq<char> {
    "[+] Process: Column '"@ + name + "' found in the csv"@
}

/// The line that reports one outcome of a header check: that the column was
/// found, or the message that it is missing.
pub open spec fn report_line(result: Result<String, String>) -> Seq<char> {
    match result {
        Ok(name) => found_column_text(name@),
        Err(text) => text@,
    }
}

/// The lines that report the outcome of a header check, one per column, in
/// order.
pub fn column_report(results: &[Result<String, String>]) -> (lines: Vec<String>)
    ensures
        lines.len() == results.len(),
        forall|i: int| 0 <= i < lines.len() ==> (#[trigger] lines[i])@ == report_line(results[i]),
{
    let mut lines: Vec<String> = Vec::new();
    let mut i: usize = 0;
    while i < results.len()
        invariant
            i <= results.len(),
            lines.len() == i,
            forall|j: int| 0 <= j < i ==> (#[trigger] lines[j])@ == report_line(results[j]),
        decreases results.len() - i,
    {
        match &results[i] {
            Ok(name) => {
                let mut line = String::from_str("[+] Process: Column '");
                line.append(name.as_str());
                line.append("' found in the csv");
                lines.push(line);
            },
            Err(text) => {
                lines.push(text.clone());
            },
        }
        i = i + 1;
    }
    lines
}

} // verus!
