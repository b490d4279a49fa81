//! The export of the records as comma-separated text.

use vstd::prelude::*;
use vstd::string::StringExecFns;
use crate::decimal::{append_decimal, decimal};
use crate::gps_data::{Record, StoredData};
use crate::store::records_of;

verus! {

/// The first line of every export.
pub open spec fn csv_header() -> Seq<char> {
    "id,timestamp,longitude,latitude,battery\n"@
}

/// The line of one record: its five fields in the order of the header,
/// joined by commas, as they are: nothing is quoted or escaped.
pub open spec fn csv_row(record: Record) -> Seq<char> {
    record.id + seq![','] + record.timestamp + seq![','] + decimal(record.longitude as nat)
        + seq![','] + decimal(record.latitude as nat) + seq![','] + decimal(
        record.battery as nat,
    ) + seq!['\n']
}

/// The lines of `records`, one after another.
pub open spec fn csv_rows(records: Seq<Record>) -> Seq<char>
    decreases records.len(),
{
    if records.len() == 0 {
        Seq::empty()
    } else {
        csv_rows(records.drop_last()) + csv_row(records.last())
    }
}

/// The whole export: the header, then one line for each record, in order.
pub open spec fn csv_spec(records: Seq<Record>) -> Seq<char> {
    csv_header() + csv_rows(records)
}

/// Appends the line of `record` to `out`.
pub fn append_csv_row(out: &mut String, record: &StoredData)
    ensures
        final(out)@ == old(out)@ + csv_row(record@),
{
    proof {
        reveal_strlit(",");
        reveal_strlit("\n");
        assert(","@ =~= seq![',']);
        assert("\n"@ =~= seq!['\n']);
    }
    out.append(record.id.as_str());
    out.append(",");
    out.append(record.timestamp.as_str());
    out.append(",");
    append_decimal(out, record.longitude as u64);
    out.append(",");
    append_decimal(out, record.latitude as u64);
    out.append(",");
    append_decimal(out, record.battery as u64);
    out.append("\n");
    assert(out@ =~= old(out)@ + csv_row(record@));
}

/// The records as comma-separated text, in the order given.
pub fn csv_export(records: &Vec<StoredData>) -> (text: String)
    ensures
        text@ == csv_spec(records_of(records@)),
{
    let mut text = String::from_str("id,timestamp,longitude,latitude,battery\n");
    let mut i: usize = 0;
    assert(records_of(records@).subrange(0, 0) =~= Seq::<Record>::empty());
    while i < records.len()
        invariant
            i <= records.len(),
            text@ == csv_spec(records_of(records@).subrange(0, i as int)),
        decreases records.len() - i,
    {
        let ghost done = records_of(records@).subrange(0, i as int);
        let ghost next = records_of(records@).subrange(0, i + 1);
        append_csv_row(&mut text, &records[i]);
        proof {
            assert(next.drop_last() =~= done);
            assert(next.last() == records[i as int]@);
            assert(text@ =~= csv_spec(next));
        }
        i = i + 1;
    }
    assert(records_of(records@).subrange(0, i as int) =~= records_of(records@));
    text
}

} // verus!
