//! What a complete stream holds: the prefix, the serialized records with the
//! separator between each two of them, and the suffix.

use vstd::prelude::*;

verus! {

/// The records, in order, with `sep` between each two neighbours.
pub open spec fn joined(records: Seq<Seq<u8>>, sep: Seq<u8>) -> Seq<u8>
    decreases records.len(),
{
    if records.len() == 0 {
        Seq::empty()
    } else if records.len() == 1 {
        records[0]
    } else {
        joined(records.drop_last(), sep) + sep + records.last()
    }
}

/// The whole document: `prefix`, the joined records, `suffix`.
pub open spec fn framed(prefix: Seq<u8>, sep: Seq<u8>, suffix: Seq<u8>, records: Seq<Seq<u8>>) -> Seq<u8> {
    prefix + joined(records, sep) + suffix
}

/// What the separator before a further record is: nothing before the first
/// record, `sep` before every later one.
pub open spec fn lead(records: Seq<Seq<u8>>, sep: Seq<u8>) -> Seq<u8> {
    if records.len() == 0 {
        Seq::empty()
    } else {
        sep
    }
}

/// Adding one record extends the joined text by the separator (if any record
/// came before) and the record itself.
pub proof fn lemma_joined_push(records: Seq<Seq<u8>>, sep: Seq<u8>, rec: Seq<u8>)
    ensures
        joined(records.push(rec), sep) == joined(records, sep) + lead(records, sep) + rec,
{
    assert(records.push(rec).drop_last() == records);
    if records.len() == 0 {
        assert(joined(records, sep) + lead(records, sep) + rec == rec);
    }
}

} // verus!
