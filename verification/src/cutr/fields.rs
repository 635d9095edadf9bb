//! Picking the wanted fields out of one record of delimited text.

use crate::cutr::extract::{clipped, picked, picked_all};
use crate::text::{join, joined_with, lossy_string, texts, utf8_lossy};
use csv::StringRecord;
use std::ops::Range;
use vstd::prelude::*;
use vstd::string::*;

verus! {

/// A record of delimited text, as the `csv` crate holds it.
#[verifier::external_type_specification]
#[verifier::external_body]
pub struct ExStringRecord(StringRecord);

/// The fields that a record holds, in order.
pub uninterp spec fn record_fields(record: StringRecord) -> Seq<Seq<char>>;

/// `StringRecord::len` gives the number of fields of the record.
pub assume_specification[ StringRecord::len ](record: &StringRecord) -> (len: usize)
    ensures
        len == record_fields(*record).len(),
;

/// `StringRecord::get` gives the field at offset `i`, and `None` where the
/// record has no such field.
pub assume_specification[ StringRecord::get ](record: &StringRecord, i: usize) -> (field: Option<
    &str,
>)
    ensures
        match field {
            Some(text) => i < record_fields(*record).len() && text@ == record_fields(
                *record,
            )[i as int],
            None => i >= record_fields(*record).len(),
        },
;

/// Picks the fields of a record whose offset lies in one of the ranges,
/// range after range.
pub fn extract_fields(record: &StringRecord, field_pos: &[Range<usize>]) -> (picked: Vec<String>)
    ensures
        texts(picked@) == picked_all(record_fields(*record), field_pos@),
{
    let len = record.len();
    let ghost fields = record_fields(*record);
    let mut result: Vec<String> = Vec::new();
    let mut i: usize = 0;
    assert(field_pos@.take(0) =~= Seq::<Range<usize>>::empty());
    assert(texts(result@) =~= Seq::<Seq<char>>::empty());
    while i < field_pos.len()
        invariant
            i <= field_pos@.len(),
            fields == record_fields(*record),
            len == fields.len(),
            texts(result@) == picked_all(fields, field_pos@.take(i as int)),
        decreases field_pos@.len() - i,
    {
        let ghost before = result@;
        let r = &field_pos[i];
        let to = if r.end < len {
            r.end
        } else {
            len
        };
        let mut j: usize = if r.start < len {
            r.start
        } else {
            len
        };
        let ghost from = j;
        assert(fields.subrange(from as int, from as int) =~= Seq::<Seq<char>>::empty());
        assert(texts(result@) =~= texts(before) + fields.subrange(from as int, j as int));
        while j < to
            invariant
                from <= j,
                j <= to || (to < from && j == from),
                to <= len,
                i < field_pos@.len(),
                *r == field_pos@[i as int],
                from == clipped(*r, fields.len()).0,
                from <= to ==> to == clipped(*r, fields.len()).1,
                texts(before) == picked_all(fields, field_pos@.take(i as int)),
                fields == record_fields(*record),
                len == fields.len(),
                texts(result@) == texts(before) + fields.subrange(from as int, j as int),
            decreases to - j,
        {
            let ghost so_far = result@;
            match record.get(j) {
                Some(text) => {
                    result.push(text.to_owned());
                    assert(texts(result@) =~= texts(so_far).push(text@));
                    assert(fields.subrange(from as int, j + 1) =~= fields.subrange(
                        from as int,
                        j as int,
                    ).push(fields[j as int]));
                },
                None => {},
            }
            j = j + 1;
        }
        proof {
            assert(field_pos@.take(i + 1).drop_last() =~= field_pos@.take(i as int));
            assert(field_pos@.take(i + 1).last() == *r);
            if from <= to {
                assert(picked(fields, *r) =~= fields.subrange(from as int, j as int));
            } else {
                assert(picked(fields, *r) =~= fields.subrange(from as int, from as int));
            }
        }
        i = i + 1;
    }
    assert(field_pos@.take(i as int) =~= field_pos@);
    result
}

/// The line that is put out for one record: its picked fields with the
/// delimiter between them. A delimiter that is no ASCII byte shows as the
/// text that the byte alone is read as.
pub fn cut_record(record: &StringRecord, field_pos: &[Range<usize>], delimiter: u8) -> (line:
    String)
    ensures
        line@ == joined_with(
            picked_all(record_fields(*record), field_pos@),
            utf8_lossy(seq![delimiter]),
        ),
{
    let picked = extract_fields(record, field_pos);
    let mut one: Vec<u8> = Vec::new();
    one.push(delimiter);
    assert(one@ =~= seq![delimiter]);
    let between = lossy_string(one.as_slice());
    join(&picked, between.as_str())
}

} // verus!
