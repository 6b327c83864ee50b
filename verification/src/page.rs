use vstd::prelude::*;

use crate::errors::FetchError;
use crate::json::{obj_lookup, parse_json, parsed_json, json_obj_get, Json};

verus! {

/// One backlink entry: a record of `collection` under key `rkey`, made by
/// the entity `did`, that references the queried target.
#[derive(Debug)]
pub struct LinkingRecord {
    pub did: String,
    pub collection: String,
    pub rkey: String,
}

/// The mathematical value of a `LinkingRecord`.
pub struct RecordModel {
    pub did: Seq<char>,
    pub collection: Seq<char>,
    pub rkey: Seq<char>,
}

impl View for LinkingRecord {
    type V = RecordModel;

    open spec fn view(&self) -> RecordModel {
        RecordModel { did: self.did@, collection: self.collection@, rkey: self.rkey@ }
    }
}

/// A decoded response from the index service. `total` is informational
/// only; the driver's loop ends on an absent `cursor`, never on `total`.
#[derive(Debug)]
pub struct Page {
    pub total: u64,
    pub records: Vec<LinkingRecord>,
    pub cursor: Option<String>,
}

/// The mathematical value of a `Page`.
pub struct PageModel {
    pub total: u64,
    pub records: Seq<RecordModel>,
    pub cursor: Option<Seq<char>>,
}

impl View for Page {
    type V = PageModel;

    open spec fn view(&self) -> PageModel {
        PageModel {
            total: self.total,
            records: self.records@.map_values(|r: LinkingRecord| r@),
            cursor: match self.cursor {
                Some(c) => Some(c@),
                None => None,
            },
        }
    }
}

/// What one element of `linking_records` must decode to: an object whose
/// `did`, `collection` and `rkey` fields are all present and all strings.
/// Anything else is a decode failure.
pub open spec fn spec_decode_record(j: Json) -> Option<RecordModel> {
    match j {
        Json::Obj(fields) => {
            match (
                obj_lookup(fields@, "did"@),
                obj_lookup(fields@, "collection"@),
                obj_lookup(fields@, "rkey"@),
            ) {
                (Some(Json::Str(d)), Some(Json::Str(c)), Some(Json::Str(k))) => Some(
                    RecordModel { did: d@, collection: c@, rkey: k@ },
                ),
                _ => None,
            }
        },
        _ => None,
    }
}

/// Strict decoding of a record array: every element must decode, in order,
/// or the whole array is refused.
pub open spec fn spec_decode_records(items: Seq<Json>) -> Option<Seq<RecordModel>>
    decreases items.len(),
{
    if items.len() == 0 {
        Some(Seq::empty())
    } else {
        match (spec_decode_records(items.drop_last()), spec_decode_record(items.last())) {
            (Some(rest), Some(r)) => Some(rest.push(r)),
            _ => None,
        }
    }
}

/// What a response body must decode to: an object with a `u64` field
/// `total`, an array field `linking_records` whose every element decodes,
/// and a `cursor` field that is a string, `null`, or absent. Unknown extra
/// fields are ignored; a required field that is missing or of the wrong
/// type refuses the whole body.
pub open spec fn spec_decode_page(j: Json) -> Option<PageModel> {
    match j {
        Json::Obj(fields) => {
            match (obj_lookup(fields@, "total"@), obj_lookup(fields@, "linking_records"@)) {
                (Some(Json::Num(Some(t))), Some(Json::Arr(items))) => {
                    match spec_decode_records(items@) {
                        Some(rs) => match obj_lookup(fields@, "cursor"@) {
                            None => Some(PageModel { total: t, records: rs, cursor: None }),
                            Some(Json::Null) => Some(
                                PageModel { total: t, records: rs, cursor: None },
                            ),
                            Some(Json::Str(c)) => Some(
                                PageModel { total: t, records: rs, cursor: Some(c@) },
                            ),
                            Some(_) => None,
                        },
                        None => None,
                    }
                },
                _ => None,
            }
        },
        _ => None,
    }
}

/// Decode strictness on records: an array in which any one element fails
/// to decode (its `did`, `collection` or `rkey` missing or not a string)
/// refuses the whole array, so no identifier of that page is ever
/// accumulated.
pub proof fn lemma_decode_strictness(items: Seq<Json>, i: int)
    requires
        0 <= i < items.len(),
        spec_decode_record(items[i]) is None,
    ensures
        spec_decode_records(items) is None,
    decreases items.len(),
{
    if i == items.len() - 1 {
    } else {
        assert(items.drop_last()[i] == items[i]);
        lemma_decode_strictness(items.drop_last(), i);
    }
}

fn decode_record(j: &Json) -> (r: Result<LinkingRecord, FetchError>)
    ensures
        (match spec_decode_record(*j) {
            Some(rm) => r matches Ok(rec) && rec@ == rm,
            None => r matches Err(e) && e is Decode,
        }),
{
    let fields = match j {
        Json::Obj(fields) => fields,
        _ => {
            return Err(FetchError::Decode("linking record is not an object".to_owned()));
        },
    };
    let did = match json_obj_get(fields, &"did".to_owned()) {
        Some(Json::Str(d)) => d.clone(),
        _ => {
            return Err(FetchError::Decode("linking record field did is missing or not a string".to_owned()));
        },
    };
    let collection = match json_obj_get(fields, &"collection".to_owned()) {
        Some(Json::Str(c)) => c.clone(),
        _ => {
            return Err(
                FetchError::Decode("linking record field collection is missing or not a string".to_owned()),
            );
        },
    };
    let rkey = match json_obj_get(fields, &"rkey".to_owned()) {
        Some(Json::Str(k)) => k.clone(),
        _ => {
            return Err(FetchError::Decode("linking record field rkey is missing or not a string".to_owned()));
        },
    };
    Ok(LinkingRecord { did, collection, rkey })
}

fn decode_records(items: &Vec<Json>) -> (r: Result<Vec<LinkingRecord>, FetchError>)
    ensures
        (match spec_decode_records(items@) {
            Some(rms) => r matches Ok(recs) && recs@.map_values(|rec: LinkingRecord| rec@) == rms,
            None => r matches Err(e) && e is Decode,
        }),
{
    let mut recs: Vec<LinkingRecord> = Vec::new();
    let mut i: usize = 0;
    proof {
        assert(items@.take(0) =~= Seq::<Json>::empty());
    }
    while i < items.len()
        invariant
            i <= items@.len(),
            spec_decode_records(items@.take(i as int)) == Some(
                recs@.map_values(|rec: LinkingRecord| rec@),
            ),
        decreases items@.len() - i,
    {
        proof {
            assert(items@.take(i as int + 1).drop_last() =~= items@.take(i as int));
            assert(items@.take(i as int + 1).last() == items@[i as int]);
        }
        match decode_record(&items[i]) {
            Ok(rec) => {
                recs.push(rec);
                proof {
                    assert(recs@.map_values(|rec: LinkingRecord| rec@) =~= recs@.drop_last()
                        .map_values(|rec: LinkingRecord| rec@).push(recs@.last()@));
                }
            },
            Err(e) => {
                proof {
                    lemma_decode_strictness(items@, i as int);
                }
                return Err(e);
            },
        }
        i = i + 1;
    }
    proof {
        assert(items@.take(items@.len() as int) =~= items@);
    }
    Ok(recs)
}

fn decode_page_json(j: &Json) -> (r: Result<Page, FetchError>)
    ensures
        (match spec_decode_page(*j) {
            Some(pm) => r matches Ok(p) && p@ == pm,
            None => r matches Err(e) && e is Decode,
        }),
{
    let fields = match j {
        Json::Obj(fields) => fields,
        _ => {
            return Err(FetchError::Decode("response body is not an object".to_owned()));
        },
    };
    let total = match json_obj_get(fields, &"total".to_owned()) {
        Some(Json::Num(Some(t))) => *t,
        _ => {
            return Err(FetchError::Decode("field total is missing or not a u64".to_owned()));
        },
    };
    let items = match json_obj_get(fields, &"linking_records".to_owned()) {
        Some(Json::Arr(items)) => items,
        _ => {
            return Err(
                FetchError::Decode("field linking_records is missing or not an array".to_owned()),
            );
        },
    };
    let records = match decode_records(items) {
        Ok(recs) => recs,
        Err(e) => {
            return Err(e);
        },
    };
    let cursor = match json_obj_get(fields, &"cursor".to_owned()) {
        None => None,
        Some(Json::Null) => None,
        Some(Json::Str(c)) => Some(c.clone()),
        Some(_) => {
            return Err(FetchError::Decode("field cursor is not a string or null".to_owned()));
        },
    };
    Ok(Page { total, records, cursor })
}

/// Decode one response body under the page schema. Decoding is strict: a
/// body that is not valid JSON, or whose required fields are missing or of
/// the wrong type, is refused with a `Decode` error; unknown extra fields
/// are ignored.
pub fn decode_page(body: &str) -> (r: Result<Page, FetchError>)
    ensures
        (match parsed_json(body@) {
            Some(j) => (match spec_decode_page(j) {
                Some(pm) => r matches Ok(p) && p@ == pm,
                None => r matches Err(e) && e is Decode,
            }),
            None => r matches Err(e) && e is Decode,
        }),
{
    match parse_json(body) {
        Ok(j) => decode_page_json(&j),
        Err(d) => Err(FetchError::Decode(d)),
    }
}

} // verus!
