//! The decoder: from the text of a depth message to a `DepthUpdate`.
//!
//! A message is a JSON object. Its members `bids` and `asks` are arrays of
//! two-element arrays of strings, `[price, quantity]`; its member
//! `lastUpdateId` may be missing or `null`, and is otherwise an integer in
//! `0 ..= u64::MAX`. Other members are ignored. A numeral that cannot be read
//! does not fail the message: it is read as zero.
use crate::json::{
    elements, is_null, json_document, json_model, member, member_of, models_of, parse_json,
    text_of, unsigned_of, JsonModel,
};
use crate::update::{level_from, DepthUpdate, Level, UpdateView};
use vstd::prelude::*;

verus! {

/// Why a text is no depth message.
#[derive(Clone, Copy, Debug, PartialEq, Eq, Structural)]
pub enum DecodeError {
    /// The text is not a JSON document.
    InvalidJson,
    /// The document is no object, or has no member `bids`.
    MissingBids,
    /// `bids` is not an array of pairs of strings.
    MalformedBids,
    /// The document has no member `asks`.
    MissingAsks,
    /// `asks` is not an array of pairs of strings.
    MalformedAsks,
    /// `lastUpdateId` is there, is not `null`, and is no integer in
    /// `0 ..= u64::MAX`.
    MalformedUpdateId,
}

/// The level that a JSON value writes: an array of exactly two strings.
pub open spec fn level_of(model: JsonModel) -> Option<Level> {
    match model {
        JsonModel::Array(items) => if items.len() == 2 {
            match (items[0], items[1]) {
                (JsonModel::Text(price), JsonModel::Text(qty)) => Some(level_from(price, qty)),
                _ => None,
            }
        } else {
            None
        },
        _ => None,
    }
}

/// The levels that a JSON value writes: an array whose every element writes
/// a level.
pub open spec fn side_levels(model: JsonModel) -> Option<Seq<Level>> {
    match model {
        JsonModel::Array(items) => if forall|i: int|
            0 <= i < items.len() ==> level_of(#[trigger] items[i]) is Some {
            Some(items.map_values(|item: JsonModel| level_of(item).unwrap()))
        } else {
            None
        },
        _ => None,
    }
}

/// The sequence number that the member `lastUpdateId` writes; the outer
/// `None` is a member that writes none.
pub open spec fn update_id_of(found: Option<JsonModel>) -> Option<Option<u64>> {
    match found {
        None => Some(None),
        Some(JsonModel::Null) => Some(None),
        Some(JsonModel::Number(Some(id))) => Some(Some(id)),
        Some(_) => None,
    }
}

/// What a JSON document decodes to.
pub open spec fn decode_model(model: JsonModel) -> Result<UpdateView, DecodeError> {
    match member_of(model, "bids"@) {
        None => Err(DecodeError::MissingBids),
        Some(bids_member) => match side_levels(bids_member) {
            None => Err(DecodeError::MalformedBids),
            Some(bids) => match member_of(model, "asks"@) {
                None => Err(DecodeError::MissingAsks),
                Some(asks_member) => match side_levels(asks_member) {
                    None => Err(DecodeError::MalformedAsks),
                    Some(asks) => match update_id_of(member_of(model, "lastUpdateId"@)) {
                        None => Err(DecodeError::MalformedUpdateId),
                        Some(last_update_id) => Ok(UpdateView { last_update_id, bids, asks }),
                    },
                },
            },
        },
    }
}

/// What a text decodes to.
pub open spec fn decode_text(text: Seq<char>) -> Result<UpdateView, DecodeError> {
    match json_document(text) {
        None => Err(DecodeError::InvalidJson),
        Some(model) => decode_model(model),
    }
}

/// The mathematical content of a decoder's result.
pub open spec fn outcome(r: Result<DepthUpdate, DecodeError>) -> Result<UpdateView, DecodeError> {
    match r {
        Ok(update) => Ok(update@),
        Err(e) => Err(e),
    }
}

fn decode_level(value: &serde_json::Value) -> (r: Option<Level>)
    ensures
        r == level_of(json_model(*value)),
{
    let items = match elements(value) {
        Some(items) => items,
        None => {
            return None;
        },
    };
    if items.len() != 2 {
        return None;
    }
    assert(models_of(items@)[0] == json_model(items@[0]));
    assert(models_of(items@)[1] == json_model(items@[1]));
    let price = match text_of(&items[0]) {
        Some(text) => text,
        None => {
            return None;
        },
    };
    let qty = match text_of(&items[1]) {
        Some(text) => text,
        None => {
            return None;
        },
    };
    Some(Level::parse(price, qty))
}

fn decode_side(value: &serde_json::Value) -> (r: Option<Vec<Level>>)
    ensures
        match r {
            Some(levels) => side_levels(json_model(*value)) == Some(levels@),
            None => side_levels(json_model(*value)) is None,
        },
{
    let items = match elements(value) {
        Some(items) => items,
        None => {
            return None;
        },
    };
    let ghost models = models_of(items@);
    let mut levels: Vec<Level> = Vec::new();
    let mut i: usize = 0;
    while i < items.len()
        invariant
            i <= items.len(),
            models == models_of(items@),
            json_model(*value) == JsonModel::Array(models),
            levels@.len() == i,
            forall|k: int| 0 <= k < i ==> level_of(#[trigger] models[k]) == Some(levels@[k]),
        decreases items.len() - i,
    {
        assert(models[i as int] == json_model(items@[i as int]));
        match decode_level(&items[i]) {
            Some(level) => {
                levels.push(level);
            },
            None => {
                return None;
            },
        }
        i += 1;
    }
    assert(levels@ =~= models.map_values(|item: JsonModel| level_of(item).unwrap()));
    Some(levels)
}

fn decode_update_id(found: Option<&serde_json::Value>) -> (r: Option<Option<u64>>)
    ensures
        r == update_id_of(
            match found {
                Some(value) => Some(json_model(*value)),
                None => None,
            },
        ),
{
    match found {
        None => Some(None),
        Some(value) => {
            if is_null(value) {
                Some(None)
            } else {
                match unsigned_of(value) {
                    Some(id) => Some(Some(id)),
                    None => None,
                }
            }
        },
    }
}

/// Decodes a JSON document that `serde_json` has parsed.
pub fn decode_value(value: &serde_json::Value) -> (r: Result<DepthUpdate, DecodeError>)
    ensures
        outcome(r) == decode_model(json_model(*value)),
{
    let bids = match member(value, "bids") {
        None => {
            return Err(DecodeError::MissingBids);
        },
        Some(found) => match decode_side(found) {
            None => {
                return Err(DecodeError::MalformedBids);
            },
            Some(levels) => levels,
        },
    };
    let asks = match member(value, "asks") {
        None => {
            return Err(DecodeError::MissingAsks);
        },
        Some(found) => match decode_side(found) {
            None => {
                return Err(DecodeError::MalformedAsks);
            },
            Some(levels) => levels,
        },
    };
    match decode_update_id(member(value, "lastUpdateId")) {
        None => Err(DecodeError::MalformedUpdateId),
        Some(last_update_id) => Ok(DepthUpdate { last_update_id, bids, asks }),
    }
}

/// Decodes the text of one message.
///
/// The text is handed to `serde_json`; what that makes of it is
/// `json_document(text@)`, and the rest is `decode_model`.
pub fn decode(text: &str) -> (r: Result<DepthUpdate, DecodeError>)
    ensures
        outcome(r) == decode_text(text@),
{
    match parse_json(text) {
        Err(_) => Err(DecodeError::InvalidJson),
        Ok(value) => decode_value(&value),
    }
}

/// A document without a member `bids` is no depth message, whatever else it
/// holds.
pub proof fn lemma_missing_bids_fails(model: JsonModel)
    requires
        member_of(model, "bids"@) is None,
    ensures
        decode_model(model) == Err::<UpdateView, DecodeError>(DecodeError::MissingBids),
{
}

/// A text decodes only if `serde_json` reads a document out of it and that
/// document has both sides.
pub proof fn lemma_decoded_has_both_sides(text: Seq<char>)
    requires
        decode_text(text) is Ok,
    ensures
        json_document(text) is Some,
        member_of(json_document(text).unwrap(), "bids"@) is Some,
        member_of(json_document(text).unwrap(), "asks"@) is Some,
{
}

} // verus!
