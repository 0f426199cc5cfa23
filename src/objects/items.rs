//! Items offered at auction.
use vstd::prelude::*;

verus! {

/// How rare an item is.
#[derive(Debug, Clone, Copy, PartialEq, Eq, Structural)]
pub enum Rarity {
    Common,
    Uncommon,
    Rare,
    Epic,
    Legendary,
    Artifact,
    Special,
}

/// An item stack as an auction describes it.
#[derive(Debug, PartialEq, Eq)]
pub struct Item {
    /// The item's name, without colour codes.
    pub name: String,
    /// The item's description, with colour codes.
    pub lore: String,
    /// The number of items in the stack, when the listing gives it.
    pub count: Option<i8>,
    /// Search text: enchantments and the underlying item's name.
    pub extra: String,
    /// The auction category.
    pub category: String,
    pub tier: Rarity,
    /// The item's compressed binary tag, base64-encoded.
    pub bytes: ItemBytes,
}

impl Item {
    /// The number of items in the stack, when the listing gave it.
    pub fn count(&mut self) -> (r: Option<i8>)
        ensures
            r == old(self).count,
            *final(self) == *old(self),
    {
        self.count
    }
}

/// The base64 text of an item's binary tag, in either of the two shapes that
/// different endpoints send.
#[derive(Debug, Clone, PartialEq, Eq)]
pub enum ItemBytes {
    T0(ItemBytesT0),
    Data(String),
}

/// The tagged shape of an item's binary tag.
#[derive(Debug, Clone, PartialEq, Eq)]
pub enum ItemBytesT0 {
    Data(String),
}

/// An item's binary tag could not be read.
#[derive(Debug, PartialEq, Eq, Structural)]
pub enum ItemBytesError {
    /// The text is not valid base64.
    InvalidBase64,
}

/// The bytes that `s` decodes to as base64 in the standard alphabet; `None`
/// when `s` is not valid base64 text.
pub uninterp spec fn base64_decoded(s: Seq<char>) -> Option<Seq<u8>>;

#[verifier::external_type_specification]
#[verifier::external_body]
pub struct ExDecodeError(base64::DecodeError);

/// Relies on `base64::decode` (standard configuration): the decoded bytes,
/// or an error when the text is not valid base64.
#[verifier::external_body]
fn decode_base64(s: &str) -> (r: Result<Vec<u8>, base64::DecodeError>)
    ensures
        match r {
            Ok(b) => base64_decoded(s@) == Some(b@),
            Err(_) => base64_decoded(s@) is None,
        },
{
    base64::decode(s)
}

impl ItemBytes {
    /// The base64 text, whatever its shape.
    pub open spec fn text(&self) -> Seq<char> {
        match self {
            ItemBytes::T0(ItemBytesT0::Data(s)) => s@,
            ItemBytes::Data(s) => s@,
        }
    }

    /// The base64 text, whatever its shape.
    pub fn into_string(self) -> (r: String)
        ensures
            r@ == self.text(),
    {
        match self {
            ItemBytes::T0(ItemBytesT0::Data(s)) => s,
            ItemBytes::Data(s) => s,
        }
    }

    /// The binary tag that the base64 text encodes.
    pub fn decode(self) -> (r: Result<Vec<u8>, ItemBytesError>)
        ensures
            match base64_decoded(self.text()) {
                Some(b) => r matches Ok(v) && v@ == b,
                None => r == Err::<Vec<u8>, ItemBytesError>(ItemBytesError::InvalidBase64),
            },
    {
        let text = self.into_string();
        match decode_base64(text.as_str()) {
            Ok(b) => Ok(b),
            Err(_) => Err(ItemBytesError::InvalidBase64),
        }
    }
}

} // verus!
