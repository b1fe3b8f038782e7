//! Node ids in their written form.

use crate::capability::NodeId;
use crate::hexadecimal::hex_bytes;
use crate::hexadecimal::hex_decode;
use crate::hexadecimal::hex_text;
use crate::hexadecimal::is_hex_text;
use crate::hexadecimal::law_hex_round_trip;
use crate::laws::writing::is_digit_code;
use crate::laws::writing::law_node_ids_are_64_digits;
use vstd::prelude::*;

verus! {

/// Why a text is not a node id.
#[derive(Debug, Clone, Copy, PartialEq, Eq, Structural)]
pub enum NodeIdError {
    /// It is not made of pairs of hexadecimal digits.
    NotHex,
    /// It is, but not of 32 pairs.
    WrongLength,
}

impl NodeIdError {
    /// The words for the error.
    pub open spec fn text(self) -> Seq<char> {
        match self {
            NodeIdError::NotHex => "node id must be hex"@,
            NodeIdError::WrongLength => "node id must be 32 bytes (64 hex chars)"@,
        }
    }

    /// The error in words.
    pub fn message(&self) -> (words: String)
        ensures
            words@ == self.text(),
    {
        match self {
            NodeIdError::NotHex => String::from_str("node id must be hex"),
            NodeIdError::WrongLength => String::from_str("node id must be 32 bytes (64 hex chars)"),
        }
    }
}

/// The id that a text stands for: 64 hexadecimal digits, in either case.
pub open spec fn node_id_of(text: Seq<char>) -> Result<Seq<u8>, NodeIdError> {
    if !is_hex_text(text) {
        Err(NodeIdError::NotHex)
    } else if text.len() != 64 {
        Err(NodeIdError::WrongLength)
    } else {
        Ok(hex_bytes(text))
    }
}

/// A result of [`parse_node_id`], with the id taken by its view.
pub open spec fn parsed(result: Result<NodeId, NodeIdError>) -> Result<Seq<u8>, NodeIdError> {
    match result {
        Ok(id) => Ok(id@),
        Err(error) => Err(error),
    }
}

/// Reads a node id from its 64 hexadecimal digits.
pub fn parse_node_id(s: &str) -> (id: Result<NodeId, NodeIdError>)
    ensures
        parsed(id) == node_id_of(s@),
        id is Ok <==> s@.len() == 64 && forall|i: int|
            0 <= i < s@.len() ==> is_digit_code(#[trigger] s@[i] as int),
{
    proof {
        law_node_ids_are_64_digits(s@, 0);
    }
    let bytes = match hex_decode(s) {
        Ok(bytes) => bytes,
        Err(_) => {
            return Err(NodeIdError::NotHex);
        },
    };
    if bytes.len() != 32 {
        return Err(NodeIdError::WrongLength);
    }
    let mut id: NodeId = [0u8;32];
    let mut i: usize = 0;
    while i < 32
        invariant
            i <= 32,
            bytes@.len() == 32,
            forall|j: int| 0 <= j < i ==> id@[j] == bytes@[j],
        decreases 32 - i,
    {
        id[i] = bytes[i];
        i += 1;
    }
    assert(id@ =~= bytes@);
    Ok(id)
}

/// The digits of an id are read back as that id.
pub proof fn law_node_id_round_trip(id: Seq<u8>)
    requires
        id.len() == 32,
    ensures
        node_id_of(hex_text(id)) == Ok::<Seq<u8>, NodeIdError>(id),
{
    law_hex_round_trip(id);
}

} // verus!
