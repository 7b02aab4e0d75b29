//! Request parameters: the requested data type, array length, and the block
//! size that accompanies the hex-string data type.

use vstd::prelude::*;
use vstd::string::*;
use crate::in_bounds;
use crate::text::str_eq;

verus! {

/// The element type a caller may request from the remote service.
#[derive(Clone, Copy, Debug, PartialEq, Eq, Structural)]
pub enum DataType {
    Uint8,
    Uint16,
    Hex16,
}

/// The lower-case token that names `t` in the request's query string.
pub open spec fn type_token(t: DataType) -> Seq<char> {
    match t {
        DataType::Uint8 => "uint8"@,
        DataType::Uint16 => "uint16"@,
        DataType::Hex16 => "hex16"@,
    }
}

impl DataType {
    /// The lower-case name of this data type, as the query string spells it.
    pub fn to_lowercase(&self) -> (r: String)
        ensures
            r@ == type_token(*self),
    {
        match self {
            DataType::Uint8 => String::from_str("uint8"),
            DataType::Uint16 => String::from_str("uint16"),
            DataType::Hex16 => String::from_str("hex16"),
        }
    }

    /// The data type a menu choice names, if any: the inverse of the
    /// lower-case token.
    pub fn from_choice(choice: &str) -> (r: Option<DataType>)
        ensures
            match r {
                Some(t) => choice@ == type_token(t),
                None => choice@ != "uint8"@ && choice@ != "uint16"@ && choice@ != "hex16"@,
            },
    {
        if str_eq(choice, "uint8") {
            Some(DataType::Uint8)
        } else if str_eq(choice, "uint16") {
            Some(DataType::Uint16)
        } else if str_eq(choice, "hex16") {
            Some(DataType::Hex16)
        } else {
            None
        }
    }
}

/// A fully resolved request: data type, length, and a block size exactly
/// when the data type is the hex-string one.
#[derive(Clone, Copy, Debug, PartialEq, Eq, Structural)]
pub struct RequestParameters {
    pub data_type: DataType,
    pub length: u16,
    pub block_size: Option<u16>,
}

impl RequestParameters {
    /// Well-formedness: the length and any block size lie within bounds,
    /// and a block size is present exactly for the hex-string data type.
    pub open spec fn wf(self) -> bool {
        &&& in_bounds(self.length)
        &&& (self.block_size is Some <==> self.data_type is Hex16)
        &&& (self.block_size is Some ==> in_bounds(self.block_size->0))
    }
}

/// Why a set of supplied parameters was rejected.
#[derive(Clone, Copy, Debug, PartialEq, Eq, Structural)]
pub enum ParamError {
    LengthOutOfRange,
    BlockSizeMissing,
    BlockSizeOutOfRange,
}

/// Resolve supplied values into well-formed request parameters, applying
/// the same bounds to every input source. A block size is required for the
/// hex-string data type and dropped for the others.
pub fn make_params(data_type: DataType, length: u16, block_size: Option<u16>) -> (r: Result<
    RequestParameters,
    ParamError,
>)
    ensures
        r is Ok <==> in_bounds(length) && (data_type is Hex16 ==> block_size is Some && in_bounds(
            block_size->0,
        )),
        r matches Ok(p) ==> p.wf() && p.data_type == data_type && p.length == length
            && p.block_size == (if data_type is Hex16 {
            block_size
        } else {
            Option::<u16>::None
        }),
        !in_bounds(length) ==> r == Err::<RequestParameters, ParamError>(
            ParamError::LengthOutOfRange,
        ),
        in_bounds(length) && data_type is Hex16 && block_size is None ==> r == Err::<
            RequestParameters,
            ParamError,
        >(ParamError::BlockSizeMissing),
        in_bounds(length) && data_type is Hex16 && (block_size matches Some(b) && !in_bounds(b))
            ==> r == Err::<RequestParameters, ParamError>(ParamError::BlockSizeOutOfRange),
{
    if !crate::check_bounds(length) {
        return Err(ParamError::LengthOutOfRange);
    }
    let resolved_block = if matches!(data_type, DataType::Hex16) {
        match block_size {
            None => {
                return Err(ParamError::BlockSizeMissing);
            },
            Some(b) => {
                if !crate::check_bounds(b) {
                    return Err(ParamError::BlockSizeOutOfRange);
                }
                Some(b)
            },
        }
    } else {
        None
    };
    Ok(RequestParameters { data_type, length, block_size: resolved_block })
}

} // verus!
