//! Intermediate representation of a decoded contract ABI.

use vstd::prelude::*;

use crate::text::{has_prefix, str_eq};

verus! {

/// An ABI type. The known keywords have fixed variants; `Contract` and
/// `Enum` carry the name of an internal structured type; `Other` carries
/// an unrecognized raw type string verbatim.
#[derive(Debug)]
pub enum DataType {
    UInt256,
    String,
    Address,
    UInt8,
    Bool,
    UInt8Array,
    UInt256Array,
    Contract(String),
    Enum(String),
    Other(String),
}

/// The decoding rule for a raw ABI type string. Decoding is total: known
/// keywords map to their fixed variants; a string prefixed with
/// `"contract "` or `"enum "` decodes to `Contract` or `Enum` carrying the
/// remainder as name; every other string decodes to `Other` carrying the
/// string unchanged.
pub open spec fn decoded_data_type(s: Seq<char>, d: DataType) -> bool {
    if s == "uint256"@ {
        d == DataType::UInt256
    } else if s == "string"@ {
        d == DataType::String
    } else if s == "address"@ {
        d == DataType::Address
    } else if s == "uint8"@ {
        d == DataType::UInt8
    } else if s == "bool"@ {
        d == DataType::Bool
    } else if s == "uint8[]"@ {
        d == DataType::UInt8Array
    } else if s == "uint256[]"@ {
        d == DataType::UInt256Array
    } else if s.len() >= "contract "@.len() && s.subrange(0, "contract "@.len() as int)
        == "contract "@ {
        d matches DataType::Contract(n) && n@ == s.skip("contract "@.len() as int)
    } else if s.len() >= "enum "@.len() && s.subrange(0, "enum "@.len() as int) == "enum "@ {
        d matches DataType::Enum(n) && n@ == s.skip("enum "@.len() as int)
    } else {
        d matches DataType::Other(o) && o@ == s
    }
}

impl DataType {
    /// Decodes a raw ABI type string; never fails.
    pub fn decode(raw: &str) -> (r: DataType)
        ensures
            decoded_data_type(raw@, r),
    {
        if str_eq(raw, "uint256") {
            DataType::UInt256
        } else if str_eq(raw, "string") {
            DataType::String
        } else if str_eq(raw, "address") {
            DataType::Address
        } else if str_eq(raw, "uint8") {
            DataType::UInt8
        } else if str_eq(raw, "bool") {
            DataType::Bool
        } else if str_eq(raw, "uint8[]") {
            DataType::UInt8Array
        } else if str_eq(raw, "uint256[]") {
            DataType::UInt256Array
        } else if has_prefix(raw, "contract ") {
            let n = raw.unicode_len();
            let p = "contract ".unicode_len();
            let rest = raw.substring_char(p, n);
            proof {
                assert(rest@ =~= raw@.skip("contract "@.len() as int));
            }
            DataType::Contract(rest.to_owned())
        } else if has_prefix(raw, "enum ") {
            let n = raw.unicode_len();
            let p = "enum ".unicode_len();
            let rest = raw.substring_char(p, n);
            proof {
                assert(rest@ =~= raw@.skip("enum "@.len() as int));
            }
            DataType::Enum(rest.to_owned())
        } else {
            DataType::Other(raw.to_owned())
        }
    }
}

impl Clone for DataType {
    fn clone(&self) -> (r: Self)
        ensures
            r == *self,
    {
        match self {
            DataType::UInt256 => DataType::UInt256,
            DataType::String => DataType::String,
            DataType::Address => DataType::Address,
            DataType::UInt8 => DataType::UInt8,
            DataType::Bool => DataType::Bool,
            DataType::UInt8Array => DataType::UInt8Array,
            DataType::UInt256Array => DataType::UInt256Array,
            DataType::Contract(s) => DataType::Contract(s.clone()),
            DataType::Enum(s) => DataType::Enum(s.clone()),
            DataType::Other(s) => DataType::Other(s.clone()),
        }
    }
}

/// Mutability of an ABI function.
#[derive(Debug, Clone, Copy)]
pub enum StateMutability {
    NonPayable,
    View,
    Pure,
}

/// One input of an ABI event.
#[derive(Debug)]
pub struct EventInput {
    pub indexed: bool,
    pub internal_type: DataType,
    pub name: String,
    pub input_type: DataType,
}

/// One input of an ABI constructor.
#[derive(Debug)]
pub struct CtorInput {
    pub name: String,
    pub internal_type: DataType,
    pub input_type: DataType,
}

/// One input or output of an ABI function; the name may be empty.
#[derive(Debug)]
pub struct FuncIO {
    pub name: String,
    pub io_type: DataType,
    pub internal_type: DataType,
}

/// One entry of a contract's ABI. Only `Function` entries take part in
/// code generation; `Constructor` and `Event` entries are carried in the
/// representation but produce no output under current policy.
#[derive(Debug)]
pub enum AbiEntry {
    Constructor { inputs: Vec<CtorInput>, mutability: StateMutability },
    Event { anonymous: bool, name: String, inputs: Vec<EventInput> },
    Function {
        name: String,
        mutability: StateMutability,
        constant: bool,
        inputs: Vec<FuncIO>,
        outputs: Vec<FuncIO>,
    },
}

/// A contract: its name and its ordered ABI entries.
#[derive(Debug)]
pub struct Contract {
    pub abi: Vec<AbiEntry>,
    pub name: String,
}

} // verus!
