//! Validated node addresses.

use vstd::prelude::*;
use crate::address::is_valid_address;

verus! {

/// Why a text was refused as a node address.
#[derive(Debug, Clone, Copy, PartialEq, Eq, Structural)]
pub enum NodeAddressError {
    /// The text is empty, or holds a control code or white space.
    Invalid,
}

impl NodeAddressError {
    /// The error in words.
    pub fn to_string(&self) -> (r: String)
        ensures
            r@ == "invalid value for an address"@,
    {
        "invalid value for an address".to_owned()
    }
}

/// What converting `text` gives: the node address with that very text, or
/// `Invalid`.
pub open spec fn node_parse_result(text: Seq<char>) -> Result<Seq<char>, NodeAddressError> {
    if crate::address::valid_address_text(text) {
        Ok(text)
    } else {
        Err(NodeAddressError::Invalid)
    }
}

/// The identifier of a node. Its text is never empty and holds neither a
/// control code nor white space; two node addresses are equal exactly when
/// their texts are.
#[derive(Debug, Eq, PartialOrd, Ord)]
pub struct NodeAddress {
    val: String,
}

impl View for NodeAddress {
    type V = Seq<char>;

    closed spec fn view(&self) -> Seq<char> {
        self.val@
    }
}

impl NodeAddress {
    #[verifier::type_invariant]
    spec fn well_formed(self) -> bool {
        crate::address::valid_address_text(self.val@)
    }

    /// The view of a conversion outcome: the text of the address, or the
    /// error.
    pub open spec fn outcome(r: Result<NodeAddress, NodeAddressError>) -> Result<
        Seq<char>,
        NodeAddressError,
    > {
        match r {
            Ok(a) => Ok(a@),
            Err(e) => Err(e),
        }
    }

    /// The validated text, verbatim.
    pub fn as_str(&self) -> (r: &str)
        ensures
            r@ == self@,
            crate::address::valid_address_text(r@),
    {
        proof {
            use_type_invariant(self);
        }
        self.val.as_str()
    }

    /// The validated text, verbatim, as an owned string.
    pub fn to_string(&self) -> (r: String)
        ensures
            r@ == self@,
            crate::address::valid_address_text(r@),
    {
        proof {
            use_type_invariant(self);
        }
        self.val.clone()
    }
}

/// What the conversion gives is stated by `try_from` itself, over the text
/// of its argument and of the address; no model of it over `String` values
/// is given.
impl vstd::std_specs::convert::TryFromSpecImpl<&str> for NodeAddress {
    open spec fn obeys_try_from_spec() -> bool {
        false
    }

    open spec fn try_from_spec(v: &str) -> Result<Self, NodeAddressError> {
        Err(NodeAddressError::Invalid)
    }
}

impl TryFrom<&str> for NodeAddress {
    type Error = NodeAddressError;

    /// Validates `s` and wraps a copy of it, unchanged, as a node address.
    fn try_from(s: &str) -> (r: Result<Self, Self::Error>)
        ensures
            NodeAddress::outcome(r) == node_parse_result(s@),
    {
        if is_valid_address(s) {
            Ok(NodeAddress { val: s.to_owned() })
        } else {
            Err(NodeAddressError::Invalid)
        }
    }
}

impl Clone for NodeAddress {
    fn clone(&self) -> (r: Self)
        ensures
            r == *self,
    {
        proof {
            use_type_invariant(self);
        }
        NodeAddress { val: self.val.clone() }
    }
}

impl PartialEq for NodeAddress {
    fn eq(&self, other: &Self) -> (r: bool) {
        self.val == other.val
    }
}

impl vstd::std_specs::cmp::PartialEqSpecImpl for NodeAddress {
    open spec fn obeys_eq_spec() -> bool {
        true
    }

    open spec fn eq_spec(&self, other: &Self) -> bool {
        self@ == other@
    }
}

} // verus!
