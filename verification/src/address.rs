//! Validated actor addresses.

use vstd::prelude::*;

verus! {

/// Whether `c` is a control code: general category `Cc`, which is the two
/// blocks U+0000..=U+001F and U+007F..=U+009F.
pub open spec fn is_control_char(c: char) -> bool {
    c as u32 <= 0x1F || 0x7F <= c as u32 <= 0x9F
}

/// Whether `c` has the Unicode `White_Space` property.
pub open spec fn is_whitespace_char(c: char) -> bool {
    let n = c as u32;
    ||| 0x09 <= n <= 0x0D
    ||| n == 0x20
    ||| n == 0x85
    ||| n == 0xA0
    ||| n == 0x1680
    ||| 0x2000 <= n <= 0x200A
    ||| n == 0x2028
    ||| n == 0x2029
    ||| n == 0x202F
    ||| n == 0x205F
    ||| n == 0x3000
}

/// A character that may appear in an address.
pub open spec fn is_address_char(c: char) -> bool {
    !is_control_char(c) && !is_whitespace_char(c)
}

/// The texts that are addresses: at least one character, and every character
/// neither a control code nor white space.
pub open spec fn valid_address_text(text: Seq<char>) -> bool {
    text.len() > 0 && forall|i: int| 0 <= i < text.len() ==> is_address_char(#[trigger] text[i])
}

/// Executable form of [`is_control_char`].
pub fn is_control(c: char) -> (r: bool)
    ensures
        r == is_control_char(c),
{
    let n: u32 = c as u32;
    n <= 0x1F || (0x7F <= n && n <= 0x9F)
}

/// Executable form of [`is_whitespace_char`].
pub fn is_whitespace(c: char) -> (r: bool)
    ensures
        r == is_whitespace_char(c),
{
    let n: u32 = c as u32;
    (0x09 <= n && n <= 0x0D) || n == 0x20 || n == 0x85 || n == 0xA0 || n == 0x1680 || (0x2000 <= n
        && n <= 0x200A) || n == 0x2028 || n == 0x2029 || n == 0x202F || n == 0x205F || n == 0x3000
}

/// Decides [`valid_address_text`] for a string slice.
pub fn is_valid_address(s: &str) -> (r: bool)
    ensures
        r == valid_address_text(s@),
{
    if s.is_empty() {
        return false;
    }
    for c in it: s.chars()
        invariant
            it.seq() == s@,
            forall|i: int| 0 <= i < it.index() ==> is_address_char(#[trigger] s@[i]),
    {
        if is_control(c) || is_whitespace(c) {
            return false;
        }
    }
    true
}

/// Why a text was refused as an address.
#[derive(Debug, Clone, Copy, PartialEq, Eq, Structural)]
pub enum AddressError {
    /// The text is empty, or holds a control code or white space.
    Invalid,
}

impl AddressError {
    /// The error in words.
    pub fn to_string(&self) -> (r: String)
        ensures
            r@ == "invalid value for an address"@,
    {
        "invalid value for an address".to_owned()
    }
}

/// What parsing `text` gives: the address with that very text, or `Invalid`.
pub open spec fn parse_result(text: Seq<char>) -> Result<Seq<char>, AddressError> {
    if valid_address_text(text) {
        Ok(text)
    } else {
        Err(AddressError::Invalid)
    }
}

/// The identifier of an actor. Its text is never empty and holds neither a
/// control code nor white space; two addresses are equal exactly when their
/// texts are.
#[derive(Debug, Eq, PartialOrd, Ord)]
pub struct Address {
    val: String,
}

impl View for Address {
    type V = Seq<char>;

    closed spec fn view(&self) -> Seq<char> {
        self.val@
    }
}

impl Address {
    #[verifier::type_invariant]
    spec fn well_formed(self) -> bool {
        valid_address_text(self.val@)
    }

    /// The view of a parse outcome: the text of the address, or the error.
    pub open spec fn outcome(r: Result<Address, AddressError>) -> Result<Seq<char>, AddressError> {
        match r {
            Ok(a) => Ok(a@),
            Err(e) => Err(e),
        }
    }

    /// Validates `s` and wraps it, unchanged, as an address.
    pub fn parse(s: String) -> (r: Result<Address, AddressError>)
        ensures
            Self::outcome(r) == parse_result(s@),
    {
        if is_valid_address(s.as_str()) {
            Ok(Address { val: s })
        } else {
            Err(AddressError::Invalid)
        }
    }

    /// The validated text, verbatim.
    pub fn as_str(&self) -> (r: &str)
        ensures
            r@ == self@,
            valid_address_text(r@),
    {
        proof {
            use_type_invariant(self);
        }
        self.val.as_str()
    }

    /// The validated text, verbatim, as an owned string.
    pub fn to_string(&self) -> (r: String)
        ensures
            r@ == self@,
            valid_address_text(r@),
    {
        proof {
            use_type_invariant(self);
        }
        self.val.clone()
    }
}

/// What the conversion gives is stated by `try_from` itself, over the text
/// of its argument and of the address; no model of it over `String` values
/// is given.
impl vstd::std_specs::convert::TryFromSpecImpl<&str> for Address {
    open spec fn obeys_try_from_spec() -> bool {
        false
    }

    open spec fn try_from_spec(v: &str) -> Result<Self, AddressError> {
        Err(AddressError::Invalid)
    }
}

impl TryFrom<&str> for Address {
    type Error = AddressError;

    /// Parses a copy of `s`.
    fn try_from(s: &str) -> (r: Result<Self, Self::Error>)
        ensures
            Address::outcome(r) == parse_result(s@),
    {
        Address::parse(s.to_owned())
    }
}

/// What the conversion gives is stated by `try_from` itself, over the text
/// of its argument and of the address; no model of it over `String` values
/// is given.
impl vstd::std_specs::convert::TryFromSpecImpl<&String> for Address {
    open spec fn obeys_try_from_spec() -> bool {
        false
    }

    open spec fn try_from_spec(v: &String) -> Result<Self, AddressError> {
        Err(AddressError::Invalid)
    }
}

impl TryFrom<&String> for Address {
    type Error = AddressError;

    /// Parses a copy of `s`.
    fn try_from(s: &String) -> (r: Result<Self, Self::Error>)
        ensures
            Address::outcome(r) == parse_result(s@),
    {
        Address::parse(s.clone())
    }
}

/// What the conversion gives is stated by `try_from` itself, over the text
/// of its argument and of the address; no model of it over `String` values
/// is given.
impl vstd::std_specs::convert::TryFromSpecImpl<String> for Address {
    open spec fn obeys_try_from_spec() -> bool {
        false
    }

    open spec fn try_from_spec(v: String) -> Result<Self, AddressError> {
        Err(AddressError::Invalid)
    }
}

impl TryFrom<String> for Address {
    type Error = AddressError;

    /// Parses `s`.
    fn try_from(s: String) -> (r: Result<Self, Self::Error>)
        ensures
            Address::outcome(r) == parse_result(s@),
    {
        Address::parse(s)
    }
}

impl Clone for Address {
    fn clone(&self) -> (r: Self)
        ensures
            r == *self,
    {
        proof {
            use_type_invariant(self);
        }
        Address { val: self.val.clone() }
    }
}

impl PartialEq for Address {
    fn eq(&self, other: &Self) -> (r: bool) {
        self.val == other.val
    }
}

impl vstd::std_specs::cmp::PartialEqSpecImpl for Address {
    open spec fn obeys_eq_spec() -> bool {
        true
    }

    open spec fn eq_spec(&self, other: &Self) -> bool {
        self@ == other@
    }
}

/// Round trip: every text that is non-empty and free of control codes and
/// white space parses, and the address that results has that text, which is
/// what [`Address::to_string`] and [`Address::as_str`] return.
pub proof fn law_parse_round_trip(text: Seq<char>)
    requires
        valid_address_text(text),
    ensures
        parse_result(text) == Ok::<Seq<char>, AddressError>(text),
{
}

/// Rejection: the empty text, and every text that holds a control code or a
/// white space character anywhere, is refused with `Invalid`.
pub proof fn law_parse_rejects(text: Seq<char>)
    requires
        text.len() == 0 || exists|i: int|
            0 <= i < text.len() && (is_control_char(#[trigger] text[i]) || is_whitespace_char(
                text[i],
            )),
    ensures
        parse_result(text) == Err::<Seq<char>, AddressError>(AddressError::Invalid),
{
}

} // verus!
