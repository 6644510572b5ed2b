//! Device-name validation.
//!
//! A device name is the lookup key of the registry. It is valid when it is
//! non-empty and every character is an ASCII lowercase letter, an ASCII
//! digit, or an underscore. Names are never transmitted on the network.

use vstd::prelude::*;

verus! {

/// Why a device name was rejected.
#[derive(Clone, Copy, Debug, PartialEq, Eq, Structural)]
pub enum ValidationError {
    /// The name is the empty string.
    EmptyName,
    /// The name holds a character outside lowercase ASCII letters, ASCII
    /// digits and underscore.
    InvalidCharacter,
}

/// A character allowed in a device name: `a`-`z` (codes 97..=122),
/// `0`-`9` (codes 48..=57), or `_`.
pub open spec fn is_name_char(c: char) -> bool {
    (97 <= c as u32 && c as u32 <= 122) || (48 <= c as u32 && c as u32 <= 57) || c == '_'
}

/// A valid device name: non-empty, all characters from `[a-z0-9_]`.
pub open spec fn is_valid_device_name(s: Seq<char>) -> bool {
    s.len() > 0 && forall|i: int| 0 <= i < s.len() ==> is_name_char(#[trigger] s[i])
}

/// Checks the naming policy: accepts exactly the non-empty strings over
/// `[a-z0-9_]`, and reports the empty string and a forbidden character as
/// distinct errors.
pub fn validate_device_name(name: &str) -> (r: Result<(), ValidationError>)
    ensures
        r matches Ok(()) <==> is_valid_device_name(name@),
        r matches Err(ValidationError::EmptyName) <==> name@.len() == 0,
        r matches Err(ValidationError::InvalidCharacter) <==> (name@.len() > 0
            && !is_valid_device_name(name@)),
{
    let n = name.unicode_len();
    if n == 0 {
        return Err(ValidationError::EmptyName);
    }
    let mut i: usize = 0;
    while i < n
        invariant
            0 <= i <= n,
            n == name@.len(),
            forall|j: int| 0 <= j < i ==> is_name_char(#[trigger] name@[j]),
        decreases n - i,
    {
        let c = name.get_char(i);
        let u = c as u32;
        if !((97 <= u && u <= 122) || (48 <= u && u <= 57) || c == '_') {
            return Err(ValidationError::InvalidCharacter);
        }
        i += 1;
    }
    Ok(())
}

/// The plain-text description of each naming-policy rejection.
pub open spec fn validation_message(v: ValidationError) -> Seq<char> {
    match v {
        ValidationError::EmptyName => "Device name cannot be empty"@,
        ValidationError::InvalidCharacter => "Device name must be lowercase alphanumeric or underscore"@,
    }
}

impl ValidationError {
    /// A plain-text description of the rejection.
    pub fn message(&self) -> (r: String)
        ensures
            r@ == validation_message(*self),
    {
        match self {
            ValidationError::EmptyName => "Device name cannot be empty".to_owned(),
            ValidationError::InvalidCharacter => {
                "Device name must be lowercase alphanumeric or underscore".to_owned()
            },
        }
    }
}

} // verus!
