use vstd::prelude::*;
use vstd::utf8::{decode_utf8, valid_utf8};

verus! {

/// Text handed over the foreign boundary: the bytes before the terminating
/// NUL, or nothing where the caller passed a null pointer.
#[derive(Debug, PartialEq, Eq)]
pub struct ForeignText {
    pub bytes: Option<Vec<u8>>,
}

/// Relies on `std::str::from_utf8`: it accepts exactly the valid UTF-8 byte
/// strings and decodes them.
#[verifier::external_body]
fn utf8_text(b: &[u8]) -> (r: Option<String>)
    ensures
        r is Some <==> valid_utf8(b@),
        r is Some ==> r->Some_0@ == decode_utf8(b@),
{
    match std::str::from_utf8(b) {
        Ok(s) => Some(s.to_string()),
        Err(_) => None,
    }
}

impl ForeignText {
    /// Whether the text is present and valid UTF-8.
    pub open spec fn holds_text(&self) -> bool {
        self.bytes is Some && valid_utf8(self.bytes->Some_0@)
    }

    /// Whether the text is absent, or present and valid UTF-8.
    pub open spec fn holds_optional_text(&self) -> bool {
        self.bytes is None || self.holds_text()
    }

    /// Checks that the text can be read as a string.
    pub fn is_readable(&self) -> (r: bool)
        ensures
            r == self.holds_text(),
    {
        match &self.bytes {
            Some(b) => utf8_text(b.as_slice()).is_some(),
            None => false,
        }
    }
}

/// Reads a string that the foreign caller must pass.
pub trait ToStringFromPtr: Sized {
    spec fn readable(&self) -> bool;

    spec fn text(&self) -> Seq<char>;

    fn to_string_from_ptr(self) -> (r: String)
        requires
            self.readable(),
        ensures
            r@ == self.text(),
    ;
}

/// Reads a string that the foreign caller may leave out.
pub trait ToOptionalStringFromPtr: Sized {
    spec fn optional_readable(&self) -> bool;

    spec fn optional_text(&self) -> Option<Seq<char>>;

    fn to_optional_string_from_ptr(self) -> (r: Option<String>)
        requires
            self.optional_readable(),
        ensures
            r is Some <==> self.optional_text() is Some,
            r is Some ==> r->Some_0@ == self.optional_text()->Some_0,
    ;
}

impl ToStringFromPtr for ForeignText {
    open spec fn readable(&self) -> bool {
        self.holds_text()
    }

    open spec fn text(&self) -> Seq<char> {
        decode_utf8(self.bytes->Some_0@)
    }

    fn to_string_from_ptr(self) -> (r: String) {
        let b = self.bytes.unwrap();
        utf8_text(b.as_slice()).unwrap()
    }
}

impl ToOptionalStringFromPtr for ForeignText {
    open spec fn optional_readable(&self) -> bool {
        self.holds_optional_text()
    }

    open spec fn optional_text(&self) -> Option<Seq<char>> {
        match self.bytes {
            Some(b) => Some(decode_utf8(b@)),
            None => None,
        }
    }

    fn to_optional_string_from_ptr(self) -> (r: Option<String>) {
        if self.bytes.is_some() {
            Some(self.to_string_from_ptr())
        } else {
            None
        }
    }
}

} // verus!
