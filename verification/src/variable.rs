//! One environment-variable name as an opaque byte sequence, compared byte
//! for byte: no case folding and no locale normalisation. The operating
//! system's NUL terminator is interop detail outside this data model.

use vstd::prelude::*;
use vstd::slice::slice_to_vec;
use vstd::string::StrSliceExecFns;
use vstd::string::StringSliceAdditionalSpecFns;

verus! {

/// An environment-variable name: an immutable byte sequence. Two names are
/// the same entity exactly when their byte sequences are identical.
#[derive(Debug)]
pub struct EnvironmentVariable(Vec<u8>);

impl View for EnvironmentVariable {
    type V = Seq<u8>;

    closed spec fn view(&self) -> Seq<u8> {
        self.0@
    }
}

impl DeepView for EnvironmentVariable {
    type V = Seq<u8>;

    open spec fn deep_view(&self) -> Seq<u8> {
        self.view()
    }
}

impl EnvironmentVariable {
    /// Wraps a raw byte sequence, as read from a configuration-file record,
    /// without its record delimiter. The bytes are taken as they stand;
    /// rejecting forbidden bytes is the caller's duty.
    pub fn fromRawBytesWithoutADelimiter(environmentVariableRawBytes: Vec<u8>) -> (r: Self)
        ensures
            r@ == environmentVariableRawBytes@,
    {
        EnvironmentVariable(environmentVariableRawBytes)
    }

    /// A name written as program text, such as a built-in default.
    pub fn fromText(text: &str) -> (r: Self)
        ensures
            r@ == text.spec_bytes(),
    {
        EnvironmentVariable(text.as_bytes_vec())
    }

    /// The raw bytes of the name, for handing to the operating system.
    pub fn intoRawBytes(self) -> (r: Vec<u8>)
        ensures
            r@ == self@,
    {
        self.0
    }

    /// The raw bytes of the name, borrowed.
    pub fn asRawBytes(&self) -> (r: &Vec<u8>)
        ensures
            r@ == self@,
    {
        &self.0
    }
}

impl Clone for EnvironmentVariable {
    fn clone(&self) -> (r: Self)
        ensures
            r@ == self@,
    {
        EnvironmentVariable(slice_to_vec(self.0.as_slice()))
    }
}

impl PartialEq for EnvironmentVariable {
    fn eq(&self, other: &Self) -> (r: bool) {
        crate::bytes::bytes_equal(self.0.as_slice(), other.0.as_slice())
    }
}

impl vstd::std_specs::cmp::PartialEqSpecImpl for EnvironmentVariable {
    open spec fn obeys_eq_spec() -> bool {
        true
    }

    open spec fn eq_spec(&self, other: &Self) -> bool {
        self@ == other@
    }
}

} // verus!
