//! Values that are wiped from memory when they are dropped.

use vstd::prelude::*;
use zeroize::Zeroize;

verus! {

broadcast use vstd::string::group_string_axioms;

/// `<String as zeroize::Zeroize>::zeroize`: overwrites the text with zeros and
/// leaves an empty string. That the old bytes are gone from memory is not
/// stated: no value holds them any longer.
#[verifier::external_body]
fn wipe_text(text: &mut String)
    ensures
        final(text)@ == Seq::<char>::empty(),
    opens_invariants none
    no_unwind
{
    text.zeroize()
}

/// `<Vec<u8> as zeroize::Zeroize>::zeroize`: overwrites the bytes with zeros
/// and leaves an empty vector. That the old bytes are gone from memory is not
/// stated: no value holds them any longer.
#[verifier::external_body]
fn wipe_bytes(bytes: &mut Vec<u8>)
    ensures
        final(bytes)@ == Seq::<u8>::empty(),
    opens_invariants none
    no_unwind
{
    bytes.zeroize()
}

/// `<[u8; 32] as zeroize::Zeroize>::zeroize`: overwrites the key with zeros.
#[verifier::external_body]
pub(crate) fn wipe_key(key: &mut [u8; 32])
    ensures
        forall|i: int| 0 <= i < 32 ==> final(key)@[i] == 0,
    opens_invariants none
    no_unwind
{
    key.zeroize()
}

/// Text that is wiped when it is dropped.
pub struct SecretText {
    text: String,
}

impl View for SecretText {
    type V = Seq<char>;

    closed spec fn view(&self) -> Seq<char> {
        self.text@
    }
}

impl SecretText {
    /// Takes charge of a text.
    pub fn new(text: String) -> (r: SecretText)
        ensures
            r@ == text@,
    {
        SecretText { text }
    }

    /// The text itself.
    pub fn as_str(&self) -> (r: &str)
        ensures
            r@ == self@,
    {
        self.text.as_str()
    }
}

impl Clone for SecretText {
    fn clone(&self) -> (r: Self)
        ensures
            r@ == self@,
    {
        SecretText { text: self.text.clone() }
    }
}

impl Drop for SecretText {
    fn drop(&mut self)
        opens_invariants none
        no_unwind
    {
        wipe_text(&mut self.text);
    }
}

/// Bytes that are wiped when they are dropped.
pub struct SecretBytes {
    bytes: Vec<u8>,
}

impl View for SecretBytes {
    type V = Seq<u8>;

    closed spec fn view(&self) -> Seq<u8> {
        self.bytes@
    }
}

impl SecretBytes {
    /// Takes charge of some bytes.
    pub fn new(bytes: Vec<u8>) -> (r: SecretBytes)
        ensures
            r@ == bytes@,
    {
        SecretBytes { bytes }
    }

    /// The bytes themselves.
    pub fn as_slice(&self) -> (r: &[u8])
        ensures
            r@ == self@,
    {
        self.bytes.as_slice()
    }
}

impl Drop for SecretBytes {
    fn drop(&mut self)
        opens_invariants none
        no_unwind
    {
        wipe_bytes(&mut self.bytes);
    }
}

} // verus!
