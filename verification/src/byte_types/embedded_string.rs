//! Strings that lie in a fixed number of bytes inside a larger structure.
//!
//! [`EmbeddedString`] is padded with zero bytes and ends at the first of
//! them. [`DynamicEmbeddedString`] records its length beside the buffer and
//! may hold any byte.

use std::borrow::Cow;
use vstd::prelude::*;
use vstd::slice::slice_subrange;
use vstd::slice::slice_to_vec;

verus! {

/// The index of the first zero byte of `bytes`, or their number when none of
/// them is zero.
pub open spec fn first_zero(bytes: Seq<u8>) -> nat
    decreases bytes.len(),
{
    if bytes.len() == 0 || bytes[0] == 0 {
        0
    } else {
        1 + first_zero(bytes.drop_first())
    }
}

/// `bytes` followed by as many zero bytes as it takes to fill `capacity`.
pub open spec fn zero_padded(bytes: Seq<u8>, capacity: nat) -> Seq<u8> {
    bytes + Seq::new((capacity - bytes.len()) as nat, |i: int| 0u8)
}

/// The lowercase hexadecimal digit of a number below sixteen.
pub open spec fn hex_digit(nibble: int) -> char {
    if nibble < 10 {
        (0x30 + nibble) as char
    } else {
        (0x61 + nibble - 10) as char
    }
}

/// Two lowercase hexadecimal digits for each byte, the high half first.
pub open spec fn hex_lower(bytes: Seq<u8>) -> Seq<char> {
    Seq::new(
        2 * bytes.len(),
        |i: int|
            if i % 2 == 0 {
                hex_digit(bytes[i / 2] as int / 16)
            } else {
                hex_digit(bytes[i / 2] as int % 16)
            },
    )
}

/// The text that `String::from_utf8_lossy` makes of `bytes`: their decoding
/// as UTF-8 with each invalid sequence replaced by U+FFFD.
pub uninterp spec fn utf8_lossy(bytes: Seq<u8>) -> Seq<char>;

/// What marks the first zero byte: no byte before it is zero, and it is
/// either a zero byte or the end.
pub proof fn lemma_first_zero(bytes: Seq<u8>)
    ensures
        first_zero(bytes) <= bytes.len(),
        forall|i: int| 0 <= i < first_zero(bytes) ==> bytes[i] != 0,
        first_zero(bytes) < bytes.len() ==> bytes[first_zero(bytes) as int] == 0,
    decreases bytes.len(),
{
    if bytes.len() != 0 && bytes[0] != 0 {
        let rest = bytes.drop_first();
        lemma_first_zero(rest);
        assert forall|i: int| 0 <= i < first_zero(bytes) implies bytes[i] != 0 by {
            if i > 0 {
                assert(bytes[i] == rest[i - 1]);
            }
        }
        assert(first_zero(bytes) < bytes.len() ==> bytes[first_zero(bytes) as int] == rest[
            first_zero(rest) as int
        ]);
    }
}

/// A prefix without a zero byte that is followed by a zero byte, or by
/// nothing, ends at the first zero.
pub proof fn lemma_first_zero_is(bytes: Seq<u8>, end: nat)
    requires
        end <= bytes.len(),
        forall|i: int| 0 <= i < end ==> bytes[i] != 0,
        end < bytes.len() ==> bytes[end as int] == 0,
    ensures
        first_zero(bytes) == end,
{
    lemma_first_zero(bytes);
    let found = first_zero(bytes);
    if found < end {
        assert(bytes[found as int] != 0);
    }
}

/// `core::str::from_utf8`: the bytes as a string slice exactly when they are
/// valid UTF-8; the slice then spells the same bytes.
#[verifier::external_body]
fn str_from_utf8(bytes: &[u8]) -> (text: Option<&str>)
    ensures
        text is Some <==> vstd::utf8::valid_utf8(bytes@),
        text matches Some(s) ==> vstd::utf8::encode_utf8(s@) == bytes@,
{
    core::str::from_utf8(bytes).ok()
}

/// `String::from_utf8_lossy`: the bytes as text, with each invalid sequence
/// replaced by U+FFFD. Valid UTF-8 comes back as the text it encodes.
#[verifier::external_body]
fn string_from_utf8_lossy(bytes: &[u8]) -> (text: Cow<'_, str>)
    ensures
        text@ == utf8_lossy(bytes@),
        vstd::utf8::valid_utf8(bytes@) ==> text@ == vstd::utf8::decode_utf8(bytes@),
{
    String::from_utf8_lossy(bytes)
}

/// `hex::encode`: two lowercase hexadecimal digits for each byte, the high
/// half first.
#[verifier::external_body]
fn hex_encode(bytes: &[u8]) -> (text: String)
    ensures
        text@ == hex_lower(bytes@),
{
    hex::encode(bytes)
}

/// The bytes as text, if they are valid UTF-8.
fn text_of(content: &[u8]) -> (text: Option<&str>)
    ensures
        text is Some <==> vstd::utf8::valid_utf8(content@),
        text matches Some(s) ==> s@ == vstd::utf8::decode_utf8(content@),
{
    let text = str_from_utf8(content);
    proof {
        if let Some(s) = text {
            vstd::utf8::encode_utf8_decode_utf8(s@);
        }
    }
    text
}

/// The bytes for display: as text if they are valid UTF-8, else as lowercase
/// hexadecimal digits.
fn display_text(content: &[u8]) -> (text: String)
    ensures
        vstd::utf8::valid_utf8(content@) ==> text@ == vstd::utf8::decode_utf8(content@),
        !vstd::utf8::valid_utf8(content@) ==> text@ == hex_lower(content@),
{
    match text_of(content) {
        Some(s) => s.to_owned(),
        None => hex_encode(content),
    }
}

/// What both kinds of embedded string offer.
pub trait EmbeddedStringCommon {
    /// The whole buffer, padding included.
    spec fn spec_raw_data(&self) -> Seq<u8>;

    /// The number of bytes of content.
    spec fn spec_len(&self) -> nat;

    /// The content lies within the buffer.
    spec fn wf(&self) -> bool;

    /// The content: the buffer without its padding.
    spec fn spec_data(&self) -> Seq<u8>;

    /// The content of a well-formed string is the start of its buffer, as
    /// long as `spec_len` says.
    proof fn lemma_wf(&self)
        requires
            self.wf(),
        ensures
            self.spec_len() <= self.spec_raw_data().len(),
            self.spec_data() == self.spec_raw_data().take(self.spec_len() as int),
    ;

    /// The number of bytes of content.
    fn len(&self) -> (n: usize)
        ensures
            n == self.spec_len(),
    ;

    /// The whole buffer, padding included.
    fn raw_data(&self) -> (raw: &[u8])
        ensures
            raw@ == self.spec_raw_data(),
    ;

    /// The content, never the padding.
    fn data(&self) -> (content: &[u8])
        requires
            self.wf(),
        ensures
            content@ == self.spec_data(),
    ;

    /// The content as text, if it is valid UTF-8.
    fn as_str(&self) -> (text: Option<&str>)
        requires
            self.wf(),
        ensures
            text is Some <==> vstd::utf8::valid_utf8(self.spec_data()),
            text matches Some(s) ==> s@ == vstd::utf8::decode_utf8(self.spec_data()),
    ;

    /// The content as text, with U+FFFD in place of what is not valid UTF-8.
    fn as_str_lossy(&self) -> (text: Cow<'_, str>)
        requires
            self.wf(),
        ensures
            text@ == utf8_lossy(self.spec_data()),
            vstd::utf8::valid_utf8(self.spec_data()) ==> text@ == vstd::utf8::decode_utf8(
                self.spec_data(),
            ),
    ;

    /// The content for display: as text if it is valid UTF-8, else as
    /// lowercase hexadecimal digits.
    fn to_text(&self) -> (text: String)
        requires
            self.wf(),
        ensures
            vstd::utf8::valid_utf8(self.spec_data()) ==> text@ == vstd::utf8::decode_utf8(
                self.spec_data(),
            ),
            !vstd::utf8::valid_utf8(self.spec_data()) ==> text@ == hex_lower(self.spec_data()),
    ;
}

/// Making an embedded string from its content.
pub trait EmbeddedStringMake: Sized {
    /// The number of bytes that the buffer holds.
    spec fn spec_capacity() -> nat;

    /// This string is what `from_slice` makes of `bytes`.
    spec fn made_from(&self, bytes: Seq<u8>) -> bool;

    /// The string with the content `slice`, or nothing if `slice` is longer
    /// than the buffer.
    fn from_slice(slice: &[u8]) -> (made: Option<Self>)
        ensures
            made is Some <==> slice@.len() <= Self::spec_capacity(),
            made matches Some(s) ==> s.made_from(slice@),
    ;
}

/// A string in a buffer of `SIZE` bytes that ends at the first zero byte, or
/// fills the buffer when it has none.
#[derive(Copy, Clone, Debug)]
pub struct EmbeddedString<const SIZE: usize>(pub [u8; SIZE]);

/// A string in a buffer of `CAPACITY` bytes that records its own length and
/// may hold any byte.
#[derive(Copy, Clone, Debug)]
pub struct DynamicEmbeddedString<const CAPACITY: usize> {
    pub buffer: [u8; CAPACITY],
    pub length: usize,
}

impl<const SIZE: usize> View for EmbeddedString<SIZE> {
    type V = Seq<u8>;

    /// The content.
    open spec fn view(&self) -> Seq<u8> {
        self.0@.take(first_zero(self.0@) as int)
    }
}

impl<const CAPACITY: usize> View for DynamicEmbeddedString<CAPACITY> {
    type V = Seq<u8>;

    /// The content.
    open spec fn view(&self) -> Seq<u8> {
        self.buffer@.take(self.length as int)
    }
}

impl<const SIZE: usize> EmbeddedStringMake for EmbeddedString<SIZE> {
    open spec fn spec_capacity() -> nat {
        SIZE as nat
    }

    open spec fn made_from(&self, bytes: Seq<u8>) -> bool {
        self.0@ == zero_padded(bytes, SIZE as nat)
    }

    /// The content of the result ends at the first zero byte of `slice`, so
    /// it is all of `slice` when that holds none.
    fn from_slice(slice: &[u8]) -> (made: Option<Self>)
        ensures
            made matches Some(s) ==> s@ == slice@.take(first_zero(slice@) as int),
            made matches Some(s) ==> (!slice@.contains(0) ==> s@ == slice@),
    {
        let length = slice.len();
        if length > SIZE {
            None
        } else {
            let mut result = Self([0; SIZE]);
            let mut i: usize = 0;
            while i < length
                invariant
                    length == slice@.len(),
                    length <= SIZE,
                    i <= length,
                    forall|k: int| 0 <= k < i ==> result.0@[k] == slice@[k],
                    forall|k: int| i <= k < SIZE ==> result.0@[k] == 0,
                decreases length - i,
            {
                result.0[i] = slice[i];
                i += 1;
            }
            proof {
                assert(result.0@ =~= zero_padded(slice@, SIZE as nat));
                lemma_embedded_string_truncates(result, slice@);
                if !slice@.contains(0) {
                    lemma_embedded_string_holds(result, slice@);
                }
            }
            Some(result)
        }
    }
}

impl<const CAPACITY: usize> EmbeddedStringMake for DynamicEmbeddedString<CAPACITY> {
    open spec fn spec_capacity() -> nat {
        CAPACITY as nat
    }

    open spec fn made_from(&self, bytes: Seq<u8>) -> bool {
        &&& self.buffer@ == zero_padded(bytes, CAPACITY as nat)
        &&& self.length == bytes.len()
    }

    /// The content of the result is all of `slice`, whatever bytes it
    /// holds.
    fn from_slice(slice: &[u8]) -> (made: Option<Self>)
        ensures
            made matches Some(s) ==> s.wf() && s@ == slice@,
    {
        let length = slice.len();
        if length > CAPACITY {
            None
        } else {
            let mut result = Self { buffer: [0; CAPACITY], length };
            let mut i: usize = 0;
            while i < length
                invariant
                    length == slice@.len(),
                    length <= CAPACITY,
                    result.length == length,
                    i <= length,
                    forall|k: int| 0 <= k < i ==> result.buffer@[k] == slice@[k],
                    forall|k: int| i <= k < CAPACITY ==> result.buffer@[k] == 0,
                decreases length - i,
            {
                result.buffer[i] = slice[i];
                i += 1;
            }
            proof {
                assert(result.buffer@ =~= zero_padded(slice@, CAPACITY as nat));
                lemma_dynamic_embedded_string_holds(result, slice@);
            }
            Some(result)
        }
    }
}

impl<const SIZE: usize> EmbeddedStringCommon for EmbeddedString<SIZE> {
    open spec fn spec_raw_data(&self) -> Seq<u8> {
        self.0@
    }

    open spec fn spec_len(&self) -> nat {
        first_zero(self.0@)
    }

    open spec fn spec_data(&self) -> Seq<u8> {
        self@
    }

    open spec fn wf(&self) -> bool {
        true
    }

    proof fn lemma_wf(&self) {
        lemma_first_zero(self.0@);
    }

    /// The index of the first zero byte, or `SIZE` when there is none.
    fn len(&self) -> (n: usize)
        ensures
            n <= SIZE,
            forall|i: int| 0 <= i < n ==> self.0@[i] != 0,
            n < SIZE ==> self.0@[n as int] == 0,
    {
        let mut i: usize = 0;
        while i < SIZE && self.0[i] != 0
            invariant
                i <= SIZE,
                forall|k: int| 0 <= k < i ==> self.0@[k] != 0,
            decreases SIZE - i,
        {
            i += 1;
        }
        proof {
            lemma_first_zero_is(self.0@, i as nat);
        }
        i
    }

    fn raw_data(&self) -> (raw: &[u8]) {
        &self.0
    }

    fn data(&self) -> (content: &[u8]) {
        let end = self.len();
        slice_subrange(self.raw_data(), 0, end)
    }

    fn as_str(&self) -> (text: Option<&str>) {
        text_of(self.data())
    }

    fn as_str_lossy(&self) -> (text: Cow<'_, str>) {
        string_from_utf8_lossy(self.data())
    }

    fn to_text(&self) -> (text: String) {
        display_text(self.data())
    }
}

impl<const CAPACITY: usize> EmbeddedStringCommon for DynamicEmbeddedString<CAPACITY> {
    open spec fn spec_raw_data(&self) -> Seq<u8> {
        self.buffer@
    }

    open spec fn spec_len(&self) -> nat {
        self.length as nat
    }

    open spec fn spec_data(&self) -> Seq<u8> {
        self@
    }

    open spec fn wf(&self) -> bool {
        self.length <= CAPACITY
    }

    proof fn lemma_wf(&self) {
    }

    fn len(&self) -> (n: usize) {
        self.length
    }

    fn raw_data(&self) -> (raw: &[u8]) {
        &self.buffer
    }

    fn data(&self) -> (content: &[u8]) {
        slice_subrange(self.raw_data(), 0, self.length)
    }

    fn as_str(&self) -> (text: Option<&str>) {
        text_of(self.data())
    }

    fn as_str_lossy(&self) -> (text: Cow<'_, str>) {
        string_from_utf8_lossy(self.data())
    }

    fn to_text(&self) -> (text: String) {
        display_text(self.data())
    }
}

/// The content of an embedded string outside its buffer: text where it is
/// valid UTF-8, bytes where it is not.
#[derive(Debug)]
pub enum EmbeddedStringData {
    String(String),
    Bytes(Vec<u8>),
}

impl EmbeddedStringData {
    /// The bytes of the content: those of the text in UTF-8, or the bytes
    /// themselves.
    pub open spec fn spec_bytes(&self) -> Seq<u8> {
        match self {
            EmbeddedStringData::String(s) => vstd::utf8::encode_utf8(s@),
            EmbeddedStringData::Bytes(b) => b@,
        }
    }

    /// The bytes of the content.
    pub fn as_bytes(&self) -> (bytes: &[u8])
        ensures
            bytes@ == self.spec_bytes(),
    {
        match self {
            EmbeddedStringData::Bytes(b) => b.as_slice(),
            EmbeddedStringData::String(s) => s.as_str().as_bytes(),
        }
    }

    /// The content of `s`: as text if it is valid UTF-8, else as bytes.
    pub fn from<T: EmbeddedStringCommon>(s: T) -> (content: Self)
        requires
            s.wf(),
        ensures
            content.spec_bytes() == s.spec_data(),
            content is String <==> vstd::utf8::valid_utf8(s.spec_data()),
    {
        if let Some(text) = s.as_str() {
            proof {
                vstd::utf8::decode_utf8_encode_utf8(s.spec_data());
            }
            EmbeddedStringData::String(text.to_owned())
        } else {
            EmbeddedStringData::Bytes(slice_to_vec(s.data()))
        }
    }
}

impl<const SIZE: usize> EmbeddedString<SIZE> {
    /// The embedded string with the content of `value`, or an empty message
    /// if that is longer than `SIZE` bytes.
    pub fn try_from(value: EmbeddedStringData) -> (made: Result<Self, String>)
        ensures
            made is Ok <==> value.spec_bytes().len() <= SIZE,
            made matches Ok(s) ==> s.made_from(value.spec_bytes()),
            made matches Err(message) ==> message@.len() == 0,
    {
        match Self::from_slice(value.as_bytes()) {
            Some(s) => Ok(s),
            None => Err(String::new()),
        }
    }
}

impl<const CAPACITY: usize> DynamicEmbeddedString<CAPACITY> {
    /// The embedded string with the content of `value`, or an empty message
    /// if that is longer than `CAPACITY` bytes.
    pub fn try_from(value: EmbeddedStringData) -> (made: Result<Self, String>)
        ensures
            made is Ok <==> value.spec_bytes().len() <= CAPACITY,
            made matches Ok(s) ==> s.made_from(value.spec_bytes()),
            made matches Err(message) ==> message@.len() == 0,
    {
        match Self::from_slice(value.as_bytes()) {
            Some(s) => Ok(s),
            None => Err(String::new()),
        }
    }
}

/// A fixed string made from content without a zero byte holds exactly that
/// content.
pub proof fn lemma_embedded_string_holds<const SIZE: usize>(
    made: EmbeddedString<SIZE>,
    bytes: Seq<u8>,
)
    requires
        bytes.len() <= SIZE,
        made.made_from(bytes),
        !bytes.contains(0),
    ensures
        made.spec_data() == bytes,
        made.spec_len() == bytes.len(),
{
    assert forall|i: int| 0 <= i < bytes.len() implies made.0@[i] != 0 by {
        assert(bytes.contains(bytes[i]));
    }
    lemma_first_zero_is(made.0@, bytes.len());
    assert(made.0@.take(bytes.len() as int) =~= bytes);
}

/// A fixed string made from content with a zero byte ends at the first of
/// them.
pub proof fn lemma_embedded_string_truncates<const SIZE: usize>(
    made: EmbeddedString<SIZE>,
    bytes: Seq<u8>,
)
    requires
        bytes.len() <= SIZE,
        made.made_from(bytes),
    ensures
        made.spec_len() == first_zero(bytes),
        made.spec_data() == bytes.take(first_zero(bytes) as int),
{
    lemma_first_zero(bytes);
    let end = first_zero(bytes);
    lemma_first_zero_is(made.0@, end);
    assert(made.0@.take(end as int) =~= bytes.take(end as int));
}

/// A dynamic string made from any content that fits holds exactly that
/// content, zero bytes included.
pub proof fn lemma_dynamic_embedded_string_holds<const CAPACITY: usize>(
    made: DynamicEmbeddedString<CAPACITY>,
    bytes: Seq<u8>,
)
    requires
        bytes.len() <= CAPACITY,
        made.made_from(bytes),
    ensures
        made.wf(),
        made.spec_data() == bytes,
        made.spec_len() == bytes.len(),
{
    assert(made.buffer@.take(bytes.len() as int) =~= bytes);
}

} // verus!
