use vstd::prelude::*;
use vstd::string::*;
use vstd::utf8::{decode_utf8, encode_utf8, valid_utf8};

verus! {

/// Relies on `std::str::from_utf8`: it succeeds exactly on valid UTF-8 and
/// then gives the text that the bytes encode.
#[verifier::external_body]
fn utf8_to_string(bytes: &[u8]) -> (r: Option<String>)
    ensures
        r is Some <==> valid_utf8(bytes@),
        r is Some ==> r->0@ == decode_utf8(bytes@),
{
    match std::str::from_utf8(bytes) {
        Ok(text) => Some(text.to_owned()),
        Err(_) => None,
    }
}

/// The decoded source text that the tokenizer reads.
#[derive(Debug)]
pub struct ByteStream {
    buffer: String,
}

impl ByteStream {
    pub closed spec fn text(&self) -> Seq<char> {
        self.buffer@
    }

    pub fn new(buffer: String) -> (r: Self)
        ensures
            r.text() == buffer@,
    {
        ByteStream { buffer }
    }

    /// A stream over the text that `bytes` encode; bytes that are not valid
    /// UTF-8 give an empty text.
    pub fn from_bytes(bytes: &[u8]) -> (r: Self)
        ensures
            r.text() == if valid_utf8(bytes@) {
                decode_utf8(bytes@)
            } else {
                Seq::<char>::empty()
            },
    {
        match utf8_to_string(bytes) {
            Some(text) => ByteStream::new(text),
            None => ByteStream::new(String::new()),
        }
    }

    /// A stream over a string slice, which is always valid UTF-8.
    pub fn from_text(text: &str) -> (r: Self)
        ensures
            r.text() == text@,
    {
        ByteStream::new(text.to_owned())
    }

    /// The characters of the text, in order.
    pub fn chars(&self) -> (r: Vec<char>)
        ensures
            r@ == self.text(),
    {
        let s = self.buffer.as_str();
        let n = s.unicode_len();
        let mut r: Vec<char> = Vec::new();
        let mut i: usize = 0;
        while i < n
            invariant
                n == s@.len(),
                s@ == self.buffer@,
                i <= n,
                r@ == s@.take(i as int),
            decreases n - i,
        {
            r.push(s.get_char(i));
            i = i + 1;
            proof {
                assert(r@ =~= s@.take(i as int));
            }
        }
        proof {
            assert(s@.take(n as int) =~= s@);
        }
        r
    }

    /// The UTF-8 bytes of the text.
    pub fn bytes(&self) -> (r: &[u8])
        ensures
            r@ == encode_utf8(self.text()),
    {
        self.buffer.as_str().as_bytes()
    }
}

} // verus!
