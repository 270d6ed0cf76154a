use vstd::prelude::*;
use vstd::utf8::decode_utf8;
use vstd::utf8::decode_utf8_encode_utf8;
use vstd::utf8::encode_utf8;
use vstd::utf8::encode_utf8_decode_utf8;
use vstd::utf8::encode_utf8_valid_utf8;
use vstd::utf8::valid_utf8;

verus! {

/// A kind of content that a resource can hold, owned, as read from a file:
/// text (`String`) or raw bytes (`Vec<u8>`).
///
/// `Content` is the borrowed form that callers see (`str` or `[u8]`); both
/// forms share one view.
pub trait ReadFromFile: Sized + View {
    type Content: ?Sized + View<V = Self::V>;

    /// The content that a file holding `bytes` reads as, or `None` where the
    /// bytes are not valid for this kind.
    spec fn decode(bytes: Seq<u8>) -> Option<Self::V>;

    /// The bytes of a file that holds `content`.
    spec fn encode(content: Self::V) -> Seq<u8>;

    /// A file written from some content reads back as that content.
    proof fn lemma_decode_encode(content: Self::V)
        ensures
            Self::decode(Self::encode(content)) == Some(content),
    ;

    /// Builds the content from the bytes read from a file.
    fn read_from_file(bytes: Vec<u8>) -> (r: Option<Self>)
        ensures
            r is None <==> Self::decode(bytes@) is None,
            r matches Some(c) ==> Self::decode(bytes@) == Some(c@),
    ;

    /// The borrowed form of the content.
    fn as_content(&self) -> (r: &Self::Content)
        ensures
            r@ == self@,
    ;

    /// A deep copy of the content.
    fn duplicate(&self) -> (r: Self)
        ensures
            r@ == self@,
    ;
}

/// Relies on `String::from_utf8`: it accepts exactly the valid UTF-8
/// sequences, and the string it returns holds the same bytes.
#[verifier::external_body]
fn string_from_utf8(bytes: Vec<u8>) -> (r: Option<String>)
    ensures
        r is Some <==> valid_utf8(bytes@),
        r matches Some(s) ==> encode_utf8(s@) == bytes@,
{
    String::from_utf8(bytes).ok()
}

impl ReadFromFile for String {
    type Content = str;

    open spec fn decode(bytes: Seq<u8>) -> Option<Seq<char>> {
        if valid_utf8(bytes) {
            Some(decode_utf8(bytes))
        } else {
            None
        }
    }

    open spec fn encode(content: Seq<char>) -> Seq<u8> {
        encode_utf8(content)
    }

    proof fn lemma_decode_encode(content: Seq<char>) {
        encode_utf8_valid_utf8(content);
        encode_utf8_decode_utf8(content);
    }

    fn read_from_file(bytes: Vec<u8>) -> (r: Option<String>) {
        let r = string_from_utf8(bytes);
        proof {
            if r is Some {
                decode_utf8_encode_utf8(bytes@);
                encode_utf8_decode_utf8(r->0@);
            }
        }
        r
    }

    fn as_content(&self) -> (r: &str) {
        self.as_str()
    }

    fn duplicate(&self) -> (r: String) {
        self.clone()
    }
}

impl ReadFromFile for Vec<u8> {
    type Content = [u8];

    open spec fn decode(bytes: Seq<u8>) -> Option<Seq<u8>> {
        Some(bytes)
    }

    open spec fn encode(content: Seq<u8>) -> Seq<u8> {
        content
    }

    proof fn lemma_decode_encode(content: Seq<u8>) {
    }

    fn read_from_file(bytes: Vec<u8>) -> (r: Option<Vec<u8>>) {
        Some(bytes)
    }

    fn as_content(&self) -> (r: &[u8]) {
        self.as_slice()
    }

    fn duplicate(&self) -> (r: Vec<u8>) {
        let r = self.clone();
        assert(r@ =~= self@);
        r
    }
}

} // verus!
