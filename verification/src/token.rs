//! Random tokens: the namespace token of a project and the identifiers of
//! scenes and stages.

use vstd::prelude::*;

verus! {

/// The length of a project's namespace token.
pub const PREFIX_HASH_LEN: usize = 4;

/// The length of the identifier of a scene or a stage.
pub const NANOID_LENGTH: usize = 8;

/// The characters that a token is drawn from: digits and lower-case letters.
pub open spec fn is_token_char(c: char) -> bool {
    ('0' <= c && c <= '9') || ('a' <= c && c <= 'z')
}

/// A token of `len` characters.
pub open spec fn is_token(s: Seq<char>, len: int) -> bool {
    &&& s.len() == len
    &&& forall|i: int| 0 <= i < s.len() ==> is_token_char(#[trigger] s[i])
}

/// A token takes one byte for each character.
pub proof fn lemma_token_bytes(s: Seq<char>, len: int)
    requires
        is_token(s, len),
    ensures
        vstd::utf8::encode_utf8(s).len() == len,
{
    assert(vstd::utf8::is_ascii_chars(s)) by {
        assert forall|i: int| 0 <= i < s.len() implies '\0' <= #[trigger] s[i] <= '\u{7f}' by {
            assert(is_token_char(s[i]));
        }
    }
    vstd::utf8::is_ascii_chars_encode_utf8(s);
}

/// The alphabet of the tokens, in order.
pub fn token_alphabet() -> (r: Vec<char>)
    ensures
        r@.len() == 36,
        forall|i: int| 0 <= i < r@.len() ==> is_token_char(#[trigger] r@[i]),
{
    vec![
        '0', '1', '2', '3', '4', '5', '6', '7', '8', '9', 'a', 'b', 'c', 'd', 'e', 'f', 'g', 'h',
        'i', 'j', 'k', 'l', 'm', 'n', 'o', 'p', 'q', 'r', 's', 't', 'u', 'v', 'w', 'x', 'y', 'z',
    ]
}

/// Calls `nanoid::format` with the generator `nanoid::rngs::default`. For an
/// alphabet of one to 255 one-byte characters and a positive size, the outside
/// function pushes characters of the alphabet until the text has `size` bytes:
/// the result has `size` characters, each of the alphabet. Which ones is left
/// to chance. The generator stops the program where the system has no
/// entropy to give.
#[verifier::external_body]
fn random_text(alphabet: &Vec<char>, size: usize) -> (id: String)
    requires
        0 < alphabet@.len() <= 255,
        forall|i: int| 0 <= i < alphabet@.len() ==> '\0' <= #[trigger] alphabet@[i] <= '\u{7f}',
        0 < size <= 0xffff,
    ensures
        id@.len() == size,
        forall|i: int| 0 <= i < id@.len() ==> alphabet@.contains(#[trigger] id@[i]),
{
    nanoid::format(nanoid::rngs::default, alphabet.as_slice(), size)
}

/// A fresh random token of `size` characters.
pub fn new_token(size: usize) -> (id: String)
    requires
        0 < size <= 0xffff,
    ensures
        is_token(id@, size as int),
{
    let alphabet = token_alphabet();
    let id = random_text(&alphabet, size);
    proof {
        assert forall|i: int| 0 <= i < id@.len() implies is_token_char(#[trigger] id@[i]) by {
            assert(alphabet@.contains(id@[i]));
            let j = choose|j: int| 0 <= j < alphabet@.len() && alphabet@[j] == id@[i];
            assert(is_token_char(alphabet@[j]));
        }
    }
    id
}

} // verus!
