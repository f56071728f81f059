//! The key handle: the one string that carries a file's key and nonce to the
//! caller, `base64(nonce)::base64(key)`.

use base64::Engine;
use vstd::prelude::*;

verus! {

/// What padded standard-alphabet base64 encoding gives for `bytes`.
pub uninterp spec fn base64_of(bytes: Seq<u8>) -> Seq<char>;

/// A character of the standard base64 alphabet, or the padding `=`.
pub open spec fn is_base64_char(c: char) -> bool {
    ||| 'A' <= c <= 'Z'
    ||| 'a' <= c <= 'z'
    ||| '0' <= c <= '9'
    ||| c == '+'
    ||| c == '/'
    ||| c == '='
}

/// A non-empty run of base64 characters that starts with an alphabet
/// character and has padding `=` only at the end.
pub open spec fn is_base64_segment(s: Seq<char>) -> bool {
    &&& s.len() > 0
    &&& s[0] != '='
    &&& forall|i: int| 0 <= i < s.len() ==> is_base64_char(#[trigger] s[i])
    &&& forall|i: int, j: int|
        #![trigger s[i], s[j]]
        0 <= i < j < s.len() && s[i] == '=' ==> s[j] == '='
}

pub open spec fn no_colon(s: Seq<char>) -> bool {
    forall|i: int| 0 <= i < s.len() ==> s[i] != ':'
}

pub open spec fn delimiter() -> Seq<char> {
    seq![':', ':']
}

/// The handle for `nonce` and `key`.
pub open spec fn handle_of(nonce: Seq<u8>, key: Seq<u8>) -> Seq<char> {
    base64_of(nonce) + delimiter() + base64_of(key)
}

/// `handle` carries `nonce` and `key`: both are non-empty, and the handle is
/// their two encodings, each a base64 segment, around the delimiter.
pub open spec fn encodes(handle: Seq<char>, nonce: Seq<u8>, key: Seq<u8>) -> bool {
    &&& nonce.len() > 0
    &&& key.len() > 0
    &&& is_base64_segment(base64_of(nonce))
    &&& is_base64_segment(base64_of(key))
    &&& handle == handle_of(nonce, key)
}

/// `handle` is two base64 segments joined by the delimiter.
pub open spec fn is_handle_shaped(handle: Seq<char>) -> bool {
    exists|a: Seq<char>, b: Seq<char>|
        is_base64_segment(a) && is_base64_segment(b) && handle == #[trigger] (a + delimiter() + b)
}

/// Any handle that carries a nonce and key has the shape of two base64
/// segments around the delimiter.
pub proof fn lemma_encoded_handle_shaped(handle: Seq<char>, nonce: Seq<u8>, key: Seq<u8>)
    requires
        encodes(handle, nonce, key),
    ensures
        is_handle_shaped(handle),
{
    let a = base64_of(nonce);
    let b = base64_of(key);
    assert(is_base64_segment(a) && is_base64_segment(b) && handle == a + delimiter() + b);
}

/// `handle` is the delimiter with a colon-free text before it, and one of the
/// two sides is empty.
pub open spec fn has_empty_segment(handle: Seq<char>) -> bool {
    exists|a: Seq<char>, b: Seq<char>|
        no_colon(a) && handle == #[trigger] (a + delimiter() + b) && (a.len() == 0 || b.len()
            == 0)
}

proof fn lemma_segment_no_colon(s: Seq<char>)
    requires
        is_base64_segment(s),
    ensures
        no_colon(s),
{
    assert forall|i: int| 0 <= i < s.len() implies s[i] != ':' by {
        assert(is_base64_char(s[i]));
    }
}

/// What decoding `handle` owes: the one non-empty nonce and key that it
/// carries, or `InvalidKeyMaterial` when it carries none.
pub open spec fn decodes_to(
    handle: Seq<char>,
    r: Result<(Seq<u8>, Seq<u8>), KeyMaterialError>,
) -> bool {
    match r {
        Ok((nonce, key)) => {
            &&& encodes(handle, nonce, key)
            &&& forall|n: Seq<u8>, k: Seq<u8>| #[trigger] encodes(handle, n, k) ==> n == nonce && k == key
        },
        Err(_) => forall|n: Seq<u8>, k: Seq<u8>| !#[trigger] encodes(handle, n, k),
    }
}

/// Relies on `base64::engine::general_purpose::STANDARD.encode`: padded base64
/// over the standard alphabet, a function of the bytes alone, written with
/// that alphabet and `=` only, padding only at the end (never first: the
/// first character encodes the top six bits of the first byte), and empty
/// exactly for no bytes. It panics when the encoded length overflows `usize`.
#[verifier::external_body]
fn encode_base64(bytes: &[u8]) -> (r: String)
    requires
        bytes@.len() <= usize::MAX / 2,
    ensures
        r@ == base64_of(bytes@),
        forall|i: int| 0 <= i < r@.len() ==> is_base64_char(#[trigger] r@[i]),
        forall|i: int, j: int|
            #![trigger r@[i], r@[j]]
            0 <= i < j < r@.len() && r@[i] == '=' ==> r@[j] == '=',
        r@.len() == 0 <==> bytes@.len() == 0,
        bytes@.len() > 0 ==> r@[0] != '=',
{
    base64::engine::general_purpose::STANDARD.encode(bytes)
}

/// Relies on `base64::engine::general_purpose::STANDARD.decode`: that engine
/// requires canonical padding and rejects non-zero trailing bits, so it
/// accepts exactly the strings that `encode` writes, and returns the one byte
/// string each of them encodes.
#[verifier::external_body]
fn decode_base64(text: &str) -> (r: Option<Vec<u8>>)
    ensures
        r matches Some(b) ==> base64_of(b@) == text@,
        r matches Some(b) ==> forall|c: Seq<u8>| #[trigger] base64_of(c) == text@ ==> c == b@,
        r is None ==> forall|c: Seq<u8>| #[trigger] base64_of(c) != text@,
{
    base64::engine::general_purpose::STANDARD.decode(text).ok()
}

#[derive(Clone, Copy, Debug, PartialEq, Eq, Structural)]
pub enum KeyMaterialError {
    /// The handle is not two non-empty base64 segments around `::`.
    InvalidKeyMaterial,
}

/// A file's key and the nonce it was encrypted with.
pub struct KeyMaterial {
    pub key: Vec<u8>,
    pub nonce: Vec<u8>,
}

pub open spec fn material_view(r: Result<KeyMaterial, KeyMaterialError>) -> Result<
    (Seq<u8>, Seq<u8>),
    KeyMaterialError,
> {
    match r {
        Ok(m) => Ok((m.nonce@, m.key@)),
        Err(e) => Err(e),
    }
}

/// Two colon-free prefixes that are each followed by the delimiter in the
/// same string are the same prefix.
proof fn lemma_first_delimiter(
    s: Seq<char>,
    a1: Seq<char>,
    b1: Seq<char>,
    a2: Seq<char>,
    b2: Seq<char>,
)
    requires
        no_colon(a1),
        no_colon(a2),
        s == a1 + delimiter() + b1,
        s == a2 + delimiter() + b2,
    ensures
        a1 == a2,
        b1 == b2,
{
    if a1.len() < a2.len() {
        assert(s[a1.len() as int] == ':');
        assert(a2[a1.len() as int] == s[a1.len() as int]);
    } else if a2.len() < a1.len() {
        assert(s[a2.len() as int] == ':');
        assert(a1[a2.len() as int] == s[a2.len() as int]);
    }
    assert(a1 =~= s.subrange(0, a1.len() as int));
    assert(a2 =~= s.subrange(0, a2.len() as int));
    assert(b1 =~= s.subrange(a1.len() as int + 2, s.len() as int));
    assert(b2 =~= s.subrange(a2.len() as int + 2, s.len() as int));
}

/// Splits `s` at its first `:`, which must open the delimiter `::`.
fn split_at_delimiter(s: &str) -> (r: Option<(&str, &str)>)
    ensures
        r matches Some((a, b)) ==> no_colon(a@) && s@ == a@ + delimiter() + b@,
        r is None ==> forall|a: Seq<char>, b: Seq<char>|
            no_colon(a) ==> s@ != #[trigger] (a + delimiter() + b),
{
    let len = s.unicode_len();
    let mut i: usize = 0;
    while i < len
        invariant
            i <= len,
            len == s@.len(),
            forall|j: int| 0 <= j < i ==> s@[j] != ':',
        decreases len - i,
    {
        if s.get_char(i) == ':' {
            if i + 1 < len && s.get_char(i + 1) == ':' {
                let a = s.substring_char(0, i);
                let b = s.substring_char(i + 2, len);
                assert(s@ =~= a@ + delimiter() + b@);
                return Some((a, b));
            }
            assert forall|a: Seq<char>, b: Seq<char>|
                no_colon(a) implies s@ != #[trigger] (a + delimiter() + b) by {
                if s@ == a + delimiter() + b {
                    assert(s@[a.len() as int] == ':');
                    if a.len() > i {
                        assert(a[i as int] == s@[i as int]);
                    }
                    assert(s@[a.len() as int + 1] == ':');
                }
            }
            return None;
        }
        i = i + 1;
    }
    assert forall|a: Seq<char>, b: Seq<char>|
        no_colon(a) implies s@ != #[trigger] (a + delimiter() + b) by {
        if s@ == a + delimiter() + b {
            assert(s@[a.len() as int] == ':');
        }
    }
    None
}

/// Whether `s` is a base64 segment.
fn is_segment(s: &str) -> (r: bool)
    ensures
        r == is_base64_segment(s@),
{
    let len = s.unicode_len();
    if len == 0 || s.get_char(0) == '=' {
        return false;
    }
    let mut pad_from: usize = len;
    let mut i: usize = 0;
    while i < len
        invariant
            len == s@.len(),
            i <= len,
            pad_from == len || pad_from < i,
            forall|j: int| 0 <= j < i ==> is_base64_char(#[trigger] s@[j]),
            forall|j: int| 0 <= j < i && j < pad_from ==> #[trigger] s@[j] != '=',
            forall|j: int| pad_from <= j < i ==> #[trigger] s@[j] == '=',
        decreases len - i,
    {
        let c = s.get_char(i);
        let in_alphabet = ('A' <= c && c <= 'Z') || ('a' <= c && c <= 'z') || ('0' <= c && c
            <= '9') || c == '+' || c == '/' || c == '=';
        if !in_alphabet {
            return false;
        }
        if c == '=' {
            if pad_from == len {
                pad_from = i;
            }
        } else if pad_from != len {
            assert(s@[pad_from as int] == '=');
            return false;
        }
        i = i + 1;
    }
    assert forall|a: int, b: int|
        #![trigger s@[a], s@[b]]
        0 <= a < b < s@.len() && s@[a] == '=' implies s@[b] == '=' by {
        if a < pad_from {
            assert(s@[a] != '=');
        }
    }
    true
}

impl KeyMaterial {
    /// The handle that carries this key and nonce.
    pub fn encode(&self) -> (r: String)
        requires
            self.nonce@.len() <= usize::MAX / 2,
            self.key@.len() <= usize::MAX / 2,
        ensures
            r@ == handle_of(self.nonce@, self.key@),
            self.nonce@.len() > 0 && self.key@.len() > 0 ==> encodes(
                r@,
                self.nonce@,
                self.key@,
            ) && is_handle_shaped(r@),
    {
        let mut handle = encode_base64(self.nonce.as_slice());
        let ghost nonce_text = handle@;
        handle.append("::");
        let key_text = encode_base64(self.key.as_slice());
        handle.append(key_text.as_str());
        proof {
            reveal_strlit("::");
            assert(handle@ =~= handle_of(self.nonce@, self.key@));
            if self.nonce@.len() > 0 && self.key@.len() > 0 {
                lemma_encoded_handle_shaped(handle@, self.nonce@, self.key@);
            }

        }
        handle
    }

    /// Reads a handle back into its key and nonce; any handle that is not
    /// two non-empty base64 segments around `::` is `InvalidKeyMaterial`.
    pub fn decode(handle: &str) -> (r: Result<KeyMaterial, KeyMaterialError>)
        ensures
            decodes_to(handle@, material_view(r)),
            has_empty_segment(handle@) ==> r is Err,
    {
        let (nonce_text, key_text) = match split_at_delimiter(handle) {
            Some(parts) => parts,
            None => {
                assert(!has_empty_segment(handle@));
                assert forall|nonce: Seq<u8>, key: Seq<u8>|
                    !#[trigger] encodes(handle@, nonce, key) by {
                    if encodes(handle@, nonce, key) {
                        lemma_segment_no_colon(base64_of(nonce));
                        assert(handle@ == base64_of(nonce) + delimiter() + base64_of(key));
                    }
                }
                return Err(KeyMaterialError::InvalidKeyMaterial);
            },
        };
        assert forall|nonce: Seq<u8>, key: Seq<u8>| #[trigger]
            encodes(handle@, nonce, key) implies base64_of(nonce) == nonce_text@ && base64_of(key)
            == key_text@ by {
            lemma_segment_no_colon(base64_of(nonce));
            lemma_first_delimiter(
                handle@,
                nonce_text@,
                key_text@,
                base64_of(nonce),
                base64_of(key),
            );
        }
        assert(has_empty_segment(handle@) ==> nonce_text@.len() == 0 || key_text@.len() == 0) by {
            if has_empty_segment(handle@) {
                let (a, b) = choose|a: Seq<char>, b: Seq<char>|
                    no_colon(a) && handle@ == #[trigger] (a + delimiter() + b) && (a.len() == 0
                        || b.len() == 0);
                lemma_first_delimiter(handle@, nonce_text@, key_text@, a, b);
            }
        }
        if !is_segment(nonce_text) || !is_segment(key_text) {
            return Err(KeyMaterialError::InvalidKeyMaterial);
        }
        let nonce = match decode_base64(nonce_text) {
            Some(n) => n,
            None => return Err(KeyMaterialError::InvalidKeyMaterial),
        };
        let key = match decode_base64(key_text) {
            Some(k) => k,
            None => return Err(KeyMaterialError::InvalidKeyMaterial),
        };
        if nonce.len() == 0 || key.len() == 0 {
            return Err(KeyMaterialError::InvalidKeyMaterial);
        }
        Ok(KeyMaterial { key, nonce })
    }
}

/// Decoding the handle of a non-empty key and nonce gives back that key and
/// nonce.
pub proof fn lemma_handle_round_trip(
    nonce: Seq<u8>,
    key: Seq<u8>,
    handle: Seq<char>,
    decoded: Result<(Seq<u8>, Seq<u8>), KeyMaterialError>,
)
    requires
        encodes(handle, nonce, key),
        decodes_to(handle, decoded),
    ensures
        decoded == Ok::<(Seq<u8>, Seq<u8>), KeyMaterialError>((nonce, key)),
{
}

} // verus!
