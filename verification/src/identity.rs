//! Identifiers for filesystem entries: a path is hashed with MD5 and the digest
//! is written as a version-3 UUID, so that one path always gets one
//! identifier. Where no path text is at hand a random version-4 UUID stands in.

use md5::{Digest, Md5};
use vstd::prelude::*;
use vstd::string::*;

verus! {

/// The MD5 digest of the UTF-8 encoding of a text.
pub uninterp spec fn md5_digest(text: Seq<char>) -> Seq<u8>;

/// Hashes `source` with `md5::Md5` (`new`, `update`, `finalize`). Trusted: the
/// result is the MD5 digest of the text's bytes, a function of the text alone,
/// and it is sixteen bytes long.
#[verifier::external_body]
pub fn md5_hash(source: &str) -> (digest: Vec<u8>)
    ensures
        digest@ == md5_digest(source@),
        digest@.len() == 16,
{
    let mut hasher = Md5::new();
    hasher.update(source);
    let hash = hasher.finalize();
    hash.to_vec()
}

/// The sixteen lower-case hexadecimal digits.
pub open spec fn hex_digits() -> Seq<char> {
    seq!['0', '1', '2', '3', '4', '5', '6', '7', '8', '9', 'a', 'b', 'c', 'd', 'e', 'f']
}

/// Whether `c` is a lower-case hexadecimal digit.
pub open spec fn is_hex_digit(c: char) -> bool {
    ('0' <= c <= '9') || ('a' <= c <= 'f')
}

/// Whether a hyphen stands at position `i` of a UUID's text.
pub open spec fn is_hyphen_position(i: int) -> bool {
    i == 8 || i == 13 || i == 18 || i == 23
}

/// How many hyphens stand before position `i` of a UUID's text.
pub open spec fn hyphens_before(i: int) -> int {
    if i < 8 {
        0
    } else if i < 13 {
        1
    } else if i < 18 {
        2
    } else if i < 23 {
        3
    } else {
        4
    }
}

/// The character at position `i` of the text of the UUID with these bytes:
/// two digits for each byte, high half first, in groups of 8, 4, 4, 4 and 12
/// digits with a hyphen between them.
pub open spec fn uuid_char(bytes: Seq<u8>, i: int) -> char {
    if is_hyphen_position(i) {
        '-'
    } else {
        let k = i - hyphens_before(i);
        let byte = bytes[k / 2];
        if k % 2 == 0 {
            hex_digits()[(byte / 16) as int]
        } else {
            hex_digits()[(byte % 16) as int]
        }
    }
}

/// The 36 characters in which a UUID of sixteen bytes is written.
pub open spec fn uuid_text(bytes: Seq<u8>) -> Seq<char> {
    Seq::new(36, |i: int| uuid_char(bytes, i))
}

/// A digest with the six bits overwritten that mark a UUID as one of version 3
/// in the RFC 4122 layout: the high half of byte 6 and the top two bits of
/// byte 8.
pub open spec fn md5_tagged(digest: Seq<u8>) -> Seq<u8> {
    digest.update(6, (digest[6] & 0x0f) | 0x30).update(8, (digest[8] & 0x3f) | 0x80)
}

/// The identifier derived from a digest.
pub open spec fn derived_id(digest: Seq<u8>) -> Seq<char> {
    uuid_text(md5_tagged(digest))
}

/// Whether a text has the shape of a hyphenated lower-case UUID.
pub open spec fn is_uuid_text(text: Seq<char>) -> bool {
    &&& text.len() == 36
    &&& forall|i: int|
        0 <= i < 36 ==> if is_hyphen_position(i) {
            #[trigger] text[i] == '-'
        } else {
            is_hex_digit(text[i])
        }
}

/// Whether a text has the shape of a random UUID: version 4, RFC 4122 layout.
pub open spec fn is_random_uuid_text(text: Seq<char>) -> bool {
    &&& is_uuid_text(text)
    &&& text[14] == '4'
    &&& (text[19] == '8' || text[19] == '9' || text[19] == 'a' || text[19] == 'b')
}

/// Writes a digest as a version-3 UUID with `uuid::Builder::from_md5_bytes`,
/// `Builder::into_uuid` and the `Display` of `uuid::Uuid`. Trusted: the builder
/// overwrites the version and variant bits and leaves the rest, and the text is
/// the hyphenated lower-case form.
#[verifier::external_body]
fn md5_uuid_text(digest: [u8; 16]) -> (text: String)
    ensures
        text@ == uuid_text(md5_tagged(digest@)),
{
    uuid::Builder::from_md5_bytes(digest).into_uuid().to_string()
}

/// Draws a random UUID with `uuid::Uuid::new_v4` and writes it with its
/// `Display`. Trusted: whatever was drawn, the text has the shape of a
/// version-4 UUID. The call fails only where the operating system gives no
/// random bytes.
#[verifier::external_body]
fn random_uuid_text() -> (text: String)
    ensures
        is_random_uuid_text(text@),
{
    uuid::Uuid::new_v4().to_string()
}

/// The text of a derived identifier has the shape of a UUID of version 3.
pub proof fn lemma_derived_id_shape(digest: Seq<u8>)
    requires
        digest.len() == 16,
    ensures
        is_uuid_text(derived_id(digest)),
        derived_id(digest)[14] == '3',
        !is_random_uuid_text(derived_id(digest)),
{
    let tagged = md5_tagged(digest);
    let text = derived_id(digest);
    assert forall|i: int| 0 <= i < 36 implies if is_hyphen_position(i) {
        #[trigger] text[i] == '-'
    } else {
        is_hex_digit(text[i])
    } by {
        if !is_hyphen_position(i) {
            let k = i - hyphens_before(i);
            let byte = tagged[k / 2];
            lemma_hex_digits_are_hex((byte / 16) as int);
            lemma_hex_digits_are_hex((byte % 16) as int);
        }
    }
    let b = digest[6];
    assert(((b & 0x0f) | 0x30) / 16 == 3) by (bit_vector);
}

/// Every entry of the digit table is a hexadecimal digit.
proof fn lemma_hex_digits_are_hex(n: int)
    requires
        0 <= n < 16,
    ensures
        is_hex_digit(hex_digits()[n]),
{
}

/// The digit table has no digit twice.
proof fn lemma_hex_digits_injective(m: int, n: int)
    requires
        0 <= m < 16,
        0 <= n < 16,
        hex_digits()[m] == hex_digits()[n],
    ensures
        m == n,
{
}

/// The text of a UUID determines its bytes.
pub proof fn lemma_uuid_text_injective(a: Seq<u8>, b: Seq<u8>)
    requires
        a.len() == 16,
        b.len() == 16,
        uuid_text(a) == uuid_text(b),
    ensures
        a == b,
{
    assert forall|j: int| 0 <= j < 16 implies a[j] == b[j] by {
        let k = 2 * j;
        let i = if k < 8 {
            k
        } else if k < 12 {
            k + 1
        } else if k < 16 {
            k + 2
        } else if k < 20 {
            k + 3
        } else {
            k + 4
        };
        assert(uuid_text(a)[i] == uuid_char(a, i) && uuid_text(b)[i] == uuid_char(b, i));
        assert(uuid_text(a)[i + 1] == uuid_char(a, i + 1) && uuid_text(b)[i + 1] == uuid_char(
            b,
            i + 1,
        ));
        assert(uuid_char(a, i) == hex_digits()[(a[j] / 16) as int]);
        assert(uuid_char(a, i + 1) == hex_digits()[(a[j] % 16) as int]);
        assert(uuid_char(b, i) == hex_digits()[(b[j] / 16) as int]);
        assert(uuid_char(b, i + 1) == hex_digits()[(b[j] % 16) as int]);
        lemma_hex_digits_injective((a[j] / 16) as int, (b[j] / 16) as int);
        lemma_hex_digits_injective((a[j] % 16) as int, (b[j] % 16) as int);
    }
    assert(a =~= b);
}

/// Two digests get the same identifier exactly when they agree in every bit
/// that the identifier keeps.
pub proof fn lemma_same_id_same_kept_bits(first: Seq<u8>, second: Seq<u8>)
    requires
        first.len() == 16,
        second.len() == 16,
    ensures
        derived_id(first) == derived_id(second) <==> md5_tagged(first) == md5_tagged(second),
{
    if derived_id(first) == derived_id(second) {
        lemma_uuid_text_injective(md5_tagged(first), md5_tagged(second));
    }
}

/// Digests that differ in a byte other than the two tagged ones get different
/// identifiers.
pub proof fn lemma_distinct_digests_distinct_ids(first: Seq<u8>, second: Seq<u8>, at: int)
    requires
        first.len() == 16,
        second.len() == 16,
        0 <= at < 16,
        at != 6,
        at != 8,
        first[at] != second[at],
    ensures
        derived_id(first) != derived_id(second),
{
    lemma_same_id_same_kept_bits(first, second);
    assert(md5_tagged(first)[at] == first[at]);
    assert(md5_tagged(second)[at] == second[at]);
}

/// Paths whose digests differ in a bit that the identifier keeps get different
/// identifiers.
pub proof fn lemma_distinct_paths_distinct_ids(first: Seq<char>, second: Seq<char>)
    requires
        md5_digest(first).len() == 16,
        md5_digest(second).len() == 16,
        md5_tagged(md5_digest(first)) != md5_tagged(md5_digest(second)),
    ensures
        derived_id(md5_digest(first)) != derived_id(md5_digest(second)),
{
    lemma_same_id_same_kept_bits(md5_digest(first), md5_digest(second));
}

/// Writes a digest of sixteen bytes as a version-3 UUID; any other length is
/// refused.
pub fn uuid_from(source: &[u8]) -> (result: Result<String, String>)
    ensures
        result is Ok <==> source@.len() == 16,
        result matches Ok(id) ==> id@ == derived_id(source@),
        result matches Err(message) ==> message@ == "源内容长度不足。"@,
{
    if source.len() != 16 {
        return Err(String::from_str("源内容长度不足。"));
    }
    let digest: [u8; 16] = [
        source[0],
        source[1],
        source[2],
        source[3],
        source[4],
        source[5],
        source[6],
        source[7],
        source[8],
        source[9],
        source[10],
        source[11],
        source[12],
        source[13],
        source[14],
        source[15],
    ];
    assert(digest@ =~= source@);
    Ok(md5_uuid_text(digest))
}

/// An identifier together with how it came about.
#[derive(Debug, Clone, PartialEq)]
pub enum Identity {
    /// Derived from the path: the same path gives the same identifier.
    Derived(String),
    /// Drawn at random: another call gives another identifier.
    Random(String),
}

/// What an `Identity` holds, as mathematical text.
pub enum IdentityText {
    Derived(Seq<char>),
    Random(Seq<char>),
}

impl IdentityText {
    /// The identifier, whichever way it came about.
    pub open spec fn text(self) -> Seq<char> {
        match self {
            IdentityText::Derived(text) => text,
            IdentityText::Random(text) => text,
        }
    }
}

impl View for Identity {
    type V = IdentityText;

    open spec fn view(&self) -> IdentityText {
        match self {
            Identity::Derived(id) => IdentityText::Derived(id@),
            Identity::Random(id) => IdentityText::Random(id@),
        }
    }
}

/// The text of a path that may be missing.
pub open spec fn path_text(path: Option<&str>) -> Option<Seq<char>> {
    match path {
        Some(p) => Some(p@),
        None => None,
    }
}

/// What the identity of a digest is: derived where the digest has sixteen
/// bytes, else some random UUID.
pub open spec fn identifies_digest(digest: Seq<u8>, identity: IdentityText) -> bool {
    if digest.len() == 16 {
        identity == IdentityText::Derived(derived_id(digest))
    } else {
        identity matches IdentityText::Random(text) && is_random_uuid_text(text)
    }
}

/// What the identity of a path is: derived from the digest of its text where
/// it has one, else some random UUID.
pub open spec fn identifies(path: Option<Seq<char>>, identity: IdentityText) -> bool {
    match path {
        Some(text) => identity == IdentityText::Derived(derived_id(md5_digest(text))),
        None => identity matches IdentityText::Random(text) && is_random_uuid_text(text),
    }
}

/// A path with text has one identity only: whatever two derivations return,
/// they return the same.
pub proof fn lemma_derivation_is_deterministic(
    path: Seq<char>,
    first: IdentityText,
    second: IdentityText,
)
    requires
        identifies(Some(path), first),
        identifies(Some(path), second),
    ensures
        first == second,
{
}

/// Every identity, derived or random, has the shape of a UUID, and its text
/// tells which of the two it is.
pub proof fn lemma_identity_shape(path: Option<Seq<char>>, identity: IdentityText)
    requires
        identifies(path, identity),
        path matches Some(text) ==> md5_digest(text).len() == 16,
    ensures
        is_uuid_text(identity.text()),
        identity is Derived <==> identity.text()[14] == '3',
        identity is Random <==> identity.text()[14] == '4',
{
    if let Some(text) = path {
        lemma_derived_id_shape(md5_digest(text));
    }
}

impl Identity {
    /// The identifier as text.
    pub fn as_str(&self) -> (text: &str)
        ensures
            text@ == self@.text(),
    {
        match self {
            Identity::Derived(id) => id.as_str(),
            Identity::Random(id) => id.as_str(),
        }
    }

    /// The identifier as an owned string.
    pub fn into_string(self) -> (text: String)
        ensures
            text@ == self@.text(),
    {
        match self {
            Identity::Derived(id) => id,
            Identity::Random(id) => id,
        }
    }

    /// Whether the identifier was derived from the path.
    pub fn is_derived(&self) -> (derived: bool)
        ensures
            derived == (self@ is Derived),
    {
        match self {
            Identity::Derived(_) => true,
            Identity::Random(_) => false,
        }
    }
}

/// The identity that goes with a digest: the derived one where the digest has
/// sixteen bytes, else a random one.
pub fn identity_from_digest(digest: &[u8]) -> (identity: Identity)
    ensures
        identifies_digest(digest@, identity@),
{
    match uuid_from(digest) {
        Ok(id) => Identity::Derived(id),
        Err(_) => Identity::Random(random_uuid_text()),
    }
}

/// The identity of the entry at `path`: derived from the path's text where the
/// path has one, else random.
pub fn derive_identity(path: Option<&str>) -> (identity: Identity)
    ensures
        identifies(path_text(path), identity@),
{
    match path {
        Some(text) => {
            let digest = md5_hash(text);
            identity_from_digest(digest.as_slice())
        },
        None => Identity::Random(random_uuid_text()),
    }
}

} // verus!
