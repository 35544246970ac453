//! Content-addressed identifiers: name-based (version 5) UUIDs derived from a
//! namespace and content, random (version 4) UUIDs for literals, and their
//! canonical text form.
use vstd::prelude::*;
use vstd::string::StringSliceAdditionalSpecFns;

verus! {

/// An identifier: the 128 bits of a UUID, most significant byte first.
pub type NodeId = u128;

/// The URL namespace of RFC 4122, `6ba7b811-9dad-11d1-80b4-00c04fd430c8`:
/// the root namespace of named nodes.
pub const URL_NAMESPACE: NodeId = 0x6ba7b8119dad11d180b400c04fd430c8;

/// The IRI from which the namespace of blank-node namespaces is derived.
pub const BLANK_NAMESPACE_IRI: &'static str = "https://boisestate.github.io/bookdata/ns/blank";

/// The name-based UUID of `name` in `namespace` (SHA-1 of namespace and name).
pub uninterp spec fn name_uuid(namespace: NodeId, name: Seq<u8>) -> NodeId;

/// The version field of a UUID.
pub open spec fn uuid_version(id: NodeId) -> NodeId {
    (id >> 76u128) & 0xf
}

/// The variant field of a UUID is the RFC 4122 one (binary `10`).
pub open spec fn rfc_variant(id: NodeId) -> bool {
    (id >> 62u128) & 3 == 2
}

/// Relies on uuid's `Uuid::new_v5` (with `from_u128` and `as_u128` to convert):
/// the result depends on namespace and name alone, and the builder sets the
/// version to 5 and the RFC 4122 variant.
#[verifier::external_body]
fn uuid_v5(namespace: NodeId, name: &[u8]) -> (id: NodeId)
    ensures
        id == name_uuid(namespace, name@),
        uuid_version(id) == 5,
        rfc_variant(id),
{
    uuid::Uuid::new_v5(&uuid::Uuid::from_u128(namespace), name).as_u128()
}

/// Relies on uuid's `Uuid::new_v4`: a random UUID whose version bits are 4 and
/// whose variant is the RFC 4122 one, whatever was drawn.
#[verifier::external_body]
fn uuid_v4() -> (id: NodeId)
    ensures
        uuid_version(id) == 4,
        rfc_variant(id),
{
    uuid::Uuid::new_v4().as_u128()
}

/// The number of hyphens before position `i` of the hyphenated text form.
pub open spec fn hyphens_before(i: int) -> int {
    if i <= 8 {
        0
    } else if i <= 13 {
        1
    } else if i <= 18 {
        2
    } else if i <= 23 {
        3
    } else {
        4
    }
}

/// The `j`-th hex digit of an identifier, most significant first.
pub open spec fn nibble(id: NodeId, j: int) -> NodeId {
    (id >> ((31 - j) * 4) as u128) & 0xf
}

/// The lower-case ASCII hex digit of a value below 16.
pub open spec fn hex_digit(n: NodeId) -> u8 {
    if n < 10 {
        (48 + n) as u8
    } else {
        (87 + n) as u8
    }
}

/// The canonical text form of an identifier, as ASCII bytes: 32 lower-case hex
/// digits in groups of 8, 4, 4, 4 and 12, separated by `-`.
pub open spec fn uuid_text(id: NodeId) -> Seq<u8> {
    Seq::new(
        36,
        |i: int|
            if i == 8 || i == 13 || i == 18 || i == 23 {
                45u8
            } else {
                hex_digit(nibble(id, i - hyphens_before(i)))
            },
    )
}

/// Relies on uuid's hyphenated `Display` form (`Uuid::hyphenated`), which
/// writes the 16 bytes as lower-case hex digit pairs in 8-4-4-4-12 groups.
#[verifier::external_body]
fn hyphenated(id: NodeId) -> (text: Vec<u8>)
    ensures
        text@ == uuid_text(id),
{
    uuid::Uuid::from_u128(id).hyphenated().to_string().into_bytes()
}

/// Derive the identifier of `content` in `namespace`. The same inputs give the
/// same identifier in every process.
pub fn derive(namespace: NodeId, content: &[u8]) -> (id: NodeId)
    ensures
        id == name_uuid(namespace, content@),
        uuid_version(id) == 5,
        rfc_variant(id),
{
    uuid_v5(namespace, content)
}

/// A new random identifier, for values whose identity is their occurrence.
pub fn fresh() -> (id: NodeId)
    ensures
        uuid_version(id) == 4,
        rfc_variant(id),
{
    uuid_v4()
}

/// The namespace under which per-file namespaces for blank nodes are derived.
pub fn blank_namespace_root() -> (ns: NodeId)
    ensures
        ns == name_uuid(URL_NAMESPACE, BLANK_NAMESPACE_IRI.spec_bytes()),
{
    derive(URL_NAMESPACE, BLANK_NAMESPACE_IRI.as_bytes())
}

/// The namespace of the blank nodes of one input file, scoped under `root`.
pub fn file_namespace(root: NodeId, file_name: &str) -> (ns: NodeId)
    ensures
        ns == name_uuid(root, file_name.spec_bytes()),
{
    derive(root, file_name.as_bytes())
}

/// The canonical text form of an identifier.
pub fn id_text(id: NodeId) -> (text: Vec<u8>)
    ensures
        text@ == uuid_text(id),
{
    hyphenated(id)
}

/// A derived identifier and a random one never coincide: their version
/// fields differ.
pub proof fn lemma_derived_never_fresh(a: NodeId, b: NodeId)
    requires
        uuid_version(a) == 5,
        uuid_version(b) == 4,
    ensures
        a != b,
{
}

/// Deriving is a function of namespace and content: two derivations from equal
/// inputs give one identifier, and identifiers that differ come from inputs
/// that differ.
pub proof fn lemma_derive_deterministic(ns1: NodeId, c1: Seq<u8>, ns2: NodeId, c2: Seq<u8>)
    ensures
        ns1 == ns2 && c1 == c2 ==> name_uuid(ns1, c1) == name_uuid(ns2, c2),
        name_uuid(ns1, c1) != name_uuid(ns2, c2) ==> ns1 != ns2 || c1 != c2,
{
}

} // verus!
