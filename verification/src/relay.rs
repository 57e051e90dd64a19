use vstd::prelude::*;
use vstd::string::StringExecFns;

use crate::addr::{Address, Segment, SegmentView};
use crate::resolve::IdentityEntry;

verus! {

/// How identity credentials are exchanged when the relay is established.
/// This library carries the mode through untouched.
#[derive(Debug, Clone, Copy, PartialEq, Eq)]
pub enum CredentialExchangeMode {
    /// No credential is exchanged.
    NoExchange,
    /// A single round trip: the requester presents its credential.
    Oneway,
    /// Both sides present credentials.
    Mutual,
}

/// The request that creates a relay on the target node: the resolved route,
/// the name under which the relay registers, whether the target is the
/// local node, the identity requirements gathered during resolution, and the
/// credential-exchange mode.
#[derive(Debug, PartialEq, Eq)]
pub struct RelayRequest {
    pub route: Address,
    pub alias: Option<String>,
    pub at_rust_node: bool,
    pub identities: Vec<IdentityEntry>,
    pub credential_mode: CredentialExchangeMode,
}

/// The response to a relay-creation request: where the relay listens.
#[derive(Debug, Clone, PartialEq, Eq)]
pub struct RelayInfo {
    pub remote_address: String,
}

/// The lowercase hexadecimal digit of a value below sixteen.
pub open spec fn hex_char(n: u8) -> char {
    if n == 0 {
        '0'
    } else if n == 1 {
        '1'
    } else if n == 2 {
        '2'
    } else if n == 3 {
        '3'
    } else if n == 4 {
        '4'
    } else if n == 5 {
        '5'
    } else if n == 6 {
        '6'
    } else if n == 7 {
        '7'
    } else if n == 8 {
        '8'
    } else if n == 9 {
        '9'
    } else if n == 10 {
        'a'
    } else if n == 11 {
        'b'
    } else if n == 12 {
        'c'
    } else if n == 13 {
        'd'
    } else if n == 14 {
        'e'
    } else {
        'f'
    }
}

/// Lowercase hexadecimal encoding: two digits per byte, high nibble first.
pub open spec fn hex_of(bytes: Seq<u8>) -> Seq<char>
    decreases bytes.len(),
{
    if bytes.len() == 0 {
        Seq::<char>::empty()
    } else {
        seq![hex_char(bytes[0] / 16), hex_char(bytes[0] % 16)] + hex_of(
            bytes.subrange(1, bytes.len() as int),
        )
    }
}

/// A hexadecimal encoding is twice as long as its input.
pub proof fn lemma_hex_of_len(bytes: Seq<u8>)
    ensures
        hex_of(bytes).len() == 2 * bytes.len(),
    decreases bytes.len(),
{
    if bytes.len() == 0 {
    } else {
        lemma_hex_of_len(bytes.subrange(1, bytes.len() as int));
    }
}

/// Relies on hex::encode: each byte becomes two lowercase hexadecimal
/// digits, high nibble first, in input order.
#[verifier::external_body]
fn encode_hex(bytes: &[u8; 4]) -> (r: String)
    ensures
        r@ == hex_of(bytes@),
{
    hex::encode(bytes)
}

/// Relies on rand::random: four bytes drawn from the thread-local generator.
/// Nothing is promised of their values.
#[verifier::external_body]
fn random_token() -> (r: [u8; 4]) {
    rand::random::<[u8; 4]>()
}

/// A fresh default relay name: the lowercase hexadecimal encoding of four
/// random bytes — eight hexadecimal characters.
pub fn default_relay_name() -> (r: String)
    ensures
        exists|b: Seq<u8>| b.len() == 4 && r@ == hex_of(b),
        r@.len() == 8,
{
    let bytes = random_token();
    let r = encode_hex(&bytes);
    proof {
        assert(bytes@.len() == 4 && r@ == hex_of(bytes@));
        lemma_hex_of_len(bytes@);
    }
    r
}

/// The name under which a relay registers: for a local target the base name
/// carries the reserved prefix, for a remote target it is used verbatim.
pub open spec fn relay_alias_view(base: Seq<char>, at_rust_node: bool) -> Seq<char> {
    if at_rust_node {
        "forward_to_"@ + base
    } else {
        base
    }
}

/// Derives the relay's registered name from a base name. A local target gets
/// the `forward_to_` prefix — the naming convention the relay-hosting node
/// reserves for relays pointing back into itself — a remote target keeps the
/// base name unchanged.
pub fn relay_alias(base: &String, at_rust_node: bool) -> (r: String)
    ensures
        r@ == relay_alias_view(base@, at_rust_node),
{
    if at_rust_node {
        String::from_str("forward_to_").concat(base.as_str())
    } else {
        base.clone()
    }
}

/// True of an address that names the local node itself: it is empty (which
/// denotes "self") or starts with a node alias the issuing process hosts.
/// This is a syntactic property of the address prior to resolution.
pub open spec fn spec_is_local_target(segs: Seq<SegmentView>) -> bool {
    segs.len() == 0 || segs[0] is Node
}

/// Decides, from the original unresolved address, whether the relay target
/// is the local node. This flag — not the resolved content — picks the relay
/// naming convention.
pub fn is_local_target(address: &Address) -> (r: bool)
    ensures
        r == spec_is_local_target(address@),
{
    if address.is_empty() {
        true
    } else {
        match address.segment(0) {
            Segment::Node(_) => true,
            _ => false,
        }
    }
}

/// Builds the relay-creation request. The route, the identity requirements
/// and the credential mode pass through unchanged; the registered name is
/// derived from the explicit name — or, when none is given, from a fresh
/// random hexadecimal token — with the local-target prefix rule applied.
pub fn build_relay_request(
    route: Address,
    name: Option<String>,
    at_rust_node: bool,
    identities: Vec<IdentityEntry>,
    credential_mode: CredentialExchangeMode,
) -> (r: RelayRequest)
    ensures
        r.route == route,
        r.identities == identities,
        r.at_rust_node == at_rust_node,
        r.credential_mode == credential_mode,
        match name {
            Some(n) => r.alias matches Some(a) && a@ == relay_alias_view(n@, at_rust_node),
            None => r.alias matches Some(a) && (exists|b: Seq<u8>|
                b.len() == 4 && a@ == relay_alias_view(hex_of(b), at_rust_node)),
        },
{
    let base = match name {
        Some(n) => n,
        None => default_relay_name(),
    };
    let alias = relay_alias(&base, at_rust_node);
    RelayRequest { route, alias: Some(alias), at_rust_node, identities, credential_mode }
}

impl RelayInfo {
    /// The single-line service address a successful relay creation renders
    /// as.
    pub fn output(&self) -> (r: String)
        ensures
            r@ == "/service/"@ + self.remote_address@,
    {
        String::from_str("/service/").concat(self.remote_address.as_str())
    }
}

} // verus!
