//! Capsules: the signed identity an agent is born with.

use vstd::prelude::*;
use serde_json::Value;

verus! {

/// `serde_json::Value`, a capsule's declaration, carried through opaquely.
#[verifier::external_type_specification]
#[verifier::external_body]
pub struct ExValue(Value);

/// The prefix of every agent identifier.
pub open spec fn scp_prefix() -> Seq<char> {
    "replicant/agent/"@
}

/// The licence every capsule carries.
pub open spec fn licence_text() -> Seq<char> {
    "MSL-1.0"@
}

/// Whether `c` is a lowercase hexadecimal digit.
pub open spec fn is_lower_hex(c: char) -> bool {
    ('0' <= c && c <= '9') || ('a' <= c && c <= 'f')
}

/// Whether `u` is the hyphenated lowercase text of a version-4 UUID: 36
/// characters, hyphens at positions 8, 13, 18 and 23, hexadecimal digits
/// elsewhere, version digit `4`, and variant digit `8`, `9`, `a` or `b`.
pub open spec fn is_uuid_v4_text(u: Seq<char>) -> bool {
    &&& u.len() == 36
    &&& forall|i: int|
        0 <= i < 36 ==> if i == 8 || i == 13 || i == 18 || i == 23 {
            #[trigger] u[i] == '-'
        } else {
            is_lower_hex(u[i])
        }
    &&& u[14] == '4'
    &&& (u[19] == '8' || u[19] == '9' || u[19] == 'a' || u[19] == 'b')
}

/// `uuid::Uuid::new_v4`, rendered with its `Display` implementation: a fresh
/// random UUID in hyphenated lowercase form. Which UUID comes out is chance;
/// the contract states its form, which the crate's formatter and version-4
/// constructor fix.
#[verifier::external_body]
fn new_v4_text() -> (u: String)
    ensures
        is_uuid_v4_text(u@),
{
    uuid::Uuid::new_v4().to_string()
}

/// An agent's identity capsule.
#[derive(Debug)]
pub struct Capsule {
    pub scp_id: String,
    pub inherits: Vec<String>,
    pub declaration: Value,
    pub licence: String,
}

impl Capsule {
    /// Mints a capsule with a fresh identifier `replicant/agent/<uuid>`, the
    /// given lineage and declaration, under the `MSL-1.0` licence.
    pub fn mint(inherits: Vec<String>, declaration: Value) -> (c: Capsule)
        ensures
            exists|u: Seq<char>| c.scp_id@ == scp_prefix() + u && is_uuid_v4_text(u),
            c.inherits == inherits,
            c.declaration == declaration,
            c.licence@ == licence_text(),
    {
        let u = new_v4_text();
        let mut scp_id = String::from_str("replicant/agent/");
        scp_id.append(u.as_str());
        Capsule { scp_id, inherits, declaration, licence: String::from_str("MSL-1.0") }
    }
}

} // verus!
