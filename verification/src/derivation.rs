//! Deterministic derivation of the vault's control addresses.
//!
//! A derived address is computed one-way from a namespace tag, key material
//! and the program id, together with an integer disambiguator (the "bump").
//! No private key exists for such an address. Every request-supplied address
//! is trusted only after this derivation has been recomputed and compared.

use vstd::prelude::*;
use anchor_lang::prelude::Pubkey;

verus! {

/// What `Pubkey::try_find_program_address` returns for a tag, the remaining
/// seed parts, and a program id: the derived 32-byte address together with
/// its bump, or `None` when no bump in the search range yields a valid
/// derived address. The result is a pure function of these inputs.
pub uninterp spec fn derivation_of(tag: Seq<u8>, parts: Seq<Seq<u8>>, program_id: Seq<u8>) -> Option<(Seq<u8>, u8)>;

/// The executable derivation result `r` agrees with the mathematical
/// derivation `d`, and a derived address is always 32 bytes long.
pub open spec fn derivation_matches(r: Option<(Vec<u8>, u8)>, d: Option<(Seq<u8>, u8)>) -> bool {
    match (r, d) {
        (Some(a), Some(b)) => a.0@ == b.0 && a.0@.len() == 32 && a.1 == b.1,
        (None, None) => true,
        _ => false,
    }
}

/// Relies on `Pubkey::try_find_program_address` of `anchor_lang`: the search
/// for the derived address and bump is deterministic in the seeds and the
/// program id, returns `None` instead of panicking when the search fails,
/// and every returned address is exactly 32 bytes.
#[verifier::external_body]
pub(crate) fn try_find_derived_address(tag: &Vec<u8>, parts: &Vec<Vec<u8>>, program_id: &Vec<u8>) -> (r: Option<(Vec<u8>, u8)>)
    requires
        program_id@.len() == 32,
    ensures
        derivation_matches(r, derivation_of(tag@, parts@.map_values(|p: Vec<u8>| p@), program_id@)),
{
    let mut seeds: Vec<&[u8]> = Vec::with_capacity(1 + parts.len());
    seeds.push(tag.as_slice());
    for p in parts.iter() {
        seeds.push(p.as_slice());
    }
    let mut id_bytes = [0u8; 32];
    id_bytes.copy_from_slice(program_id.as_slice());
    let program = Pubkey::new_from_array(id_bytes);
    Pubkey::try_find_program_address(&seeds, &program).map(|(address, bump)| (address.to_bytes().to_vec(), bump))
}

/// The namespace tag for pool addresses: the bytes of `"vault"`.
pub open spec fn vault_tag() -> Seq<u8> {
    seq![118u8, 97u8, 117u8, 108u8, 116u8]
}

/// The namespace tag for access-record addresses: the bytes of `"vault-access"`.
pub open spec fn access_tag() -> Seq<u8> {
    seq![118u8, 97u8, 117u8, 108u8, 116u8, 45u8, 97u8, 99u8, 99u8, 101u8, 115u8, 115u8]
}

/// The pool address derivation for an asset: `("vault", asset)`.
pub open spec fn pool_derivation(program_id: Seq<u8>, asset: Seq<u8>) -> Option<(Seq<u8>, u8)> {
    derivation_of(vault_tag(), seq![asset], program_id)
}

/// The access-record address derivation for an asset and an owner identity:
/// `("vault-access", asset, owner)`.
pub open spec fn access_derivation(program_id: Seq<u8>, asset: Seq<u8>, owner: Seq<u8>) -> Option<(Seq<u8>, u8)> {
    derivation_of(access_tag(), seq![asset, owner], program_id)
}

/// A supplied pool address is legitimate exactly when the derivation for the
/// asset succeeds and yields that address.
pub open spec fn pool_address_ok(program_id: Seq<u8>, asset: Seq<u8>, supplied: Seq<u8>) -> bool {
    match pool_derivation(program_id, asset) {
        Some(d) => d.0 == supplied,
        None => false,
    }
}

/// A supplied access-record address is legitimate exactly when the derivation
/// for the (asset, owner) pair succeeds and yields that address.
pub open spec fn access_address_ok(program_id: Seq<u8>, asset: Seq<u8>, owner: Seq<u8>, supplied: Seq<u8>) -> bool {
    match access_derivation(program_id, asset, owner) {
        Some(d) => d.0 == supplied,
        None => false,
    }
}

fn vault_tag_bytes() -> (v: Vec<u8>)
    ensures
        v@ == vault_tag(),
{
    let mut v: Vec<u8> = Vec::new();
    v.push(118);
    v.push(97);
    v.push(117);
    v.push(108);
    v.push(116);
    proof {
        assert(v@ =~= vault_tag());
    }
    v
}

fn access_tag_bytes() -> (v: Vec<u8>)
    ensures
        v@ == access_tag(),
{
    let mut v: Vec<u8> = Vec::new();
    v.push(118);
    v.push(97);
    v.push(117);
    v.push(108);
    v.push(116);
    v.push(45);
    v.push(97);
    v.push(99);
    v.push(99);
    v.push(101);
    v.push(115);
    v.push(115);
    proof {
        assert(v@ =~= access_tag());
    }
    v
}

/// Copies a byte string.
pub fn clone_bytes(v: &Vec<u8>) -> (r: Vec<u8>)
    ensures
        r@ == v@,
{
    let mut r: Vec<u8> = Vec::new();
    let mut i: usize = 0;
    while i < v.len()
        invariant
            i <= v@.len(),
            r@.len() == i,
            forall|j: int| 0 <= j < i ==> r@[j] == v@[j],
        decreases v@.len() - i,
    {
        r.push(v[i]);
        i = i + 1;
    }
    proof {
        assert(r@ =~= v@);
    }
    r
}

/// Compares two byte strings.
pub fn bytes_eq(a: &Vec<u8>, b: &Vec<u8>) -> (r: bool)
    ensures
        r == (a@ == b@),
{
    if a.len() != b.len() {
        return false;
    }
    let mut i: usize = 0;
    while i < a.len()
        invariant
            a@.len() == b@.len(),
            i <= a@.len(),
            forall|j: int| 0 <= j < i ==> a@[j] == b@[j],
        decreases a@.len() - i,
    {
        if a[i] != b[i] {
            return false;
        }
        i = i + 1;
    }
    proof {
        assert(a@ =~= b@);
    }
    true
}

/// Computes the derived pool address and bump for an asset.
pub fn derive_vault_address(program_id: &Vec<u8>, asset: &Vec<u8>) -> (r: Option<(Vec<u8>, u8)>)
    requires
        program_id@.len() == 32,
    ensures
        derivation_matches(r, pool_derivation(program_id@, asset@)),
{
    let tag = vault_tag_bytes();
    let mut parts: Vec<Vec<u8>> = Vec::new();
    parts.push(clone_bytes(asset));
    let r = try_find_derived_address(&tag, &parts, program_id);
    proof {
        assert(parts@.map_values(|p: Vec<u8>| p@) =~= seq![asset@]);
    }
    r
}

/// Computes the derived access-record address and bump for an asset and an
/// owner identity.
pub fn derive_access_address(program_id: &Vec<u8>, asset: &Vec<u8>, owner: &Vec<u8>) -> (r: Option<(Vec<u8>, u8)>)
    requires
        program_id@.len() == 32,
    ensures
        derivation_matches(r, access_derivation(program_id@, asset@, owner@)),
{
    let tag = access_tag_bytes();
    let mut parts: Vec<Vec<u8>> = Vec::new();
    parts.push(clone_bytes(asset));
    parts.push(clone_bytes(owner));
    let r = try_find_derived_address(&tag, &parts, program_id);
    proof {
        assert(parts@.map_values(|p: Vec<u8>| p@) =~= seq![asset@, owner@]);
    }
    r
}

} // verus!
