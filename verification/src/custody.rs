//! The custodian of an agreement: a holding identity without a signing key,
//! and the custody accounts it controls, all derived from the agreement's
//! identity and a fixed tag per slot.

use vstd::prelude::*;
use crate::identity::Identity;

verus! {

/// The slots whose addresses are derived from an agreement's identity.
#[derive(Clone, Copy, Debug, PartialEq, Eq, Structural)]
pub enum CustodySlot {
    /// The custodian authority, which signs for every transfer out of custody.
    Authority,
    /// Holds the borrower's collateral from opening until the loan is funded.
    NftVault,
    /// Holds the repaid principal until the lender collects it.
    Vault,
    /// Holds the collateral while it is out on loan.
    Collateral,
}

/// The tag of a slot: the ASCII bytes of `authority`, `nft_vault`, `vault`
/// and `collateral`.
pub open spec fn slot_tag(slot: CustodySlot) -> Seq<u8> {
    match slot {
        CustodySlot::Authority => seq![97u8, 117, 116, 104, 111, 114, 105, 116, 121],
        CustodySlot::NftVault => seq![110u8, 102, 116, 95, 118, 97, 117, 108, 116],
        CustodySlot::Vault => seq![118u8, 97, 117, 108, 116],
        CustodySlot::Collateral => seq![99u8, 111, 108, 108, 97, 116, 101, 114, 97, 108],
    }
}

/// The seeds of a slot: the agreement's identity, then the slot's tag.
pub open spec fn slot_seeds(agreement: Identity, slot: CustodySlot) -> Seq<Seq<u8>> {
    seq![agreement@, slot_tag(slot)]
}

/// The seeds with which the custodian authority signs: the agreement's
/// identity, the authority's tag, and the bump seed as a single byte.
pub open spec fn signing_seeds(agreement: Identity, bump: u8) -> Seq<Seq<u8>> {
    seq![agreement@, slot_tag(CustodySlot::Authority), seq![bump]]
}

/// The seeds as sequences of bytes.
pub open spec fn seeds_view(seeds: Seq<Vec<u8>>) -> Seq<Seq<u8>> {
    Seq::new(seeds.len(), |i: int| seeds[i]@)
}

/// What the search for a program-derived address yields for the given seeds
/// under the given program: the address and its bump seed, or nothing when
/// the search finds none.
pub uninterp spec fn program_address(seeds: Seq<Seq<u8>>, program_id: Seq<u8>) -> Option<
    (Seq<u8>, u8),
>;

/// The result of a search, with the address taken by its bytes.
pub open spec fn found_view(found: Option<(Identity, u8)>) -> Option<(Seq<u8>, u8)> {
    match found {
        Some((address, bump)) => Some((address@, bump)),
        None => None,
    }
}

/// Calls `anchor_lang::prelude::Pubkey::try_find_program_address`, which
/// hashes the seeds, a bump seed and the program's identity, and tries the
/// bump seeds from 255 downwards until the hash is no point of the curve.
/// The contract only names the result: the same seeds and program always
/// give the same address and bump seed, or always none.
#[verifier::external_body]
fn find_program_address(seeds: &Vec<Vec<u8>>, program_id: &Identity) -> (found: Option<
    (Identity, u8),
>)
    ensures
        found_view(found) == program_address(seeds_view(seeds@), program_id@),
{
    let parts: Vec<&[u8]> = seeds.iter().map(Vec::as_slice).collect();
    let program = anchor_lang::prelude::Pubkey::new_from_array(program_id.bytes);
    match anchor_lang::prelude::Pubkey::try_find_program_address(&parts, &program) {
        Some((address, bump)) => Some((Identity { bytes: address.to_bytes() }, bump)),
        None => None,
    }
}

/// The tag of a slot as bytes.
pub fn slot_tag_bytes(slot: CustodySlot) -> (tag: Vec<u8>)
    ensures
        tag@ == slot_tag(slot),
{
    let tag: Vec<u8> = match slot {
        CustodySlot::Authority => vec![97u8, 117, 116, 104, 111, 114, 105, 116, 121],
        CustodySlot::NftVault => vec![110u8, 102, 116, 95, 118, 97, 117, 108, 116],
        CustodySlot::Vault => vec![118u8, 97, 117, 108, 116],
        CustodySlot::Collateral => vec![99u8, 111, 108, 108, 97, 116, 101, 114, 97, 108],
    };
    assert(tag@ =~= slot_tag(slot));
    tag
}

/// The address and bump seed of one slot of an agreement under a program,
/// or nothing when the search finds none.
pub fn derive_slot(agreement: &Identity, slot: CustodySlot, program_id: &Identity) -> (found:
    Option<(Identity, u8)>)
    ensures
        found_view(found) == program_address(slot_seeds(*agreement, slot), program_id@),
{
    let mut seeds: Vec<Vec<u8>> = Vec::new();
    seeds.push(agreement.to_vec());
    seeds.push(slot_tag_bytes(slot));
    assert(seeds_view(seeds@) =~= slot_seeds(*agreement, slot));
    find_program_address(&seeds, program_id)
}

/// The addresses that belong to one agreement: its custodian authority with
/// the bump seed, and its three custody accounts.
#[derive(Clone, Copy, Debug, PartialEq, Eq)]
pub struct CustodyAccounts {
    /// The agreement that the addresses were derived from.
    pub agreement: Identity,
    /// The custodian authority.
    pub authority: Identity,
    /// The bump seed of the custodian authority.
    pub bump: u8,
    /// Where the collateral waits for a lender.
    pub nft_vault: Identity,
    /// Where the repaid principal waits for the lender.
    pub vault: Identity,
    /// Where the collateral is locked while the loan is out.
    pub collateral: Identity,
}

impl CustodyAccounts {
    /// The three custody accounts are three different accounts.
    pub open spec fn distinct(self) -> bool {
        &&& self.nft_vault != self.vault
        &&& self.nft_vault != self.collateral
        &&& self.vault != self.collateral
    }

    /// Every address is the one that the search yields for its slot under the
    /// given program.
    pub open spec fn derived_under(self, program_id: Identity) -> bool {
        &&& program_address(slot_seeds(self.agreement, CustodySlot::Authority), program_id@)
            == Some((self.authority@, self.bump))
        &&& program_address(slot_seeds(self.agreement, CustodySlot::NftVault), program_id@)
            matches Some(found) && found.0 == self.nft_vault@
        &&& program_address(slot_seeds(self.agreement, CustodySlot::Vault), program_id@)
            matches Some(found) && found.0 == self.vault@
        &&& program_address(slot_seeds(self.agreement, CustodySlot::Collateral), program_id@)
            matches Some(found) && found.0 == self.collateral@
    }
}

/// Whether an agreement has a custody under a program: the search succeeds
/// for all four slots and gives three different custody accounts.
pub open spec fn derivable(agreement: Identity, program_id: Identity) -> bool {
    &&& program_address(slot_seeds(agreement, CustodySlot::Authority), program_id@) is Some
    &&& program_address(slot_seeds(agreement, CustodySlot::NftVault), program_id@)
        matches Some(nft_vault)
    &&& program_address(slot_seeds(agreement, CustodySlot::Vault), program_id@)
        matches Some(vault)
    &&& program_address(slot_seeds(agreement, CustodySlot::Collateral), program_id@)
        matches Some(collateral)
    &&& nft_vault.0 != vault.0
    &&& nft_vault.0 != collateral.0
    &&& vault.0 != collateral.0
}

/// The addresses of a custody whose four slots were searched for: there is
/// one exactly when every search found an address and the three custody
/// accounts are three different accounts.
pub open spec fn custody_of(
    agreement: Identity,
    authority: Option<(Identity, u8)>,
    nft_vault: Option<(Identity, u8)>,
    vault: Option<(Identity, u8)>,
    collateral: Option<(Identity, u8)>,
) -> Option<CustodyAccounts> {
    match (authority, nft_vault, vault, collateral) {
        (Some(a), Some(n), Some(v), Some(c)) => if n.0 != v.0 && n.0 != c.0 && v.0 != c.0 {
            Some(
                CustodyAccounts {
                    agreement,
                    authority: a.0,
                    bump: a.1,
                    nft_vault: n.0,
                    vault: v.0,
                    collateral: c.0,
                },
            )
        } else {
            None
        },
        _ => None,
    }
}

/// The custody of one agreement: its custodian authority and three custody
/// accounts that are three different accounts.
#[derive(Clone, Copy, Debug)]
pub struct Custody {
    accounts: CustodyAccounts,
}

impl View for Custody {
    type V = CustodyAccounts;

    closed spec fn view(&self) -> CustodyAccounts {
        self.accounts
    }
}

impl Custody {
    #[verifier::type_invariant]
    spec fn inv(self) -> bool {
        self.accounts.distinct()
    }

    /// The custody of an agreement whose four slots were searched for, each
    /// given as the address and bump seed that the search found, if any.
    pub fn from_slots(
        agreement: &Identity,
        authority: Option<(Identity, u8)>,
        nft_vault: Option<(Identity, u8)>,
        vault: Option<(Identity, u8)>,
        collateral: Option<(Identity, u8)>,
    ) -> (custody: Option<Custody>)
        ensures
            match custody_of(*agreement, authority, nft_vault, vault, collateral) {
                Some(accounts) => custody matches Some(c) && c@ == accounts && c@.distinct(),
                None => custody is None,
            },
    {
        match (authority, nft_vault, vault, collateral) {
            (Some(a), Some(n), Some(v), Some(c)) => {
                if n.0 == v.0 || n.0 == c.0 || v.0 == c.0 {
                    None
                } else {
                    Some(
                        Custody {
                            accounts: CustodyAccounts {
                                agreement: *agreement,
                                authority: a.0,
                                bump: a.1,
                                nft_vault: n.0,
                                vault: v.0,
                                collateral: c.0,
                            },
                        },
                    )
                }
            },
            _ => None,
        }
    }

    /// Derives the custody of an agreement under a program. It is `None`
    /// exactly when the agreement has no custody there.
    pub fn derive(agreement: &Identity, program_id: &Identity) -> (custody: Option<Custody>)
        ensures
            match custody {
                Some(c) => {
                    &&& c@.agreement == *agreement
                    &&& c@.derived_under(*program_id)
                    &&& c@.distinct()
                    &&& derivable(*agreement, *program_id)
                },
                None => !derivable(*agreement, *program_id),
            },
    {
        let authority = derive_slot(agreement, CustodySlot::Authority, program_id);
        let nft_vault = derive_slot(agreement, CustodySlot::NftVault, program_id);
        let vault = derive_slot(agreement, CustodySlot::Vault, program_id);
        let collateral = derive_slot(agreement, CustodySlot::Collateral, program_id);
        proof {
            match (nft_vault, vault, collateral) {
                (Some(n), Some(v), Some(c)) => {
                    if n.0@ == v.0@ {
                        Identity::lemma_view_injective(n.0, v.0);
                    }
                    if n.0@ == c.0@ {
                        Identity::lemma_view_injective(n.0, c.0);
                    }
                    if v.0@ == c.0@ {
                        Identity::lemma_view_injective(v.0, c.0);
                    }
                },
                _ => {},
            }
        }
        Custody::from_slots(agreement, authority, nft_vault, vault, collateral)
    }

    /// The addresses of this custody.
    pub fn accounts(&self) -> (accounts: CustodyAccounts)
        ensures
            accounts == self@,
            accounts.distinct(),
    {
        proof {
            use_type_invariant(self);
        }
        self.accounts
    }

    /// The seeds with which the custodian authority signs a transfer out of
    /// custody: the agreement's identity, the authority's tag, the bump seed.
    pub fn signer_seeds(&self) -> (seeds: Vec<Vec<u8>>)
        ensures
            seeds_view(seeds@) == signing_seeds(self@.agreement, self@.bump),
    {
        let mut seeds: Vec<Vec<u8>> = Vec::new();
        seeds.push(self.accounts.agreement.to_vec());
        seeds.push(slot_tag_bytes(CustodySlot::Authority));
        let mut bump: Vec<u8> = Vec::new();
        bump.push(self.accounts.bump);
        assert(bump@ =~= seq![self.accounts.bump]);
        seeds.push(bump);
        assert(seeds_view(seeds@) =~= signing_seeds(self.accounts.agreement, self.accounts.bump));
        seeds
    }
}

} // verus!
