use vstd::prelude::*;

verus! {

/// A 32-byte account identity on the ledger.
#[derive(Clone, Copy, Debug)]
pub struct Address {
    pub bytes: [u8; 32],
}

impl View for Address {
    type V = Seq<u8>;

    open spec fn view(&self) -> Seq<u8> {
        self.bytes@
    }
}

/// The all-zero identity, used as "nobody" (e.g. a contract not yet approved).
pub open spec fn null_view() -> Seq<u8> {
    Seq::new(32, |i: int| 0u8)
}

impl Address {
    /// The all-zero identity.
    pub fn null() -> (r: Address)
        ensures
            r@ == null_view(),
    {
        let r = Address { bytes: [0u8; 32] };
        assert(r@ =~= null_view());
        r
    }

    pub fn from_bytes(bytes: [u8; 32]) -> (r: Address)
        ensures
            r@ == bytes@,
    {
        Address { bytes }
    }

    /// Byte-wise equality of two identities.
    pub fn same(&self, other: &Address) -> (r: bool)
        ensures
            r == (self@ == other@),
    {
        let mut i: usize = 0;
        while i < 32
            invariant
                0 <= i <= 32,
                self@.len() == 32,
                other@.len() == 32,
                forall|j: int| 0 <= j < i ==> self@[j] == other@[j],
            decreases 32 - i,
        {
            if self.bytes[i] != other.bytes[i] {
                return false;
            }
            i += 1;
        }
        assert(self@ =~= other@);
        true
    }

    pub fn is_null(&self) -> (r: bool)
        ensures
            r == (self@ == null_view()),
    {
        let z = Address::null();
        self.same(&z)
    }

    /// The identity's bytes, for use as a derivation seed.
    pub fn to_seed(&self) -> (r: Vec<u8>)
        ensures
            r@ == self@,
    {
        let mut r: Vec<u8> = Vec::new();
        let mut i: usize = 0;
        while i < 32
            invariant
                0 <= i <= 32,
                self@.len() == 32,
                r@ == self@.subrange(0, i as int),
            decreases 32 - i,
        {
            r.push(self.bytes[i]);
            i += 1;
            assert(r@ =~= self@.subrange(0, i as int));
        }
        assert(self@.subrange(0, 32) =~= self@);
        r
    }
}

/// The seeds of a derivation, as byte strings.
pub open spec fn seeds_view(seeds: Seq<Vec<u8>>) -> Seq<Seq<u8>> {
    seeds.map_values(|s: Vec<u8>| s@)
}

/// The program-derived address and bump that the ledger assigns to a seed list
/// under a program id (`None` when no bump yields an off-curve address).
pub uninterp spec fn program_address(seeds: Seq<Seq<u8>>, program_id: Seq<u8>) -> Option<(Seq<u8>, u8)>;

/// The address part of a successful derivation.
pub open spec fn derived(seeds: Seq<Seq<u8>>, program_id: Seq<u8>) -> Option<Seq<u8>> {
    match program_address(seeds, program_id) {
        Some(p) => Some(p.0),
        None => None,
    }
}

/// Relies on solana_program's `Pubkey::try_find_program_address`: it hashes the
/// seeds with the program id, so the address and bump it returns, or `None`,
/// depend on those values alone.
#[verifier::external_body]
fn try_find_program_address(seeds: &Vec<Vec<u8>>, program_id: &Address) -> (r: Option<(Address, u8)>)
    ensures
        program_address(seeds_view(seeds@), program_id@) == match r {
            Some(p) => Some((p.0@, p.1)),
            None => None::<(Seq<u8>, u8)>,
        },
{
    let refs: Vec<&[u8]> = seeds.iter().map(Vec::as_slice).collect();
    let id = anchor_lang::prelude::Pubkey::new_from_array(program_id.bytes);
    match anchor_lang::prelude::Pubkey::try_find_program_address(&refs, &id) {
        Some((key, bump)) => Some((Address { bytes: key.to_bytes() }, bump)),
        None => None,
    }
}

/// Seed tag of a settlement-currency vault: "vault".
pub open spec fn vault_tag() -> Seq<u8> {
    seq![118u8, 97u8, 117u8, 108u8, 116u8]
}

/// Seed tag of a representative-token mint: "mint".
pub open spec fn mint_tag() -> Seq<u8> {
    seq![109u8, 105u8, 110u8, 116u8]
}

/// Seed tag of an approver record: "approver".
pub open spec fn approver_tag() -> Seq<u8> {
    seq![97u8, 112u8, 112u8, 114u8, 111u8, 118u8, 101u8, 114u8]
}

/// Address of the vault that pools the currency `currency`.
pub open spec fn vault_address(currency: Seq<u8>, program_id: Seq<u8>) -> Option<Seq<u8>> {
    derived(seq![vault_tag(), currency], program_id)
}

/// Address of the representative-token mint of the contract `contract`.
pub open spec fn mint_address(contract: Seq<u8>, program_id: Seq<u8>) -> Option<Seq<u8>> {
    derived(seq![mint_tag(), contract], program_id)
}

/// Address of the record by which `admin` delegates approval to `delegate`.
pub open spec fn approver_address(admin: Seq<u8>, delegate: Seq<u8>, program_id: Seq<u8>) -> Option<Seq<u8>> {
    derived(seq![approver_tag(), admin, delegate], program_id)
}

fn derive(seeds: Vec<Vec<u8>>, program_id: &Address) -> (r: Option<Address>)
    ensures
        derived(seeds_view(seeds@), program_id@) == match r {
            Some(a) => Some(a@),
            None => None::<Seq<u8>>,
        },
{
    match try_find_program_address(&seeds, program_id) {
        Some(p) => Some(p.0),
        None => None,
    }
}

/// The vault address of a currency.
pub fn find_vault_address(currency: &Address, program_id: &Address) -> (r: Option<Address>)
    ensures
        vault_address(currency@, program_id@) == match r {
            Some(a) => Some(a@),
            None => None::<Seq<u8>>,
        },
{
    let seeds: Vec<Vec<u8>> = vec![vec![118u8, 97u8, 117u8, 108u8, 116u8], currency.to_seed()];
    assert(seeds_view(seeds@) =~= seq![vault_tag(), currency@]);
    derive(seeds, program_id)
}

/// The representative-token mint address of a contract.
pub fn find_mint_address(contract: &Address, program_id: &Address) -> (r: Option<Address>)
    ensures
        mint_address(contract@, program_id@) == match r {
            Some(a) => Some(a@),
            None => None::<Seq<u8>>,
        },
{
    let seeds: Vec<Vec<u8>> = vec![vec![109u8, 105u8, 110u8, 116u8], contract.to_seed()];
    assert(seeds_view(seeds@) =~= seq![mint_tag(), contract@]);
    derive(seeds, program_id)
}

/// The approver-record address of the pair (admin, delegate).
pub fn find_approver_address(admin: &Address, delegate: &Address, program_id: &Address) -> (r: Option<Address>)
    ensures
        approver_address(admin@, delegate@, program_id@) == match r {
            Some(a) => Some(a@),
            None => None::<Seq<u8>>,
        },
{
    let seeds: Vec<Vec<u8>> = vec![
        vec![97u8, 112u8, 112u8, 114u8, 111u8, 118u8, 101u8, 114u8],
        admin.to_seed(),
        delegate.to_seed(),
    ];
    assert(seeds_view(seeds@) =~= seq![approver_tag(), admin@, delegate@]);
    derive(seeds, program_id)
}

} // verus!
