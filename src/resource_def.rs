use vstd::prelude::*;
use crate::error::{ResourceDefError, RuntimeError};
use crate::nft::Nft;
use crate::resource::{check_amount_spec, supply_amount, Bucket, BucketModel, ResourceSupply, ResourceType, SupplyModel};
use crate::types::{lemma_pow10_18, pow10, Address, AddressKind, Decimal, ONE_UNIT};

verus! {

/// The identity and policy of a resource kind.
#[derive(Debug)]
pub struct ResourceDef {
    address: Address,
    resource_type: ResourceType,
    total_supply: Decimal,
    nft_ids: Vec<u128>,
    minter: Option<Address>,
}

/// Whether `auth` is the badge that `minter` asks for.
pub open spec fn mint_authorized(minter: Option<Address>, auth: Option<Address>) -> bool {
    match (minter, auth) {
        (Some(m), Some(a)) => m@ == a@,
        _ => false,
    }
}

impl ResourceDef {
    pub closed spec fn address_view(&self) -> (AddressKind, Seq<u8>) {
        self.address@
    }

    pub closed spec fn rtype(&self) -> ResourceType {
        self.resource_type
    }

    /// The recorded total supply, in raw decimal units.
    pub closed spec fn total(&self) -> int {
        self.total_supply.0 as int
    }

    /// Ids of every NFT ever minted of this resource.
    pub closed spec fn ids(&self) -> Seq<u128> {
        self.nft_ids@
    }

    pub closed spec fn minter_view(&self) -> Option<Address> {
        self.minter
    }

    /// A resource with no supply yet; `minter` is the badge that may mint
    /// and burn, none for a fixed supply.
    pub fn new(address: Address, resource_type: ResourceType, minter: Option<Address>) -> (r: ResourceDef)
        ensures
            r.address_view() == address@,
            r.rtype() == resource_type,
            r.total() == 0,
            r.ids().len() == 0,
            r.minter_view() == minter,
    {
        ResourceDef { address, resource_type, total_supply: Decimal(0), nft_ids: Vec::new(), minter }
    }

    pub fn total_supply(&self) -> (r: Decimal)
        ensures
            r.0 as int == self.total(),
    {
        self.total_supply
    }

    fn authorized(&self, auth: &Option<Address>) -> (r: bool)
        ensures
            r == mint_authorized(self.minter_view(), *auth),
    {
        match (&self.minter, auth) {
            (Some(m), Some(a)) => m.same(a),
            _ => false,
        }
    }

    /// Mints `amount` of a fungible resource into a new bucket, presenting
    /// the badge `auth`; the total supply grows by that amount.
    pub fn mint(&mut self, amount: Decimal, auth: &Option<Address>) -> (r: Result<Bucket, RuntimeError>)
        requires
            mint_authorized(old(self).minter_view(), *auth) ==> old(self).total() + amount.0 <= i128::MAX,
        ensures
            final(self).address_view() == old(self).address_view(),
            final(self).rtype() == old(self).rtype(),
            final(self).minter_view() == old(self).minter_view(),
            final(self).ids() == old(self).ids(),
            !mint_authorized(old(self).minter_view(), *auth) ==> r is Err && r->Err_0
                == RuntimeError::ResourceDefError(ResourceDefError::UnauthorizedAccess),
            mint_authorized(old(self).minter_view(), *auth) && old(self).rtype() is NonFungible ==> r is Err
                && r->Err_0 == RuntimeError::ResourceDefError(ResourceDefError::MintNotAllowed),
            mint_authorized(old(self).minter_view(), *auth) && old(self).rtype() is Fungible ==> match check_amount_spec(
                amount.0 as int,
                old(self).rtype(),
            ) {
                Err(e) => r is Err && r->Err_0 == RuntimeError::BucketError(e),
                Ok(_) => r is Ok && r->Ok_0@ == (BucketModel {
                    def: old(self).address_view(),
                    rtype: old(self).rtype(),
                    supply: SupplyModel::Fungible { amount: amount.0 as int },
                }),
            },
            r is Ok ==> final(self).total() == old(self).total() + supply_amount(r->Ok_0@.supply),
            r is Err ==> final(self).total() == old(self).total(),
    {
        if !self.authorized(auth) {
            return Err(RuntimeError::ResourceDefError(ResourceDefError::UnauthorizedAccess));
        }
        if let ResourceType::NonFungible = self.resource_type {
            return Err(RuntimeError::ResourceDefError(ResourceDefError::MintNotAllowed));
        }
        match Bucket::check_amount(amount, &self.resource_type) {
            Err(e) => Err(RuntimeError::BucketError(e)),
            Ok(()) => {
                self.total_supply = Decimal(self.total_supply.0 + amount.0);
                Ok(
                    Bucket::new(
                        self.address.duplicate(),
                        self.resource_type,
                        ResourceSupply::Fungible { amount },
                    ),
                )
            },
        }
    }

    /// Mints the NFT `id` into a new bucket, presenting the badge `auth`;
    /// an id that was minted before is refused. The total supply grows by
    /// one unit.
    pub fn mint_nft(&mut self, id: u128, nft: Nft, auth: &Option<Address>) -> (r: Result<Bucket, RuntimeError>)
        requires
            mint_authorized(old(self).minter_view(), *auth) ==> old(self).total() + pow10(18) <= i128::MAX,
        ensures
            final(self).address_view() == old(self).address_view(),
            final(self).rtype() == old(self).rtype(),
            final(self).minter_view() == old(self).minter_view(),
            !mint_authorized(old(self).minter_view(), *auth) ==> r is Err && r->Err_0
                == RuntimeError::ResourceDefError(ResourceDefError::UnauthorizedAccess),
            mint_authorized(old(self).minter_view(), *auth) && old(self).rtype() is Fungible ==> r is Err
                && r->Err_0 == RuntimeError::ResourceDefError(ResourceDefError::MintNotAllowed),
            mint_authorized(old(self).minter_view(), *auth) && old(self).rtype() is NonFungible ==> if old(
                self,
            ).ids().contains(id) {
                r is Err && r->Err_0 is NftAlreadyExists && r->Err_0->NftAlreadyExists_0@
                    == old(self).address_view() && r->Err_0->NftAlreadyExists_1 == id
            } else {
                r is Ok && r->Ok_0@ == (BucketModel {
                    def: old(self).address_view(),
                    rtype: old(self).rtype(),
                    supply: SupplyModel::NonFungible { entries: seq![(id, nft@)] },
                }) && final(self).ids() == old(self).ids().push(id)
            },
            r is Ok ==> final(self).total() == old(self).total() + supply_amount(r->Ok_0@.supply),
            r is Err ==> final(self).total() == old(self).total() && final(self).ids() == old(self).ids(),
    {
        if !self.authorized(auth) {
            return Err(RuntimeError::ResourceDefError(ResourceDefError::UnauthorizedAccess));
        }
        if let ResourceType::Fungible { .. } = self.resource_type {
            return Err(RuntimeError::ResourceDefError(ResourceDefError::MintNotAllowed));
        }
        let mut i: usize = 0;
        while i < self.nft_ids.len()
            invariant
                0 <= i <= self.nft_ids@.len(),
                forall|j: int| 0 <= j < i ==> self.nft_ids@[j] != id,
                mint_authorized(self.minter_view(), *auth),
                self.rtype() is NonFungible,
            decreases self.nft_ids@.len() - i,
        {
            if self.nft_ids[i] == id {
                assert(self.nft_ids@.contains(id));
                return Err(RuntimeError::NftAlreadyExists(self.address.duplicate(), id));
            }
            i = i + 1;
        }
        proof {
            lemma_pow10_18();
        }
        self.nft_ids.push(id);
        self.total_supply = Decimal(self.total_supply.0 + ONE_UNIT);
        let mut entries: Vec<(u128, Nft)> = Vec::new();
        entries.push((id, nft));
        let b = Bucket::new(self.address.duplicate(), self.resource_type, ResourceSupply::NonFungible { entries });
        assert(crate::resource::entries_model(entries@) =~= seq![(id, nft@)]);
        Ok(b)
    }

    /// Burns a bucket of this resource, presenting the badge `auth`; the
    /// total supply shrinks by its amount. Ids of burnt NFTs stay taken.
    pub fn burn(&mut self, bucket: Bucket, auth: &Option<Address>) -> (r: Result<(), RuntimeError>)
        requires
            0 <= supply_amount(bucket@.supply),
            old(self).total() >= 0,
        ensures
            final(self).address_view() == old(self).address_view(),
            final(self).rtype() == old(self).rtype(),
            final(self).minter_view() == old(self).minter_view(),
            final(self).ids() == old(self).ids(),
            !mint_authorized(old(self).minter_view(), *auth) ==> r is Err && r->Err_0
                == RuntimeError::ResourceDefError(ResourceDefError::UnauthorizedAccess),
            mint_authorized(old(self).minter_view(), *auth) ==> if bucket@.def != old(self).address_view() {
                r is Err && r->Err_0 == RuntimeError::BucketError(crate::resource::BucketError::MismatchingResourceDef)
            } else {
                r is Ok
            },
            r is Ok ==> final(self).total() == old(self).total() - supply_amount(bucket@.supply),
            r is Err ==> final(self).total() == old(self).total(),
    {
        if !self.authorized(auth) {
            return Err(RuntimeError::ResourceDefError(ResourceDefError::UnauthorizedAccess));
        }
        let def = bucket.resource_def();
        if !def.same(&self.address) {
            return Err(RuntimeError::BucketError(crate::resource::BucketError::MismatchingResourceDef));
        }
        let amount = bucket.amount();
        self.total_supply = Decimal(self.total_supply.0 - amount.0);
        Ok(())
    }
}

} // verus!
