use vstd::prelude::*;
use crate::nft::Nft;
use crate::types::{pow10, lemma_pow10_18, lemma_pow10_monotone, lemma_pow10_positive, Address, AddressKind, Decimal, Bid, ONE_UNIT};

verus! {

/// Represents an error when accessing a bucket.
#[derive(Debug, Clone, Copy, PartialEq, Eq, Structural)]
pub enum BucketError {
    MismatchingResourceDef,
    InsufficientBalance,
    InvalidGranularity,
    GranularityCheckFailed,
    NegativeAmount,
    UnsupportedOperation,
    NftAlreadyExists,
    NftNotFound,
}

/// Whether a resource is divisible, and to which granularity.
#[derive(Debug, Clone, Copy, PartialEq, Eq, Structural)]
pub enum ResourceType {
    Fungible { granularity: u8 },
    NonFungible,
}

/// What a container holds: an amount, or a list of NFTs with their ids.
#[derive(Debug, Clone)]
pub enum ResourceSupply {
    Fungible { amount: Decimal },
    NonFungible { entries: Vec<(u128, Nft)> },
}

/// Mathematical content of a supply.
pub enum SupplyModel {
    Fungible { amount: int },
    NonFungible { entries: Seq<(u128, (Seq<u8>, Seq<u8>))> },
}

/// Mathematical content of a bucket.
pub struct BucketModel {
    pub def: (AddressKind, Seq<u8>),
    pub rtype: ResourceType,
    pub supply: SupplyModel,
}

pub open spec fn entries_model(e: Seq<(u128, Nft)>) -> Seq<(u128, (Seq<u8>, Seq<u8>))> {
    e.map_values(|p: (u128, Nft)| (p.0, p.1@))
}

impl View for ResourceSupply {
    type V = SupplyModel;

    open spec fn view(&self) -> SupplyModel {
        match self {
            ResourceSupply::Fungible { amount } => SupplyModel::Fungible { amount: amount.0 as int },
            ResourceSupply::NonFungible { entries } => SupplyModel::NonFungible {
                entries: entries_model(entries@),
            },
        }
    }
}

/// The granularity that governs amounts of a resource type: a fungible
/// amount must be a multiple of `10^(granularity - 1)` raw units.
pub open spec fn granularity_of(t: ResourceType) -> int {
    match t {
        ResourceType::Fungible { granularity } => granularity as int,
        ResourceType::NonFungible => 19,
    }
}

/// Outcome of checking an amount against a resource type.
pub open spec fn check_amount_spec(x: int, t: ResourceType) -> Result<(), BucketError> {
    if x < 0 {
        Err(BucketError::NegativeAmount)
    } else if !(1 <= granularity_of(t) <= 36) {
        Err(BucketError::InvalidGranularity)
    } else if x % pow10((granularity_of(t) - 1) as nat) != 0 {
        Err(BucketError::GranularityCheckFailed)
    } else {
        Ok(())
    }
}

/// The amount a supply stands for, in raw decimal units.
pub open spec fn supply_amount(s: SupplyModel) -> int {
    match s {
        SupplyModel::Fungible { amount } => amount,
        SupplyModel::NonFungible { entries } => entries.len() * pow10(18),
    }
}

pub open spec fn with_supply(a: BucketModel, s: SupplyModel) -> BucketModel {
    BucketModel { def: a.def, rtype: a.rtype, supply: s }
}

/// Outcome of taking `x` raw units out of `a`: what stays and what is taken.
pub open spec fn take_spec(a: BucketModel, x: int) -> Result<(BucketModel, BucketModel), BucketError> {
    match check_amount_spec(x, a.rtype) {
        Err(e) => Err(e),
        Ok(_) => if supply_amount(a.supply) < x {
            Err(BucketError::InsufficientBalance)
        } else {
            match a.supply {
                SupplyModel::Fungible { amount } => Ok(
                    (
                        with_supply(a, SupplyModel::Fungible { amount: amount - x }),
                        with_supply(a, SupplyModel::Fungible { amount: x }),
                    ),
                ),
                SupplyModel::NonFungible { entries } => {
                    let k = entries.len() - x / pow10(18);
                    Ok(
                        (
                            with_supply(a, SupplyModel::NonFungible { entries: entries.subrange(0, k) }),
                            with_supply(
                                a,
                                SupplyModel::NonFungible { entries: entries.subrange(k, entries.len() as int) },
                            ),
                        ),
                    )
                },
            }
        },
    }
}

/// Whether two NFT lists share an id.
pub open spec fn ids_collide(
    e1: Seq<(u128, (Seq<u8>, Seq<u8>))>,
    e2: Seq<(u128, (Seq<u8>, Seq<u8>))>,
) -> bool {
    exists|i: int, j: int| 0 <= i < e1.len() && 0 <= j < e2.len() && #[trigger] e1[i].0 == #[trigger] e2[j].0
}

/// Whether the ids of an NFT list are pairwise distinct.
pub open spec fn ids_unique(e: Seq<(u128, (Seq<u8>, Seq<u8>))>) -> bool {
    forall|i: int, j: int| 0 <= i < e.len() && 0 <= j < e.len() && i != j ==> #[trigger] e[i].0 != #[trigger] e[j].0
}

/// Outcome of putting `b` into `a`.
pub open spec fn put_spec(a: BucketModel, b: BucketModel) -> Result<BucketModel, BucketError> {
    if a.def != b.def {
        Err(BucketError::MismatchingResourceDef)
    } else {
        match a.supply {
            SupplyModel::Fungible { amount } => Ok(
                with_supply(a, SupplyModel::Fungible { amount: amount + supply_amount(b.supply) }),
            ),
            SupplyModel::NonFungible { entries } => match b.supply {
                SupplyModel::Fungible { .. } => Err(BucketError::UnsupportedOperation),
                SupplyModel::NonFungible { entries: e2 } => if ids_collide(entries, e2) {
                    Err(BucketError::NftAlreadyExists)
                } else {
                    Ok(with_supply(a, SupplyModel::NonFungible { entries: entries + e2 }))
                },
            },
        }
    }
}

/// Position of the NFT `id` in an NFT list, if it is there.
pub open spec fn nft_index(e: Seq<(u128, (Seq<u8>, Seq<u8>))>, id: u128) -> Option<int>
    decreases e.len(),
{
    if e.len() == 0 {
        None
    } else if e.last().0 == id {
        Some(e.len() - 1)
    } else {
        nft_index(e.drop_last(), id)
    }
}

/// Outcome of taking the single NFT `id` out of `a`.
pub open spec fn take_nft_spec(a: BucketModel, id: u128) -> Result<(BucketModel, BucketModel), BucketError> {
    match a.supply {
        SupplyModel::Fungible { .. } => Err(BucketError::UnsupportedOperation),
        SupplyModel::NonFungible { entries } => match nft_index(entries, id) {
            None => Err(BucketError::NftNotFound),
            Some(i) => Ok(
                (
                    with_supply(a, SupplyModel::NonFungible { entries: entries.remove(i) }),
                    with_supply(a, SupplyModel::NonFungible { entries: seq![entries[i]] }),
                ),
            ),
        },
    }
}

pub proof fn lemma_nft_index(e: Seq<(u128, (Seq<u8>, Seq<u8>))>, id: u128)
    ensures
        nft_index(e, id) is Some ==> 0 <= nft_index(e, id)->0 < e.len() && e[nft_index(e, id)->0].0 == id,
    decreases e.len(),
{
    if e.len() > 0 {
        lemma_nft_index(e.drop_last(), id);
    }
}

/// The local invariant of a resource container: the supply has the kind
/// of the resource type, amounts are non-negative and NFT ids distinct.
pub open spec fn model_wf(a: BucketModel) -> bool {
    match (a.rtype, a.supply) {
        (ResourceType::Fungible { .. }, SupplyModel::Fungible { amount }) => 0 <= amount <= i128::MAX,
        (ResourceType::NonFungible, SupplyModel::NonFungible { entries }) => ids_unique(entries),
        _ => false,
    }
}

/// A transient resource container.
#[derive(Debug, Clone)]
pub struct Bucket {
    resource_def: Address,
    resource_type: ResourceType,
    supply: ResourceSupply,
}

impl View for Bucket {
    type V = BucketModel;

    closed spec fn view(&self) -> BucketModel {
        BucketModel { def: self.resource_def@, rtype: self.resource_type, supply: self.supply@ }
    }
}

pub proof fn lemma_pow10_36()
    ensures
        pow10(36) == 1_000_000_000_000_000_000_000_000_000_000_000_000,
{
    reveal_with_fuel(pow10, 37);
}

/// `10^n` as an `i128`, for `n <= 36`.
fn pow10_i128(n: u8) -> (r: i128)
    requires
        n <= 36,
    ensures
        r as int == pow10(n as nat),
        r >= 1,
{
    let mut p: i128 = 1;
    let mut k: u8 = 0;
    while k < n
        invariant
            k <= n <= 36,
            p as int == pow10(k as nat),
        decreases n - k,
    {
        proof {
            lemma_pow10_36();
            lemma_pow10_monotone((k + 1) as nat, 36);
            assert(pow10((k + 1) as nat) == 10 * pow10(k as nat));
            lemma_pow10_positive(k as nat);
            assert(p as int * 10 <= 1_000_000_000_000_000_000_000_000_000_000_000_000);
        }
        p = p * 10;
        k = k + 1;
    }
    proof {
        lemma_pow10_positive(n as nat);
    }
    p
}

impl Bucket {
    pub open spec fn wf(&self) -> bool {
        model_wf(self@)
    }

    pub fn new(resource_def: Address, resource_type: ResourceType, supply: ResourceSupply) -> (r: Bucket)
        ensures
            r@ == (BucketModel { def: resource_def@, rtype: resource_type, supply: supply@ }),
    {
        Bucket { resource_def, resource_type, supply }
    }

    /// The amount held, in raw decimal units; an NFT counts as one whole unit.
    pub fn amount(&self) -> (r: Decimal)
        ensures
            r.0 as int == supply_amount(self@.supply),
    {
        match &self.supply {
            ResourceSupply::Fungible { amount } => *amount,
            ResourceSupply::NonFungible { entries } => {
                proof {
                    lemma_pow10_18();
                }
                Decimal((entries.len() as i128) * ONE_UNIT)
            },
        }
    }

    pub fn resource_def(&self) -> (r: Address)
        ensures
            r@ == self@.def,
    {
        self.resource_def.duplicate()
    }

    /// A copy of the NFTs held; fails on a fungible supply.
    pub fn entries(&self) -> (r: Result<Vec<(u128, Nft)>, BucketError>)
        ensures
            match self@.supply {
                SupplyModel::Fungible { .. } => r == Err::<Vec<(u128, Nft)>, BucketError>(
                    BucketError::UnsupportedOperation,
                ),
                SupplyModel::NonFungible { entries } => r is Ok && entries_model(r->Ok_0@) == entries,
            },
    {
        match &self.supply {
            ResourceSupply::Fungible { .. } => Err(BucketError::UnsupportedOperation),
            ResourceSupply::NonFungible { entries } => {
                let mut out: Vec<(u128, Nft)> = Vec::new();
                let mut i: usize = 0;
                while i < entries.len()
                    invariant
                        0 <= i <= entries@.len(),
                        out@.len() == i,
                        forall|j: int| 0 <= j < i ==> (#[trigger] out@[j]).0 == entries@[j].0 && out@[j].1@ == entries@[j].1@,
                    decreases entries@.len() - i,
                {
                    let e = &entries[i];
                    out.push((e.0, e.1.duplicate()));
                    i = i + 1;
                }
                assert(entries_model(out@) =~= entries_model(entries@));
                Ok(out)
            },
        }
    }

    pub(crate) fn check_amount(amount: Decimal, resource_type: &ResourceType) -> (r: Result<(), BucketError>)
        ensures
            r == check_amount_spec(amount.0 as int, *resource_type),
    {
        if amount.is_negative() {
            return Err(BucketError::NegativeAmount);
        }
        let granularity: u8 = match resource_type {
            ResourceType::Fungible { granularity } => *granularity,
            ResourceType::NonFungible => 19,
        };
        if granularity >= 1 && granularity <= 36 {
            let p = pow10_i128(granularity - 1);
            if (amount.0 as u128) % (p as u128) != 0 {
                Err(BucketError::GranularityCheckFailed)
            } else {
                Ok(())
            }
        } else {
            Err(BucketError::InvalidGranularity)
        }
    }

    /// Takes `amount_to_withdraw` out of this bucket into a new one of the
    /// same resource; on failure the bucket is left as it was.
    pub fn take(&mut self, amount_to_withdraw: Decimal) -> (r: Result<Bucket, BucketError>)
        ensures
            match take_spec(old(self)@, amount_to_withdraw.0 as int) {
                Ok((rest, taken)) => r is Ok && final(self)@ == rest && r->Ok_0@ == taken,
                Err(e) => r is Err && r->Err_0 == e && final(self)@ == old(self)@,
            },
    {
        match Self::check_amount(amount_to_withdraw, &self.resource_type) {
            Err(e) => {
                return Err(e);
            },
            Ok(()) => {},
        }
        let current = self.amount();
        if current.0 < amount_to_withdraw.0 {
            return Err(BucketError::InsufficientBalance);
        }
        let ghost a = self@;
        let mut supply = ResourceSupply::Fungible { amount: Decimal(0) };
        core::mem::swap(&mut supply, &mut self.supply);
        match supply {
            ResourceSupply::Fungible { amount } => {
                self.supply = ResourceSupply::Fungible { amount: Decimal(amount.0 - amount_to_withdraw.0) };
                let taken = Bucket::new(
                    self.resource_def.duplicate(),
                    self.resource_type,
                    ResourceSupply::Fungible { amount: amount_to_withdraw },
                );
                Ok(taken)
            },
            ResourceSupply::NonFungible { mut entries } => {
                proof {
                    lemma_pow10_18();
                }
                let count = amount_to_withdraw.0 / ONE_UNIT;
                proof {
                    assert(count <= entries@.len()) by (nonlinear_arith)
                        requires
                            count == amount_to_withdraw.0 / 1_000_000_000_000_000_000i128,
                            amount_to_withdraw.0 >= 0,
                            entries@.len() * 1_000_000_000_000_000_000 >= amount_to_withdraw.0,
                    ;
                }
                let split = entries.split_off(entries.len() - count as usize);
                proof {
                    assert(entries_model(entries@) =~= entries_model(old(self).supply->entries@).subrange(0, entries@.len() as int));
                    assert(entries_model(split@) =~= entries_model(old(self).supply->entries@).subrange(entries@.len() as int, a.supply->entries.len() as int));
                }
                self.supply = ResourceSupply::NonFungible { entries };
                let taken = Bucket::new(
                    self.resource_def.duplicate(),
                    self.resource_type,
                    ResourceSupply::NonFungible { entries: split },
                );
                Ok(taken)
            },
        }
    }

    /// Puts all of `other` into this bucket; on failure the bucket is left
    /// as it was.
    pub fn put(&mut self, other: Bucket) -> (r: Result<(), BucketError>)
        requires
            old(self)@.def == other@.def && old(self)@.supply is Fungible ==> supply_amount(old(self)@.supply)
                + supply_amount(other@.supply) <= i128::MAX,
            old(self)@.def == other@.def && old(self)@.supply is Fungible ==> supply_amount(old(self)@.supply)
                + supply_amount(other@.supply) >= i128::MIN,
        ensures
            match put_spec(old(self)@, other@) {
                Ok(m) => r is Ok && final(self)@ == m,
                Err(e) => r == Err::<(), BucketError>(e) && final(self)@ == old(self)@,
            },
    {
        if !self.resource_def.same(&other.resource_def) {
            return Err(BucketError::MismatchingResourceDef);
        }
        let other_amount = other.amount();
        let ghost a = self@;
        let ghost b = other@;
        let mut supply = ResourceSupply::Fungible { amount: Decimal(0) };
        core::mem::swap(&mut supply, &mut self.supply);
        match supply {
            ResourceSupply::Fungible { amount } => {
                self.supply = ResourceSupply::Fungible { amount: Decimal(amount.0 + other_amount.0) };
                Ok(())
            },
            ResourceSupply::NonFungible { mut entries } => {
                match other.supply {
                    ResourceSupply::Fungible { .. } => {
                        self.supply = ResourceSupply::NonFungible { entries };
                        Err(BucketError::UnsupportedOperation)
                    },
                    ResourceSupply::NonFungible { entries: incoming } => {
                        if any_id_shared(&entries, &incoming) {
                            self.supply = ResourceSupply::NonFungible { entries };
                            return Err(BucketError::NftAlreadyExists);
                        }
                        let ghost e1 = entries@;
                        let mut incoming = incoming;
                        entries.append(&mut incoming);
                        proof {
                            assert(entries_model(entries@) =~= entries_model(e1) + b.supply->entries);
                        }
                        self.supply = ResourceSupply::NonFungible { entries };
                        Ok(())
                    },
                }
            },
        }
    }
}

impl Bucket {
    /// Takes the single NFT `id` out of this bucket into a new one; on
    /// failure the bucket is left as it was.
    pub fn take_nft(&mut self, id: u128) -> (r: Result<Bucket, BucketError>)
        ensures
            match take_nft_spec(old(self)@, id) {
                Ok((rest, taken)) => r is Ok && final(self)@ == rest && r->Ok_0@ == taken,
                Err(e) => r is Err && r->Err_0 == e && final(self)@ == old(self)@,
            },
    {
        let mut supply = ResourceSupply::Fungible { amount: Decimal(0) };
        core::mem::swap(&mut supply, &mut self.supply);
        match supply {
            ResourceSupply::Fungible { amount } => {
                self.supply = ResourceSupply::Fungible { amount };
                Err(BucketError::UnsupportedOperation)
            },
            ResourceSupply::NonFungible { mut entries } => {
                let ghost m = entries_model(entries@);
                proof {
                    lemma_nft_index(m, id);
                }
                let mut i: usize = entries.len();
                assert(m.subrange(0, i as int) =~= m);
                while i > 0 && entries[i - 1].0 != id
                    invariant
                        0 <= i <= entries@.len(),
                        m == entries_model(entries@),
                        nft_index(m, id) == nft_index(m.subrange(0, i as int), id),
                    decreases i,
                {
                    assert(m.subrange(0, i as int).drop_last() =~= m.subrange(0, i - 1));
                    i = i - 1;
                }
                if i == 0 {
                    self.supply = ResourceSupply::NonFungible { entries };
                    return Err(BucketError::NftNotFound);
                }
                let k = i - 1;
                assert(m.subrange(0, i as int).last() == m[k as int]);
                assert(nft_index(m, id) == Some(k as int));
                let e = entries.remove(k);
                let ghost em = (e.0, e.1@);
                assert(entries_model(entries@) =~= m.remove(k as int));
                let mut single: Vec<(u128, Nft)> = Vec::new();
                single.push(e);
                assert(entries_model(single@) =~= seq![m[k as int]]);
                self.supply = ResourceSupply::NonFungible { entries };
                Ok(Bucket::new(self.resource_def.duplicate(), self.resource_type, ResourceSupply::NonFungible { entries: single }))
            },
        }
    }
}

/// Whether some id occurs in both lists.
fn any_id_shared(e1: &Vec<(u128, Nft)>, e2: &Vec<(u128, Nft)>) -> (r: bool)
    ensures
        r == ids_collide(entries_model(e1@), entries_model(e2@)),
{
    let ghost m1 = entries_model(e1@);
    let ghost m2 = entries_model(e2@);
    let mut i: usize = 0;
    while i < e1.len()
        invariant
            0 <= i <= e1@.len(),
            m1 == entries_model(e1@),
            m2 == entries_model(e2@),
            forall|a: int, b: int| 0 <= a < i && 0 <= b < m2.len() ==> #[trigger] m1[a].0 != #[trigger] m2[b].0,
        decreases e1@.len() - i,
    {
        let mut j: usize = 0;
        while j < e2.len()
            invariant
                0 <= i < e1@.len(),
                0 <= j <= e2@.len(),
                m1 == entries_model(e1@),
                m2 == entries_model(e2@),
                forall|a: int, b: int| 0 <= a < i && 0 <= b < m2.len() ==> #[trigger] m1[a].0 != #[trigger] m2[b].0,
                forall|b: int| 0 <= b < j ==> m1[i as int].0 != #[trigger] m2[b].0,
            decreases e2@.len() - j,
        {
            if e1[i].0 == e2[j].0 {
                assert(m1[i as int].0 == m2[j as int].0);
                return true;
            }
            j = j + 1;
        }
        i = i + 1;
    }
    false
}

/// Putting back what was taken out of a bucket gives the bucket it was,
/// when the amount is within the balance and of the right granularity.
pub proof fn lemma_take_then_put(a: BucketModel, x: int)
    requires
        model_wf(a),
        check_amount_spec(x, a.rtype) is Ok,
        x <= supply_amount(a.supply),
    ensures
        take_spec(a, x) is Ok,
        put_spec(take_spec(a, x)->Ok_0.0, take_spec(a, x)->Ok_0.1) == Ok::<BucketModel, BucketError>(a),
{
    match a.supply {
        SupplyModel::Fungible { amount } => {
            assert(amount - x + x == amount);
        },
        SupplyModel::NonFungible { entries } => {
            let k = entries.len() - x / pow10(18);
            lemma_pow10_18();
            assert(0 <= x / pow10(18) <= entries.len()) by (nonlinear_arith)
                requires
                    x >= 0,
                    pow10(18) == 1_000_000_000_000_000_000,
                    entries.len() * pow10(18) >= x,
            ;
            let e1 = entries.subrange(0, k);
            let e2 = entries.subrange(k, entries.len() as int);
            assert forall|i: int, j: int| 0 <= i < e1.len() && 0 <= j < e2.len() implies #[trigger] e1[i].0
                != #[trigger] e2[j].0 by {
                assert(e1[i] == entries[i]);
                assert(e2[j] == entries[k + j]);
            }
            assert(e1 + e2 =~= entries);
        },
    }
}

/// For a non-negative amount of the right granularity, taking fails for
/// want of balance exactly when the amount exceeds the balance.
pub proof fn lemma_take_insufficient_iff(a: BucketModel, x: int)
    requires
        check_amount_spec(x, a.rtype) is Ok,
    ensures
        (take_spec(a, x) == Err::<(BucketModel, BucketModel), BucketError>(BucketError::InsufficientBalance))
            <==> x > supply_amount(a.supply),
{
}

/// For a non-negative amount and a valid granularity, taking fails the
/// granularity check exactly when the amount is not a multiple of
/// `10^(granularity - 1)`.
pub proof fn lemma_take_granularity_iff(a: BucketModel, x: int)
    requires
        x >= 0,
        1 <= granularity_of(a.rtype) <= 36,
    ensures
        (take_spec(a, x) == Err::<(BucketModel, BucketModel), BucketError>(BucketError::GranularityCheckFailed))
            <==> x % pow10((granularity_of(a.rtype) - 1) as nat) != 0,
{
}

/// Taking moves resource from one bucket to another: the two amounts add
/// up to what the bucket held.
pub proof fn lemma_take_conserves(a: BucketModel, x: int)
    requires
        take_spec(a, x) is Ok,
    ensures
        supply_amount(take_spec(a, x)->Ok_0.0.supply) + supply_amount(take_spec(a, x)->Ok_0.1.supply)
            == supply_amount(a.supply),
        supply_amount(take_spec(a, x)->Ok_0.1.supply) == x || a.supply is NonFungible,
{
    match a.supply {
        SupplyModel::Fungible { .. } => {},
        SupplyModel::NonFungible { entries } => {
            let k = entries.len() - x / pow10(18);
            lemma_pow10_18();
            assert(0 <= x / pow10(18) <= entries.len()) by (nonlinear_arith)
                requires
                    x >= 0,
                    pow10(18) == 1_000_000_000_000_000_000,
                    entries.len() * pow10(18) >= x,
            ;
            assert(k * pow10(18) + (entries.len() - k) * pow10(18) == entries.len() * pow10(18))
                by (nonlinear_arith);
        },
    }
}

/// Putting merges two buckets: the result holds the sum of their amounts.
pub proof fn lemma_put_conserves(a: BucketModel, b: BucketModel)
    requires
        put_spec(a, b) is Ok,
    ensures
        supply_amount(put_spec(a, b)->Ok_0.supply) == supply_amount(a.supply) + supply_amount(b.supply),
{
    match (a.supply, b.supply) {
        (SupplyModel::NonFungible { entries }, SupplyModel::NonFungible { entries: e2 }) => {
            assert((entries.len() + e2.len()) * pow10(18) == entries.len() * pow10(18) + e2.len() * pow10(18))
                by (nonlinear_arith);
        },
        _ => {},
    }
}

/// A bucket that is borrowed: it may be read but not changed.
#[derive(Debug, Clone)]
pub struct LockedBucket {
    bucket_id: Bid,
    bucket: Bucket,
}

impl LockedBucket {
    pub fn new(bucket_id: Bid, bucket: Bucket) -> (r: LockedBucket)
        ensures
            r.bucket_id_spec() == bucket_id,
            r.bucket_view() == bucket@,
    {
        LockedBucket { bucket_id, bucket }
    }

    pub closed spec fn bucket_id_spec(&self) -> Bid {
        self.bucket_id
    }

    pub closed spec fn bucket_view(&self) -> BucketModel {
        self.bucket@
    }

    pub fn bucket_id(&self) -> (r: Bid)
        ensures
            r == self.bucket_id_spec(),
    {
        self.bucket_id
    }

    pub fn bucket(&self) -> (r: &Bucket)
        ensures
            r@ == self.bucket_view(),
    {
        &self.bucket
    }

    /// Releases the lock and gives the bucket back.
    pub fn into_bucket(self) -> (r: Bucket)
        ensures
            r@ == self.bucket_view(),
    {
        self.bucket
    }
}

impl From<LockedBucket> for Bucket {
    fn from(b: LockedBucket) -> (r: Bucket)
        ensures
            r@ == b.bucket_view(),
    {
        b.bucket
    }
}

impl vstd::std_specs::convert::FromSpecImpl<LockedBucket> for Bucket {
    open spec fn obeys_from_spec() -> bool {
        true
    }

    closed spec fn from_spec(b: LockedBucket) -> Bucket {
        b.bucket
    }
}

} // verus!
