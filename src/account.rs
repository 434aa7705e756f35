use vstd::prelude::*;
use crate::error::RuntimeError;
use crate::resource::{put_spec, supply_amount, take_spec, Bucket, BucketError, BucketModel, LockedBucket, SupplyModel};
use crate::types::{Address, AddressKind, Decimal};

verus! {

/// Index of the vault holding resource `def`, if any.
pub open spec fn find_def(vs: Seq<BucketModel>, def: (AddressKind, Seq<u8>)) -> Option<int>
    decreases vs.len(),
{
    if vs.len() == 0 {
        None
    } else if vs.last().def == def {
        Some(vs.len() - 1)
    } else {
        find_def(vs.drop_last(), def)
    }
}

pub proof fn lemma_find_def(vs: Seq<BucketModel>, def: (AddressKind, Seq<u8>))
    ensures
        find_def(vs, def) is Some ==> 0 <= find_def(vs, def)->0 < vs.len() && vs[find_def(vs, def)->0].def == def,
    decreases vs.len(),
{
    if vs.len() > 0 {
        lemma_find_def(vs.drop_last(), def);
    }
}

/// Whether `key` is among the addresses of `keys`.
pub open spec fn holds_key(keys: Seq<Address>, key: (AddressKind, Seq<u8>)) -> bool {
    exists|i: int| 0 <= i < keys.len() && (#[trigger] keys[i])@ == key
}

/// Whether one of the presented bucket refs locks a non-empty bucket of
/// the badge resource `key`.
pub open spec fn presents_badge(badges: Seq<LockedBucket>, key: (AddressKind, Seq<u8>)) -> bool {
    exists|i: int|
        0 <= i < badges.len() && (#[trigger] badges[i]).bucket_view().def == key && supply_amount(
            badges[i].bucket_view().supply,
        ) > 0
}

/// A withdrawal is authorised when the transaction is signed by the
/// account's key, or when the caller presents a bucket ref proving that it
/// holds some of the badge resource of that address.
pub open spec fn withdraw_authorized(
    signers: Seq<Address>,
    badges: Seq<LockedBucket>,
    key: (AddressKind, Seq<u8>),
) -> bool {
    holds_key(signers, key) || presents_badge(badges, key)
}

/// Whether a deposit of `b` into the vaults `vs` stays within the decimal range.
pub open spec fn deposit_fits(vs: Seq<BucketModel>, b: BucketModel) -> bool {
    match find_def(vs, b.def) {
        Some(i) => vs[i].supply is Fungible ==> i128::MIN <= supply_amount(vs[i].supply) + supply_amount(
            b.supply,
        ) <= i128::MAX,
        None => true,
    }
}

/// The vaults after depositing `b` into `vs`.
pub open spec fn deposit_spec(vs: Seq<BucketModel>, b: BucketModel) -> Result<Seq<BucketModel>, BucketError> {
    match find_def(vs, b.def) {
        Some(i) => match put_spec(vs[i], b) {
            Ok(m) => Ok(vs.update(i, m)),
            Err(e) => Err(e),
        },
        None => Ok(vs.push(b)),
    }
}

/// The vaults after withdrawing `x` of resource `def`, and what is taken.
pub open spec fn withdraw_spec(
    vs: Seq<BucketModel>,
    key: (AddressKind, Seq<u8>),
    signers: Seq<Address>,
    badges: Seq<LockedBucket>,
    x: int,
    def: (AddressKind, Seq<u8>),
) -> Result<(Seq<BucketModel>, BucketModel), RuntimeError> {
    if !withdraw_authorized(signers, badges, key) {
        Err(RuntimeError::UnauthorizedAccess)
    } else {
        match find_def(vs, def) {
            None => Err(RuntimeError::BucketError(BucketError::InsufficientBalance)),
            Some(i) => match take_spec(vs[i], x) {
                Ok((rest, taken)) => Ok((vs.update(i, rest), taken)),
                Err(e) => Err(RuntimeError::BucketError(e)),
            },
        }
    }
}

/// Where the account's vault can serve the amount, a withdrawal succeeds
/// exactly when a signer or a presented badge holds the account's key; an
/// unauthorised one fails with `UnauthorizedAccess` whatever the vaults hold.
pub proof fn lemma_withdraw_authorization(
    vs: Seq<BucketModel>,
    key: (AddressKind, Seq<u8>),
    signers: Seq<Address>,
    badges: Seq<LockedBucket>,
    x: int,
    def: (AddressKind, Seq<u8>),
)
    ensures
        !withdraw_authorized(signers, badges, key) ==> withdraw_spec(vs, key, signers, badges, x, def)
            == Err::<(Seq<BucketModel>, BucketModel), RuntimeError>(RuntimeError::UnauthorizedAccess),
        find_def(vs, def) is Some && take_spec(vs[find_def(vs, def)->0], x) is Ok ==> (withdraw_spec(
            vs,
            key,
            signers,
            badges,
            x,
            def,
        ) is Ok <==> withdraw_authorized(signers, badges, key)),
{
}

/// Amount of resource `def` held over all the vaults `vs`.
pub open spec fn total_of(vs: Seq<BucketModel>, def: (AddressKind, Seq<u8>)) -> int
    decreases vs.len(),
{
    if vs.len() == 0 {
        0
    } else {
        total_of(vs.drop_last(), def) + if vs.last().def == def {
            supply_amount(vs.last().supply)
        } else {
            0
        }
    }
}

proof fn lemma_total_update(vs: Seq<BucketModel>, i: int, x: BucketModel, def: (AddressKind, Seq<u8>))
    requires
        0 <= i < vs.len(),
        x.def == vs[i].def,
    ensures
        total_of(vs.update(i, x), def) == total_of(vs, def) + if vs[i].def == def {
            supply_amount(x.supply) - supply_amount(vs[i].supply)
        } else {
            0
        },
    decreases vs.len(),
{
    let us = vs.update(i, x);
    if i == vs.len() - 1 {
        assert(us.drop_last() =~= vs.drop_last());
    } else {
        assert(us.drop_last() =~= vs.drop_last().update(i, x));
        lemma_total_update(vs.drop_last(), i, x, def);
    }
}

/// Conservation in an account: depositing a bucket adds exactly its amount
/// to what the vaults hold of its resource, and leaves every other
/// resource's total as it was.
pub proof fn lemma_deposit_conserves(vs: Seq<BucketModel>, b: BucketModel, def: (AddressKind, Seq<u8>))
    requires
        deposit_spec(vs, b) is Ok,
    ensures
        total_of(deposit_spec(vs, b)->Ok_0, def) == total_of(vs, def) + if b.def == def {
            supply_amount(b.supply)
        } else {
            0
        },
{
    lemma_find_def(vs, b.def);
    match find_def(vs, b.def) {
        Some(i) => {
            crate::resource::lemma_put_conserves(vs[i], b);
            lemma_total_update(vs, i, put_spec(vs[i], b)->Ok_0, def);
        },
        None => {
            assert(vs.push(b).drop_last() =~= vs);
        },
    }
}

/// Conservation in an account: a withdrawal takes out of the vaults
/// exactly the amount of the bucket it hands out.
pub proof fn lemma_withdraw_conserves(
    vs: Seq<BucketModel>,
    key: (AddressKind, Seq<u8>),
    signers: Seq<Address>,
    badges: Seq<LockedBucket>,
    x: int,
    def: (AddressKind, Seq<u8>),
)
    requires
        withdraw_spec(vs, key, signers, badges, x, def) is Ok,
    ensures
        total_of(withdraw_spec(vs, key, signers, badges, x, def)->Ok_0.0, def) + supply_amount(
            withdraw_spec(vs, key, signers, badges, x, def)->Ok_0.1.supply,
        ) == total_of(vs, def),
        withdraw_spec(vs, key, signers, badges, x, def)->Ok_0.1.def == def,
{
    lemma_find_def(vs, def);
    let i = find_def(vs, def)->0;
    crate::resource::lemma_take_conserves(vs[i], x);
    lemma_total_update(vs, i, take_spec(vs[i], x)->Ok_0.0, def);
}

/// Whether `key` is among `keys`.
fn has_key(keys: &Vec<Address>, key: &Address) -> (r: bool)
    ensures
        r == holds_key(keys@, key@),
{
    let mut i: usize = 0;
    while i < keys.len()
        invariant
            0 <= i <= keys@.len(),
            forall|j: int| 0 <= j < i ==> (#[trigger] keys@[j])@ != key@,
        decreases keys@.len() - i,
    {
        if keys[i].same(key) {
            return true;
        }
        i = i + 1;
    }
    false
}

/// Whether one of `badges` locks a non-empty bucket of resource `key`.
fn has_badge(badges: &Vec<LockedBucket>, key: &Address) -> (r: bool)
    ensures
        r == presents_badge(badges@, key@),
{
    let mut i: usize = 0;
    while i < badges.len()
        invariant
            0 <= i <= badges@.len(),
            forall|j: int|
                0 <= j < i ==> !((#[trigger] badges@[j]).bucket_view().def == key@ && supply_amount(
                    badges@[j].bucket_view().supply,
                ) > 0),
        decreases badges@.len() - i,
    {
        let b = badges[i].bucket();
        if b.resource_def().same(key) && b.amount().0 > 0 {
            return true;
        }
        i = i + 1;
    }
    false
}

/// An account: a key and one vault per resource.
#[derive(Debug)]
pub struct Account {
    key: Address,
    vaults: Vec<Bucket>,
}

impl Account {
    pub closed spec fn key_view(&self) -> (AddressKind, Seq<u8>) {
        self.key@
    }

    pub closed spec fn vaults_view(&self) -> Seq<BucketModel> {
        self.vaults@.map_values(|b: Bucket| b@)
    }

    pub fn new(key: Address) -> (r: Account)
        ensures
            r.key_view() == key@,
            r.vaults_view().len() == 0,
    {
        let r = Account { key, vaults: Vec::new() };
        assert(r.vaults_view() =~= Seq::<BucketModel>::empty());
        r
    }

    pub fn with_bucket(key: Address, bucket: Bucket) -> (r: Account)
        ensures
            r.key_view() == key@,
            r.vaults_view() == seq![bucket@],
    {
        let ghost b = bucket@;
        let mut vaults: Vec<Bucket> = Vec::new();
        vaults.push(bucket);
        let r = Account { key, vaults };
        assert(r.vaults_view() =~= seq![b]);
        r
    }

    fn find_vault(&self, def: &Address) -> (r: Option<usize>)
        ensures
            match r {
                Some(i) => find_def(self.vaults_view(), def@) == Some(i as int),
                None => find_def(self.vaults_view(), def@) is None,
            },
            r is Some ==> r->0 < self.vaults@.len() && self.vaults_view()[r->0 as int].def == def@,
    {
        proof {
            lemma_find_def(self.vaults_view(), def@);
        }
        let ghost vs = self.vaults_view();
        let mut i: usize = self.vaults.len();
        assert(vs.subrange(0, i as int) =~= vs);
        while i > 0
            invariant
                0 <= i <= vs.len(),
                vs == self.vaults_view(),
                find_def(vs, def@) == find_def(vs.subrange(0, i as int), def@),
            decreases i,
        {
            assert(vs.subrange(0, i as int).drop_last() =~= vs.subrange(0, i - 1));
            let d = self.vaults[i - 1].resource_def();
            if d.same(def) {
                return Some(i - 1);
            }
            i = i - 1;
        }
        None
    }

    /// Deposits a bucket into the vault of its resource, creating the vault
    /// if there is none; on failure nothing changes.
    pub fn deposit(&mut self, bucket: Bucket) -> (r: Result<(), BucketError>)
        requires
            deposit_fits(old(self).vaults_view(), bucket@),
        ensures
            final(self).key_view() == old(self).key_view(),
            match deposit_spec(old(self).vaults_view(), bucket@) {
                Ok(vs) => r is Ok && final(self).vaults_view() == vs,
                Err(e) => r == Err::<(), BucketError>(e) && final(self).vaults_view() == old(self).vaults_view(),
            },
    {
        let ghost vs = self.vaults_view();
        let def = bucket.resource_def();
        match self.find_vault(&def) {
            Some(i) => {
                assert(vs[i as int] == self.vaults@[i as int]@);
                let mut v = self.vaults.remove(i);
                let r = v.put(bucket);
                self.vaults.insert(i, v);
                proof {
                    assert(self.vaults_view() =~= vs.update(i as int, v@));
                    if r is Err {
                        assert(self.vaults_view() =~= vs);
                    }
                }
                r
            },
            None => {
                self.vaults.push(bucket);
                assert(self.vaults_view() =~= vs.push(bucket@));
                Ok(())
            },
        }
    }

    /// Withdraws `amount` of `resource_address`, authorised by a signer or
    /// a presented badge holding the account's key; on failure nothing
    /// changes.
    pub fn withdraw(
        &mut self,
        signers: &Vec<Address>,
        badges: &Vec<LockedBucket>,
        amount: Decimal,
        resource_address: &Address,
    ) -> (r: Result<Bucket, RuntimeError>)
        ensures
            final(self).key_view() == old(self).key_view(),
            match withdraw_spec(
                old(self).vaults_view(),
                old(self).key_view(),
                signers@,
                badges@,
                amount.0 as int,
                resource_address@,
            ) {
                Ok((vs, taken)) => r is Ok && r->Ok_0@ == taken && final(self).vaults_view() == vs,
                Err(e) => r is Err && r->Err_0 == e && final(self).vaults_view() == old(self).vaults_view(),
            },
    {
        if !has_key(signers, &self.key) && !has_badge(badges, &self.key) {
            return Err(RuntimeError::UnauthorizedAccess);
        }
        let ghost vs = self.vaults_view();
        match self.find_vault(resource_address) {
            Some(i) => {
                assert(vs[i as int] == self.vaults@[i as int]@);
                let mut v = self.vaults.remove(i);
                let r = v.take(amount);
                self.vaults.insert(i, v);
                proof {
                    assert(self.vaults_view() =~= vs.update(i as int, v@));
                    if r is Err {
                        assert(self.vaults_view() =~= vs);
                    }
                }
                match r {
                    Ok(b) => Ok(b),
                    Err(e) => Err(RuntimeError::BucketError(e)),
                }
            },
            None => Err(RuntimeError::BucketError(BucketError::InsufficientBalance)),
        }
    }

    /// The amount held of a resource, zero where there is no vault for it.
    pub fn balance(&self, resource_address: &Address) -> (r: Decimal)
        ensures
            r.0 == match find_def(self.vaults_view(), resource_address@) {
                Some(i) => supply_amount(self.vaults_view()[i].supply),
                None => 0,
            },
    {
        match self.find_vault(resource_address) {
            Some(i) => {
                assert(self.vaults_view()[i as int] == self.vaults@[i as int]@);
                self.vaults[i].amount()
            },
            None => Decimal(0),
        }
    }
}

} // verus!
