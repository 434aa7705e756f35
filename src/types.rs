use vstd::prelude::*;

verus! {

/// `10^18`, the raw value of one whole unit.
pub const ONE_UNIT: i128 = 1_000_000_000_000_000_000;

/// `10^n` over the integers.
pub open spec fn pow10(n: nat) -> int
    decreases n,
{
    if n == 0 {
        1
    } else {
        10 * pow10((n - 1) as nat)
    }
}

pub proof fn lemma_pow10_positive(n: nat)
    ensures
        pow10(n) >= 1,
    decreases n,
{
    if n > 0 {
        lemma_pow10_positive((n - 1) as nat);
    }
}

pub proof fn lemma_pow10_monotone(a: nat, b: nat)
    requires
        a <= b,
    ensures
        pow10(a) <= pow10(b),
    decreases b,
{
    if a < b {
        lemma_pow10_monotone(a, (b - 1) as nat);
        lemma_pow10_positive((b - 1) as nat);
    }
}

pub proof fn lemma_pow10_add(a: nat, b: nat)
    ensures
        pow10(a + b) == pow10(a) * pow10(b),
    decreases b,
{
    if b > 0 {
        lemma_pow10_add(a, (b - 1) as nat);
        assert(pow10(a + b) == 10 * pow10((a + b - 1) as nat));
        assert(pow10(a) * pow10(b) == pow10(a) * (10 * pow10((b - 1) as nat)));
        assert(pow10(a) * (10 * pow10((b - 1) as nat)) == 10 * (pow10(a) * pow10((b - 1) as nat))) by (nonlinear_arith);
    }
}

pub proof fn lemma_pow10_18()
    ensures
        pow10(18) == 1_000_000_000_000_000_000,
{
    reveal_with_fuel(pow10, 19);
}

/// A signed fixed-point number with 18 implicit fractional digits,
/// stored as its raw scaled integer.
#[derive(Clone, Copy, Debug, PartialEq, Eq, Structural)]
pub struct Decimal(pub i128);

impl Decimal {
    /// The decimal that stands for `n` whole units.
    pub fn from_units(n: u64) -> (r: Decimal)
        ensures
            r.0 == n as int * pow10(18),
    {
        proof {
            lemma_pow10_18();
        }
        Decimal((n as i128) * ONE_UNIT)
    }

    pub fn is_negative(&self) -> (r: bool)
        ensures
            r == (self.0 < 0),
    {
        self.0 < 0
    }
}

/// Transient bucket identifier.
#[derive(Clone, Copy, Debug, PartialEq, Eq, Structural)]
pub struct Bid(pub u32);

/// Transient bucket-ref identifier.
#[derive(Clone, Copy, Debug, PartialEq, Eq, Structural)]
pub struct Rid(pub u32);

/// Persistent vault identifier.
#[derive(Clone, Copy, Debug, PartialEq, Eq, Structural)]
pub struct Vid(pub u32);

/// Persistent lazy-map identifier.
#[derive(Clone, Copy, Debug, PartialEq, Eq, Structural)]
pub struct Mid(pub u32);

/// The kind of entity an address names.
#[derive(Clone, Copy, Debug, PartialEq, Eq, Structural)]
pub enum AddressKind {
    Package,
    Component,
    ResourceDef,
}

/// Number of bytes in an address after its kind byte.
pub const ADDRESS_HASH_LEN: usize = 26;

/// A 27-byte tagged identifier: one kind byte and 26 bytes of hash.
#[derive(Clone, Debug)]
pub struct Address {
    pub kind: AddressKind,
    pub hash: Vec<u8>,
}

impl View for Address {
    type V = (AddressKind, Seq<u8>);

    open spec fn view(&self) -> (AddressKind, Seq<u8>) {
        (self.kind, self.hash@)
    }
}

/// The kind byte that leads an address's binary and textual form.
pub open spec fn kind_byte(k: AddressKind) -> u8 {
    match k {
        AddressKind::Package => 1,
        AddressKind::Component => 2,
        AddressKind::ResourceDef => 3,
    }
}

impl AddressKind {
    pub fn from_byte(b: u8) -> (r: Option<AddressKind>)
        ensures
            match r {
                Some(k) => kind_byte(k) == b,
                None => b != 1 && b != 2 && b != 3,
            },
    {
        if b == 1 {
            Some(AddressKind::Package)
        } else if b == 2 {
            Some(AddressKind::Component)
        } else if b == 3 {
            Some(AddressKind::ResourceDef)
        } else {
            None
        }
    }
}

impl Address {
    pub open spec fn wf(&self) -> bool {
        self.hash@.len() == ADDRESS_HASH_LEN
    }

    pub fn new(kind: AddressKind, hash: Vec<u8>) -> (r: Address)
        ensures
            r.kind == kind,
            r.hash@ == hash@,
    {
        Address { kind, hash }
    }

    /// Whether two addresses name the same entity.
    pub fn same(&self, o: &Address) -> (r: bool)
        ensures
            r == (self@ == o@),
    {
        if self.kind != o.kind || self.hash.len() != o.hash.len() {
            return false;
        }
        let mut i: usize = 0;
        while i < self.hash.len()
            invariant
                self.hash@.len() == o.hash@.len(),
                0 <= i <= self.hash@.len(),
                forall|j: int| 0 <= j < i ==> self.hash@[j] == o.hash@[j],
            decreases self.hash@.len() - i,
        {
            if self.hash[i] != o.hash[i] {
                return false;
            }
            i = i + 1;
        }
        assert(self.hash@ =~= o.hash@);
        true
    }

    /// The address's copy with its own hash bytes.
    pub fn duplicate(&self) -> (r: Address)
        ensures
            r@ == self@,
    {
        let mut hash: Vec<u8> = Vec::new();
        let mut i: usize = 0;
        while i < self.hash.len()
            invariant
                0 <= i <= self.hash@.len(),
                hash@ == self.hash@.subrange(0, i as int),
            decreases self.hash@.len() - i,
        {
            hash.push(self.hash[i]);
            i = i + 1;
            assert(hash@ =~= self.hash@.subrange(0, i as int));
        }
        assert(hash@ =~= self.hash@);
        Address { kind: self.kind, hash }
    }
}

impl PartialEq for Address {
    fn eq(&self, o: &Address) -> (r: bool) {
        self.same(o)
    }
}

impl vstd::std_specs::cmp::PartialEqSpecImpl for Address {
    open spec fn obeys_eq_spec() -> bool {
        true
    }

    open spec fn eq_spec(&self, o: &Address) -> bool {
        self@ == o@
    }
}

} // verus!
