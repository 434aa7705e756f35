use vstd::prelude::*;

verus! {

/// Represents an error when accessing an NFT.
#[derive(Debug, Clone, Copy, PartialEq, Eq, Structural)]
pub enum NftError {
    UnauthorizedAccess,
}

/// A piece of data that is uniquely identified within a resource.
#[derive(Debug, Clone)]
pub struct Nft {
    immutable_data: Vec<u8>,
    mutable_data: Vec<u8>,
}

/// Copy of a byte vector, element by element.
pub fn copy_bytes(v: &Vec<u8>) -> (r: Vec<u8>)
    ensures
        r@ == v@,
{
    let mut out: Vec<u8> = Vec::new();
    let mut i: usize = 0;
    while i < v.len()
        invariant
            0 <= i <= v@.len(),
            out@ == v@.subrange(0, i as int),
        decreases v@.len() - i,
    {
        out.push(v[i]);
        i = i + 1;
        assert(out@ =~= v@.subrange(0, i as int));
    }
    assert(out@ =~= v@);
    out
}

impl View for Nft {
    type V = (Seq<u8>, Seq<u8>);

    closed spec fn view(&self) -> (Seq<u8>, Seq<u8>) {
        (self.immutable_data@, self.mutable_data@)
    }
}

impl Nft {
    pub fn new(immutable_data: Vec<u8>, mutable_data: Vec<u8>) -> (r: Nft)
        ensures
            r@ == (immutable_data@, mutable_data@),
    {
        Nft { immutable_data, mutable_data }
    }

    pub fn immutable_data(&self) -> (r: Vec<u8>)
        ensures
            r@ == self@.0,
    {
        copy_bytes(&self.immutable_data)
    }

    pub fn mutable_data(&self) -> (r: Vec<u8>)
        ensures
            r@ == self@.1,
    {
        copy_bytes(&self.mutable_data)
    }

    /// Replaces the mutable part; the immutable part is kept.
    pub fn set_mutable_data(&mut self, new_mutable_data: Vec<u8>) -> (r: Result<(), NftError>)
        ensures
            r is Ok,
            final(self)@ == (old(self)@.0, new_mutable_data@),
    {
        self.mutable_data = new_mutable_data;
        Ok(())
    }

    pub fn duplicate(&self) -> (r: Nft)
        ensures
            r@ == self@,
    {
        Nft { immutable_data: copy_bytes(&self.immutable_data), mutable_data: copy_bytes(&self.mutable_data) }
    }
}

} // verus!
