use vstd::prelude::*;
use crate::error::RuntimeError;
use crate::resource::{Bucket, BucketModel};
use crate::types::{Bid, Rid};

verus! {

/// Position of `bid` among the ids a frame holds, if it holds it.
pub open spec fn frame_index(ids: Seq<Bid>, bid: Bid) -> Option<int>
    decreases ids.len(),
{
    if ids.len() == 0 {
        None
    } else if ids.last() == bid {
        Some(ids.len() - 1)
    } else {
        frame_index(ids.drop_last(), bid)
    }
}

pub proof fn lemma_frame_index(ids: Seq<Bid>, bid: Bid)
    ensures
        frame_index(ids, bid) is Some <==> ids.contains(bid),
        frame_index(ids, bid) is Some ==> 0 <= frame_index(ids, bid)->0 < ids.len() && ids[frame_index(ids, bid)->0]
            == bid,
    decreases ids.len(),
{
    if ids.len() > 0 {
        lemma_frame_index(ids.drop_last(), bid);
        if ids.last() != bid && ids.contains(bid) {
            let k = choose|k: int| 0 <= k < ids.len() && ids[k] == bid;
            assert(ids.drop_last()[k] == bid);
        }
        if frame_index(ids.drop_last(), bid) is Some {
            assert(ids.drop_last().contains(bid));
            let k = choose|k: int| 0 <= k < ids.drop_last().len() && ids.drop_last()[k] == bid;
            assert(ids[k] == bid);
        }
    }
}

/// Frame isolation: a frame reaches only the buckets it holds, so an id
/// that was neither created in the frame nor passed to it is not found.
pub proof fn lemma_frame_isolation(ids: Seq<Bid>, bid: Bid)
    requires
        !ids.contains(bid),
    ensures
        frame_index(ids, bid) is None,
{
    lemma_frame_index(ids, bid);
}

/// Position of `rid` among the refs a frame holds, if it holds it.
pub open spec fn ref_index(refs: Seq<Rid>, rid: Rid) -> Option<int>
    decreases refs.len(),
{
    if refs.len() == 0 {
        None
    } else if refs.last() == rid {
        Some(refs.len() - 1)
    } else {
        ref_index(refs.drop_last(), rid)
    }
}

pub proof fn lemma_ref_index(refs: Seq<Rid>, rid: Rid)
    ensures
        ref_index(refs, rid) is Some <==> refs.contains(rid),
        ref_index(refs, rid) is Some ==> 0 <= ref_index(refs, rid)->0 < refs.len() && refs[ref_index(refs, rid)->0]
            == rid,
    decreases refs.len(),
{
    if refs.len() > 0 {
        lemma_ref_index(refs.drop_last(), rid);
        if refs.last() != rid && refs.contains(rid) {
            let k = choose|k: int| 0 <= k < refs.len() && refs[k] == rid;
            assert(refs.drop_last()[k] == rid);
        }
        if ref_index(refs.drop_last(), rid) is Some {
            assert(refs.drop_last().contains(rid));
            let k = choose|k: int| 0 <= k < refs.drop_last().len() && refs.drop_last()[k] == rid;
            assert(refs[k] == rid);
        }
    }
}

/// One invocation's movable set: buckets, each under its id, and bucket
/// refs.
#[derive(Debug)]
pub struct CallFrame {
    ids: Vec<Bid>,
    buckets: Vec<Bucket>,
    refs: Vec<Rid>,
    next_id: u32,
}

impl CallFrame {
    /// Ids of the buckets the frame holds.
    pub closed spec fn ids_view(&self) -> Seq<Bid> {
        self.ids@
    }

    /// The buckets the frame holds, in the order of `ids_view`.
    pub closed spec fn buckets_view(&self) -> Seq<BucketModel> {
        self.buckets@.map_values(|b: Bucket| b@)
    }

    /// The bucket refs the frame holds.
    pub closed spec fn refs_view(&self) -> Seq<Rid> {
        self.refs@
    }

    /// The id the next bucket created here will get.
    pub closed spec fn next_id_view(&self) -> u32 {
        self.next_id
    }

    /// Every held id is distinct, and ids and buckets pair up.
    pub closed spec fn wf(&self) -> bool {
        &&& self.ids@.len() == self.buckets@.len()
        &&& forall|i: int, j: int| 0 <= i < self.ids@.len() && 0 <= j < self.ids@.len() && i != j ==> #[trigger] self.ids@[i] != #[trigger] self.ids@[j]
    }

    /// A frame whose own ids start at `first_id`.
    pub fn new(first_id: u32) -> (r: CallFrame)
        ensures
            r.wf(),
            r.ids_view().len() == 0,
            r.refs_view().len() == 0,
            r.next_id_view() == first_id,
    {
        let r = CallFrame { ids: Vec::new(), buckets: Vec::new(), refs: Vec::new(), next_id: first_id };
        r
    }

    pub fn is_empty(&self) -> (r: bool)
        requires
            self.wf(),
        ensures
            r == (self.ids_view().len() == 0 && self.refs_view().len() == 0),
    {
        self.ids.len() == 0 && self.refs.len() == 0
    }

    /// Receives a bucket ref passed in as an argument; a ref already held
    /// is refused.
    pub fn receive_ref(&mut self, rid: Rid) -> (r: bool)
        requires
            old(self).wf(),
        ensures
            final(self).wf(),
            r == !old(self).refs_view().contains(rid),
            r ==> final(self).refs_view() == old(self).refs_view().push(rid),
            !r ==> final(self).refs_view() == old(self).refs_view(),
            final(self).ids_view() == old(self).ids_view(),
            final(self).buckets_view() == old(self).buckets_view(),
            final(self).next_id_view() == old(self).next_id_view(),
    {
        proof {
            lemma_ref_index(self.refs@, rid);
        }
        match self.find_ref(rid) {
            Some(_) => false,
            None => {
                self.refs.push(rid);
                true
            },
        }
    }

    /// Gives up the bucket ref `rid`; a ref the frame does not hold is not
    /// found.
    pub fn take_ref(&mut self, rid: Rid) -> (r: Result<(), RuntimeError>)
        requires
            old(self).wf(),
        ensures
            final(self).wf(),
            final(self).ids_view() == old(self).ids_view(),
            final(self).buckets_view() == old(self).buckets_view(),
            final(self).next_id_view() == old(self).next_id_view(),
            match ref_index(old(self).refs_view(), rid) {
                None => r == Err::<(), RuntimeError>(RuntimeError::BucketRefNotFound(rid))
                    && final(self).refs_view() == old(self).refs_view(),
                Some(i) => r is Ok && final(self).refs_view() == old(self).refs_view().remove(i),
            },
    {
        match self.find_ref(rid) {
            None => Err(RuntimeError::BucketRefNotFound(rid)),
            Some(i) => {
                self.refs.remove(i);
                Ok(())
            },
        }
    }

    fn find_ref(&self, rid: Rid) -> (r: Option<usize>)
        ensures
            match r {
                Some(i) => ref_index(self.refs_view(), rid) == Some(i as int) && i < self.refs@.len(),
                None => ref_index(self.refs_view(), rid) is None,
            },
    {
        let ghost refs = self.refs@;
        let mut i: usize = self.refs.len();
        assert(refs.subrange(0, i as int) =~= refs);
        while i > 0
            invariant
                0 <= i <= refs.len(),
                refs == self.refs@,
                ref_index(refs, rid) == ref_index(refs.subrange(0, i as int), rid),
            decreases i,
        {
            assert(refs.subrange(0, i as int).drop_last() =~= refs.subrange(0, i - 1));
            if self.refs[i - 1] == rid {
                return Some(i - 1);
            }
            i = i - 1;
        }
        None
    }

    fn find(&self, bid: Bid) -> (r: Option<usize>)
        requires
            self.wf(),
        ensures
            match r {
                Some(i) => frame_index(self.ids_view(), bid) == Some(i as int) && i < self.ids@.len(),
                None => frame_index(self.ids_view(), bid) is None,
            },
    {
        let ghost ids = self.ids@;
        let mut i: usize = self.ids.len();
        assert(ids.subrange(0, i as int) =~= ids);
        while i > 0
            invariant
                0 <= i <= ids.len(),
                ids == self.ids@,
                frame_index(ids, bid) == frame_index(ids.subrange(0, i as int), bid),
            decreases i,
        {
            assert(ids.subrange(0, i as int).drop_last() =~= ids.subrange(0, i - 1));
            if self.ids[i - 1] == bid {
                return Some(i - 1);
            }
            i = i - 1;
        }
        None
    }

    /// Holds a new bucket under the first id from `next_id` on that the
    /// frame does not hold; fails once the ids are used up.
    pub fn create_bucket(&mut self, bucket: Bucket) -> (r: Result<Bid, RuntimeError>)
        requires
            old(self).wf(),
        ensures
            final(self).wf(),
            final(self).refs_view() == old(self).refs_view(),
            match r {
                Ok(bid) => {
                    &&& old(self).next_id_view() <= bid.0 < u32::MAX
                    &&& !old(self).ids_view().contains(bid)
                    &&& forall|j: u32| old(self).next_id_view() <= j < bid.0 ==> old(self).ids_view().contains(Bid(j))
                    &&& final(self).ids_view() == old(self).ids_view().push(bid)
                    &&& final(self).buckets_view() == old(self).buckets_view().push(bucket@)
                    &&& final(self).next_id_view() == bid.0 + 1
                },
                Err(e) => {
                    &&& e is BucketNotReserved
                    &&& forall|j: u32| old(self).next_id_view() <= j < u32::MAX ==> old(self).ids_view().contains(Bid(j))
                    &&& *final(self) == *old(self)
                },
            },
    {
        let mut k: u32 = self.next_id;
        while k < u32::MAX && self.find(Bid(k)).is_some()
            invariant
                self.wf(),
                old(self).next_id_view() <= k <= u32::MAX,
                *self == *old(self),
                forall|j: u32| old(self).next_id_view() <= j < k ==> self.ids_view().contains(Bid(j)),
            decreases u32::MAX - k,
        {
            proof {
                lemma_frame_index(self.ids@, Bid(k));
            }
            k = k + 1;
        }
        if k == u32::MAX {
            return Err(RuntimeError::BucketNotReserved);
        }
        proof {
            lemma_frame_index(self.ids@, Bid(k));
        }
        let bid = Bid(k);
        let ghost bs = self.buckets_view();
        let ghost b = bucket@;
        let ghost ids = self.ids@;
        self.ids.push(bid);
        self.buckets.push(bucket);
        self.next_id = k + 1;
        assert(self.buckets_view() =~= bs.push(b));
        assert forall|x: int, y: int| 0 <= x < self.ids@.len() && 0 <= y < self.ids@.len() && x != y implies #[trigger] self.ids@[x] != #[trigger] self.ids@[y] by {
            if x == ids.len() {
                assert(ids[y] != bid);
            } else if y == ids.len() {
                assert(ids[x] != bid);
            }
        }
        Ok(bid)
    }

    /// Gives up the bucket `bid`; a bucket the frame does not hold is not
    /// found.
    pub fn take_bucket(&mut self, bid: Bid) -> (r: Result<Bucket, RuntimeError>)
        requires
            old(self).wf(),
        ensures
            final(self).wf(),
            final(self).refs_view() == old(self).refs_view(),
            final(self).next_id_view() == old(self).next_id_view(),
            match frame_index(old(self).ids_view(), bid) {
                None => r is Err && r->Err_0 == RuntimeError::BucketNotFound(bid) && *final(self) == *old(self),
                Some(i) => r is Ok && r->Ok_0@ == old(self).buckets_view()[i] && final(self).ids_view()
                    == old(self).ids_view().remove(i) && final(self).buckets_view()
                    == old(self).buckets_view().remove(i),
            },
    {
        match self.find(bid) {
            None => Err(RuntimeError::BucketNotFound(bid)),
            Some(i) => {
                let ghost ids = self.ids@;
                let ghost bs = self.buckets_view();
                assert(bs[i as int] == self.buckets@[i as int]@);
                self.ids.remove(i);
                let b = self.buckets.remove(i);
                assert(self.buckets_view() =~= bs.remove(i as int));
                assert forall|x: int, y: int| 0 <= x < self.ids@.len() && 0 <= y < self.ids@.len() && x != y implies #[trigger] self.ids@[x] != #[trigger] self.ids@[y] by {
                    let ox = if x < i { x } else { x + 1 };
                    let oy = if y < i { y } else { y + 1 };
                    assert(self.ids@[x] == ids[ox]);
                    assert(self.ids@[y] == ids[oy]);
                }
                Ok(b)
            },
        }
    }

    /// Receives a bucket passed in under its caller's id; an id already
    /// held here is refused and the bucket handed back.
    pub fn receive_bucket(&mut self, bid: Bid, bucket: Bucket) -> (r: Result<(), Bucket>)
        requires
            old(self).wf(),
        ensures
            final(self).wf(),
            final(self).refs_view() == old(self).refs_view(),
            final(self).next_id_view() == old(self).next_id_view(),
            old(self).ids_view().contains(bid) ==> r is Err && r->Err_0@ == bucket@ && *final(self) == *old(self),
            !old(self).ids_view().contains(bid) ==> r is Ok && final(self).ids_view() == old(self).ids_view().push(bid)
                && final(self).buckets_view() == old(self).buckets_view().push(bucket@),
    {
        proof {
            lemma_frame_index(self.ids@, bid);
        }
        match self.find(bid) {
            Some(_) => Err(bucket),
            None => {
                let ghost bs = self.buckets_view();
                let ghost b = bucket@;
                let ghost ids = self.ids@;
                self.ids.push(bid);
                self.buckets.push(bucket);
                assert(self.buckets_view() =~= bs.push(b));
                assert forall|x: int, y: int| 0 <= x < self.ids@.len() && 0 <= y < self.ids@.len() && x != y implies #[trigger] self.ids@[x] != #[trigger] self.ids@[y] by {
                    if x == ids.len() {
                        assert(!ids.contains(bid));
                        assert(ids[y] != bid);
                    } else if y == ids.len() {
                        assert(ids[x] != bid);
                    }
                }
                Ok(())
            },
        }
    }

    /// The check when the frame returns at the top: any bucket left is a leak.
    pub fn check_leak(&self) -> (r: Result<(), RuntimeError>)
        requires
            self.wf(),
        ensures
            r is Ok <==> self.ids_view().len() == 0 && self.refs_view().len() == 0,
            r is Err ==> r->Err_0 is ResourceCheckFailure,
    {
        if self.ids.len() == 0 && self.refs.len() == 0 {
            Ok(())
        } else {
            Err(RuntimeError::ResourceCheckFailure)
        }
    }
}

} // verus!
