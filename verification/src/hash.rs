//! Concurrency-bounded password hashing. The memory-hard hash needs a large
//! scratch buffer per invocation, so a fixed number of buffers is allocated
//! up front and doubles as the admission limit on concurrent hashing: a
//! request either takes a free buffer or is told the resource is exhausted,
//! never queued unboundedly. Buffers are reused without zeroing between
//! operations; residual scratch data (never the digest itself) may persist,
//! a deliberate tradeoff.
use crate::ApiError;
use vstd::prelude::*;

verus! {

/// Number of 1 KiB blocks in each scratch buffer; equal to the memory cost
/// (in KiB) that the hash runs with.
pub const SCRATCH_BLOCKS: usize = 19456;

/// Declares argon2::Block, the hash's 1 KiB memory unit, so scratch
/// buffers of it can live in verified fields; its contents stay opaque.
#[verifier::external_type_specification]
#[verifier::external_body]
pub struct ExBlock(argon2::Block);

/// The 64-byte digest that the memory-hard hash assigns to a password and
/// salt. Its value is fixed by the argon2 crate (Argon2id, version 0x13,
/// 19456-block memory cost, two passes, parallelism 1) and depends on the
/// password and salt alone.
pub uninterp spec fn argon2_digest(pwd: Seq<u8>, salt: Seq<u8>) -> Seq<u8>;

/// Relies on argon2::Block::new: one zeroed 1 KiB scratch block.
#[verifier::external_body]
fn fresh_block() -> argon2::Block {
    argon2::Block::new()
}

/// Relies on Argon2::hash_password_into_with_memory with the crate's default
/// parameters (Argon2id, 19456-block memory cost, two passes, parallelism 1,
/// no pinned output length): with a 64-byte salt, a 64-byte output buffer
/// and at least 19456 memory blocks, every error return in its source is
/// excluded, and the digest is a function of the password and salt alone.
#[verifier::external_body]
fn argon2_fill(pwd: &Vec<u8>, salt: &Vec<u8>, mem: &mut Vec<argon2::Block>) -> (out: Vec<u8>)
    requires
        pwd@.len() <= 0xFFFFFFFF,
        salt@.len() == 64,
        old(mem)@.len() >= SCRATCH_BLOCKS,
    ensures
        out@ == argon2_digest(pwd@, salt@),
        out@.len() == 64,
        final(mem)@.len() == old(mem)@.len(),
{
    let mut out = vec![0u8; 64];
    match argon2::Argon2::default().hash_password_into_with_memory(
        pwd.as_slice(),
        salt.as_slice(),
        out.as_mut_slice(),
        mem.as_mut_slice(),
    ) {
        // unreachable under this function's preconditions
        Err(_) => out,
        Ok(()) => out,
    }
}

/// The pool of preallocated scratch buffers. Its view is the busy mask of
/// its slots: `true` marks a buffer currently lent to a hash computation.
pub struct HasherPool {
    busy: Vec<bool>,
    mems: Vec<Vec<argon2::Block>>,
}

impl View for HasherPool {
    type V = Seq<bool>;

    closed spec fn view(&self) -> Seq<bool> {
        self.busy@
    }
}

/// Number of buffers currently lent out.
pub open spec fn spec_busy_count(s: Seq<bool>) -> nat
    decreases s.len(),
{
    if s.len() == 0 {
        0
    } else {
        spec_busy_count(s.drop_last()) + if s.last() {
            1nat
        } else {
            0nat
        }
    }
}

/// Some buffer is free.
pub open spec fn has_free(s: Seq<bool>) -> bool {
    exists|i: int| 0 <= i < s.len() && !s[i]
}

/// Updating one slot moves the busy count by at most one, in the expected
/// direction.
pub proof fn lemma_busy_count_update(s: Seq<bool>, i: int, b: bool)
    requires
        0 <= i < s.len(),
    ensures
        spec_busy_count(s.update(i, b)) + (if s[i] {
            1nat
        } else {
            0nat
        }) == spec_busy_count(s) + (if b {
            1nat
        } else {
            0nat
        }),
    decreases s.len(),
{
    if i == s.len() - 1 {
        assert(s.update(i, b).drop_last() =~= s.drop_last());
    } else {
        assert(s.update(i, b).drop_last() =~= s.drop_last().update(i, b));
        lemma_busy_count_update(s.drop_last(), i, b);
    }
}

/// The pool never over-subscribes its buffers: in any reachable state the
/// number of in-progress hash computations is at most the number of slots.
pub proof fn lemma_pool_never_oversubscribed(s: Seq<bool>)
    ensures
        spec_busy_count(s) <= s.len(),
    decreases s.len(),
{
    if s.len() > 0 {
        lemma_pool_never_oversubscribed(s.drop_last());
    }
}

/// A fully busy pool has no free buffer, so the next request observes
/// `ResourceExhausted` rather than waiting; with one slot, a second
/// concurrent request is refused while the first computation holds it.
pub proof fn lemma_full_pool_refuses(s: Seq<bool>)
    requires
        spec_busy_count(s) == s.len(),
    ensures
        !has_free(s),
    decreases s.len(),
{
    if s.len() > 0 {
        lemma_pool_never_oversubscribed(s.drop_last());
        if !s.last() {
            assert(false);
        } else {
            lemma_full_pool_refuses(s.drop_last());
            assert forall|i: int| 0 <= i < s.len() implies s[i] by {
                if i < s.len() - 1 {
                    assert(s.drop_last()[i] == s[i]);
                }
            }
        }
    }
}

impl HasherPool {
    /// Every scratch buffer stays fully preallocated, one per slot.
    pub closed spec fn wf(&self) -> bool {
        &&& self.mems@.len() == self.busy@.len()
        &&& forall|i: int|
            0 <= i < self.mems@.len() ==> (#[trigger] self.mems@[i])@.len() >= SCRATCH_BLOCKS
    }

    /// Preallocates `k` scratch buffers, all free. `k` is a static
    /// configuration value, not scaled to request volume.
    pub fn new(k: usize) -> (p: HasherPool)
        ensures
            p.wf(),
            p@.len() == k,
            spec_busy_count(p@) == 0,
            forall|i: int| 0 <= i < k ==> !p@[i],
    {
        let mut busy: Vec<bool> = Vec::new();
        let mut mems: Vec<Vec<argon2::Block>> = Vec::new();
        let mut n: usize = 0;
        while n < k
            invariant
                n <= k,
                busy@.len() == n,
                mems@.len() == n,
                forall|i: int| 0 <= i < n ==> !busy@[i],
                forall|i: int|
                    0 <= i < n ==> (#[trigger] mems@[i])@.len() == SCRATCH_BLOCKS,
            decreases k - n,
        {
            let mut mem: Vec<argon2::Block> = Vec::new();
            let mut m: usize = 0;
            while m < SCRATCH_BLOCKS
                invariant
                    m <= SCRATCH_BLOCKS,
                    mem@.len() == m,
                decreases SCRATCH_BLOCKS - m,
            {
                mem.push(fresh_block());
                m = m + 1;
            }
            busy.push(false);
            mems.push(mem);
            n = n + 1;
        }
        let p = HasherPool { busy, mems };
        proof {
            lemma_all_free_count_zero(p@);
        }
        p
    }

    /// Scans for a free buffer and takes the first one, or reports that none
    /// is free. Fail-fast: no queueing.
    pub fn try_acquire(&mut self) -> (r: Option<usize>)
        ensures
            final(self).wf() == old(self).wf(),
            match r {
                Some(i) => {
                    &&& 0 <= i < old(self)@.len()
                    &&& !old(self)@[i as int]
                    &&& (forall|j: int| 0 <= j < i ==> old(self)@[j])
                    &&& final(self)@ == old(self)@.update(i as int, true)
                    &&& spec_busy_count(final(self)@) == spec_busy_count(old(self)@) + 1
                },
                None => {
                    &&& !has_free(old(self)@)
                    &&& final(self)@ == old(self)@
                    &&& *final(self) == *old(self)
                },
            },
    {
        let k = self.busy.len();
        let mut i: usize = 0;
        while i < k
            invariant
                k == self.busy@.len(),
                i <= k,
                *self == *old(self),
                forall|j: int| 0 <= j < i ==> old(self)@[j],
            decreases k - i,
        {
            if !self.busy[i] {
                self.busy.set(i, true);
                proof {
                    lemma_busy_count_update(old(self)@, i as int, true);
                }
                return Some(i);
            }
            i = i + 1;
        }
        None
    }

    /// Releases a buffer taken by `try_acquire`. Runs on every exit path of
    /// a computation, so a buffer is never left permanently locked.
    pub fn release(&mut self, i: usize)
        requires
            0 <= i < old(self)@.len(),
            old(self)@[i as int],
        ensures
            final(self).wf() == old(self).wf(),
            final(self)@ == old(self)@.update(i as int, false),
            spec_busy_count(final(self)@) + 1 == spec_busy_count(old(self)@),
    {
        self.busy.set(i, false);
        proof {
            lemma_busy_count_update(old(self)@, i as int, false);
        }
    }

    /// Runs the memory-hard hash in the held buffer `i`. The buffer stays
    /// held; the caller releases it afterwards.
    pub fn hash_acquired(&mut self, i: usize, pwd: &Vec<u8>, salt: &Vec<u8>) -> (d: Vec<u8>)
        requires
            old(self).wf(),
            0 <= i < old(self)@.len(),
            old(self)@[i as int],
            pwd@.len() == 64,
            salt@.len() == 64,
        ensures
            final(self).wf(),
            final(self)@ == old(self)@,
            d@ == argon2_digest(pwd@, salt@),
            d@.len() == 64,
    {
        let mut m: Vec<argon2::Block> = Vec::new();
        self.mems.set_and_swap(i, &mut m);
        let d = argon2_fill(pwd, salt, &mut m);
        self.mems.set_and_swap(i, &mut m);
        d
    }
}

proof fn lemma_all_free_count_zero(s: Seq<bool>)
    requires
        forall|i: int| 0 <= i < s.len() ==> !s[i],
    ensures
        spec_busy_count(s) == 0,
    decreases s.len(),
{
    if s.len() > 0 {
        lemma_all_free_count_zero(s.drop_last());
    }
}

/// The pool operation of the sign-in path: take a free buffer, hash, release
/// the buffer. If no buffer is free the request is refused immediately with
/// `ResourceExhausted`; the caller decides the user-facing behavior.
pub fn hash_password(pool: &mut HasherPool, pwd: &Vec<u8>, salt: &Vec<u8>) -> (r: Result<
    Vec<u8>,
    ApiError,
>)
    requires
        old(pool).wf(),
        pwd@.len() == 64,
        salt@.len() == 64,
    ensures
        final(pool).wf(),
        final(pool)@ == old(pool)@,
        has_free(old(pool)@) ==> (r matches Ok(d) && d@ == argon2_digest(pwd@, salt@) && d@.len()
            == 64),
        !has_free(old(pool)@) ==> r == Err::<Vec<u8>, ApiError>(ApiError::ResourceExhausted),
{
    match pool.try_acquire() {
        None => Err(ApiError::ResourceExhausted),
        Some(i) => {
            let d = pool.hash_acquired(i, pwd, salt);
            pool.release(i);
            proof {
                assert(final(pool)@ =~= old(pool)@);
            }
            Ok(d)
        },
    }
}

} // verus!
