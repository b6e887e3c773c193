//! The bounded stream producer: a lazy, finite sequence of random chunks.
//!
//! A stream holds a chunk generator and a byte budget, never a chunk: each
//! pull makes one chunk and hands it over, so serving a stream keeps at most
//! the chunk in flight in memory, whatever its total size.

use vstd::prelude::*;
use vstd::arithmetic::div_mod::{lemma_div_minus_one, lemma_mod_sub_multiples_vanish};

use crate::entropy::{fill_random, EntropyError};

verus! {

/// Size of one chunk of the large download: 256 KiB.
pub const CHUNK_SIZE: usize = 262144;

/// Total size of the large download: 8 GiB.
pub const LARGE_TOTAL: u64 = 8589934592;

/// Number of chunks needed to carry `total` bytes in chunks of `size` bytes.
pub open spec fn ceil_div(total: nat, size: nat) -> nat
    recommends
        size > 0,
{
    total / size + if total % size == 0 { 0nat } else { 1nat }
}

/// The lengths of the chunks that a stream with `remaining` bytes left and
/// chunks of `size` bytes still emits, in order: full chunks, then whatever
/// is left of the budget.
pub open spec fn chunk_lengths(remaining: nat, size: nat) -> Seq<nat>
    decreases remaining,
{
    if remaining == 0 || size == 0 {
        seq![]
    } else if remaining <= size {
        seq![remaining]
    } else {
        seq![size] + chunk_lengths((remaining - size) as nat, size)
    }
}

/// Sum of a sequence of lengths.
pub open spec fn total_of(s: Seq<nat>) -> nat
    decreases s.len(),
{
    if s.len() == 0 {
        0
    } else {
        s[0] + total_of(s.drop_first())
    }
}

/// A source of chunks of one fixed size, filled from the operating system's
/// random source. Each stream owns its own generator.
pub struct ChunkGenerator {
    rng: rand::rngs::OsRng,
    size: usize,
}

impl ChunkGenerator {
    /// The size of every chunk this generator makes.
    pub closed spec fn size(&self) -> nat {
        self.size as nat
    }

    pub fn new(size: usize) -> (r: ChunkGenerator)
        requires
            size > 0,
        ensures
            r.size() == size,
    {
        ChunkGenerator { rng: rand::rngs::OsRng::default(), size }
    }

    /// One chunk of random bytes, of the generator's size.
    pub fn next_chunk(&mut self) -> (r: Result<Vec<u8>, EntropyError>)
        ensures
            final(self).size() == old(self).size(),
            r matches Ok(c) ==> c@.len() == old(self).size(),
    {
        let mut buf: Vec<u8> = vec![0u8; self.size];
        match fill_random(&mut self.rng, &mut buf) {
            Ok(()) => Ok(buf),
            Err(e) => Err(e),
        }
    }
}

/// A finite stream of random chunks: `ceil_div(total, size)` chunks that
/// together hold exactly `total` bytes, every one but the last of full size.
pub struct BoundedStream {
    generator: ChunkGenerator,
    remaining: u64,
}

impl BoundedStream {
    /// Bytes the stream has still to emit.
    pub closed spec fn remaining(&self) -> nat {
        self.remaining as nat
    }

    /// Size of a full chunk.
    pub closed spec fn chunk_size(&self) -> nat {
        self.generator.size()
    }

    pub closed spec fn wf(&self) -> bool {
        self.generator.size() > 0
    }

    /// The stream budget: chunks the stream has still to emit.
    pub open spec fn budget(&self) -> nat {
        ceil_div(self.remaining(), self.chunk_size())
    }

    /// A stream of `total` bytes in chunks of `chunk_size` bytes.
    pub fn new(total: u64, chunk_size: usize) -> (r: BoundedStream)
        requires
            chunk_size > 0,
        ensures
            r.wf(),
            r.remaining() == total,
            r.chunk_size() == chunk_size,
    {
        BoundedStream { generator: ChunkGenerator::new(chunk_size), remaining: total }
    }

    /// Chunks the stream has still to emit.
    pub fn remaining_chunks(&self) -> (r: u64)
        requires
            self.wf(),
        ensures
            r == self.budget(),
    {
        let size = self.generator.size as u64;
        let whole = self.remaining / size;
        if self.remaining % size == 0 {
            whole
        } else {
            assert(size >= 2) by {
                if size == 1 {
                    assert(self.remaining % 1 == 0);
                }
            }
            assert(whole * 2 <= self.remaining) by (nonlinear_arith)
                requires
                    whole == self.remaining / size,
                    size >= 2,
            ;
            whole + 1
        }
    }

    /// Bytes the stream has still to emit.
    pub fn remaining_bytes(&self) -> (r: u64)
        ensures
            r == self.remaining(),
    {
        self.remaining
    }

    /// The next chunk, or `None` once the budget is spent. A chunk is the
    /// first of `chunk_lengths` in length; after it the stream emits the rest
    /// of them. Where the random source fails the stream ends there.
    pub fn next(&mut self) -> (r: Option<Result<Vec<u8>, EntropyError>>)
        requires
            old(self).wf(),
        ensures
            final(self).wf(),
            final(self).chunk_size() == old(self).chunk_size(),
            old(self).remaining() == 0 <==> r is None,
            r is None ==> final(self).remaining() == 0,
            r matches Some(Ok(c)) ==> {
                &&& c@.len() == chunk_lengths(old(self).remaining(), old(self).chunk_size())[0]
                &&& chunk_lengths(final(self).remaining(), final(self).chunk_size())
                    == chunk_lengths(old(self).remaining(), old(self).chunk_size()).drop_first()
                &&& final(self).remaining() + c@.len() == old(self).remaining()
            },
            r matches Some(Err(_)) ==> final(self).remaining() == 0,
    {
        if self.remaining == 0 {
            return None;
        }
        match self.generator.next_chunk() {
            Ok(mut chunk) => {
                let size = self.generator.size;
                if self.remaining < size as u64 {
                    chunk.truncate(self.remaining as usize);
                }
                let len = chunk.len();
                proof {
                    let old_rem = self.remaining as nat;
                    let s = size as nat;
                    assert(chunk_lengths(old_rem, s)[0] == len);
                    if old_rem <= s {
                        assert(chunk_lengths((old_rem - len) as nat, s) =~= chunk_lengths(old_rem, s).drop_first());
                    } else {
                        assert(chunk_lengths((old_rem - len) as nat, s) =~= chunk_lengths(old_rem, s).drop_first());
                    }
                }
                self.remaining = self.remaining - len as u64;
                Some(Ok(chunk))
            },
            Err(e) => {
                self.remaining = 0;
                Some(Err(e))
            },
        }
    }
}

/// Draining a stream of `total` bytes in chunks of `size` bytes yields
/// `ceil_div(total, size)` chunks, none empty and none larger than `size`,
/// which together hold exactly `total` bytes.
pub proof fn lemma_drain_total(total: nat, size: nat)
    requires
        size > 0,
    ensures
        total_of(chunk_lengths(total, size)) == total,
        chunk_lengths(total, size).len() == ceil_div(total, size),
        forall|i: int|
            0 <= i < chunk_lengths(total, size).len() ==> 0 < #[trigger] chunk_lengths(total, size)[i]
                <= size,
    decreases total,
{
    let s = chunk_lengths(total, size);
    if total == 0 {
    } else if total <= size {
        assert(s.drop_first() =~= seq![]);
        assert(total_of(s.drop_first()) == 0);
        if total == size {
            assert(total / size == 1 && total % size == 0) by (nonlinear_arith)
                requires total == size, size > 0;
        } else {
            assert(total / size == 0 && total % size == total) by (nonlinear_arith)
                requires total < size, size > 0;
        }
    } else {
        let rest = (total - size) as nat;
        lemma_drain_total(rest, size);
        assert(s.drop_first() =~= chunk_lengths(rest, size));
        assert(total_of(s) == size + total_of(chunk_lengths(rest, size)));
        lemma_div_minus_one(total as int, size as int);
        lemma_mod_sub_multiples_vanish(total as int, size as int);
        assert forall|i: int| 0 <= i < s.len() implies 0 < #[trigger] s[i] <= size by {
            if i > 0 {
                assert(s[i] == chunk_lengths(rest, size)[i - 1]);
            }
        }
    }
}

/// The large download holds exactly 8 GiB, in 32768 chunks of 256 KiB each.
pub proof fn lemma_large_total()
    ensures
        total_of(chunk_lengths(LARGE_TOTAL as nat, CHUNK_SIZE as nat)) == 8589934592,
        chunk_lengths(LARGE_TOTAL as nat, CHUNK_SIZE as nat).len() == 32768,
        forall|i: int|
            0 <= i < 32768 ==> #[trigger] chunk_lengths(LARGE_TOTAL as nat, CHUNK_SIZE as nat)[i]
                == 262144,
{
    lemma_drain_total(LARGE_TOTAL as nat, CHUNK_SIZE as nat);
    lemma_full_chunks(LARGE_TOTAL as nat, CHUNK_SIZE as nat);
}

/// Where the total is a multiple of the chunk size, every chunk is full.
pub proof fn lemma_full_chunks(total: nat, size: nat)
    requires
        size > 0,
        total % size == 0,
    ensures
        forall|i: int|
            0 <= i < chunk_lengths(total, size).len() ==> #[trigger] chunk_lengths(total, size)[i]
                == size,
    decreases total,
{
    let s = chunk_lengths(total, size);
    if total == 0 {
    } else if total < size {
        assert(total % size == total) by (nonlinear_arith)
            requires total < size, size > 0;
    } else if total == size {
    } else {
        let rest = (total - size) as nat;
        lemma_mod_sub_multiples_vanish(total as int, size as int);
        lemma_full_chunks(rest, size);
        assert forall|i: int| 0 <= i < s.len() implies #[trigger] s[i] == size by {
            if i > 0 {
                assert(s[i] == chunk_lengths(rest, size)[i - 1]);
            }
        }
    }
}

/// The stream of the large download: 8 GiB in chunks of 256 KiB, that is
/// 32768 chunks.
pub fn large() -> (r: BoundedStream)
    ensures
        r.wf(),
        r.remaining() == LARGE_TOTAL,
        r.chunk_size() == CHUNK_SIZE,
        r.budget() == 32768,
{
    BoundedStream::new(LARGE_TOTAL, CHUNK_SIZE)
}

} // verus!
