//! The continuous VDF: a BLAKE3 state that walks a memory buffer, reading
//! and writing at addresses drawn from the state, and that signs blocks
//! once enough iterations have run; and the one-shot memory-hard VDF built
//! on the same step.
use vstd::prelude::*;

use crate::bytes::{be64, be32, from_be32, u32_from_be_at, u32_to_be_bytes, u64_to_be_bytes};
use crate::crypto::{blake3_spec, compute_blake3};
use crate::errors::{HashChainError, HashChainResult};
use crate::header::zero_hash_bytes;
use crate::seqs::{append_bytes, bytes_equal, copy_bytes};

verus! {

/// The seed of 32-byte memory chunk `k`: BLAKE3 of the initial state, then
/// BLAKE3 of the previous seed followed by `suffix`.
pub open spec fn memory_seed(initial: Seq<u8>, suffix: Seq<u8>, k: nat) -> Seq<u8>
    decreases k,
{
    if k == 0 {
        blake3_spec(initial)
    } else {
        blake3_spec(memory_seed(initial, suffix, (k - 1) as nat) + suffix)
    }
}

/// The initial memory: byte `i` is byte `i mod 32` of the seed of chunk
/// `i / 32`.
pub open spec fn initial_memory(initial: Seq<u8>, suffix: Seq<u8>, size: nat) -> Seq<u8> {
    Seq::new(size, |i: int| memory_seed(initial, suffix, (i / 32) as nat)[i % 32])
}

/// Fills a memory buffer of `size` bytes (`initial_memory`).
fn fill_memory(initial: &Vec<u8>, suffix: &Vec<u8>, size: usize) -> (mem: Vec<u8>)
    ensures
        mem@ == initial_memory(initial@, suffix@, size as nat),
{
    let mut mem: Vec<u8> = Vec::new();
    let mut seed = compute_blake3(initial.as_slice());
    let mut i: usize = 0;
    while i < size
        invariant
            i <= size,
            seed@ == memory_seed(initial@, suffix@, (i / 32) as nat),
            seed@.len() == 32,
            mem@ =~= Seq::new(i as nat, |j: int| memory_seed(initial@, suffix@, (j / 32) as nat)[j % 32]),
        decreases size - i,
    {
        mem.push(seed[i % 32]);
        if i % 32 == 31 {
            let mut next: Vec<u8> = Vec::new();
            append_bytes(&mut next, seed.as_slice());
            append_bytes(&mut next, suffix.as_slice());
            seed = compute_blake3(next.as_slice());
            assert((i + 1) / 32 == i / 32 + 1);
        } else {
            assert((i + 1) / 32 == i / 32);
        }
        i = i + 1;
    }
    mem
}

/// The address a state reads or writes at: the big-endian 32-bit number in
/// its bytes `at .. at + 4`, modulo `span`.
pub open spec fn state_address(state: Seq<u8>, at: int, span: nat) -> nat {
    (from_be32(state.subrange(at, at + 4)) as nat) % span
}

/// `mem` with the 32 bytes of `block` written at `addr`.
pub open spec fn write_block(mem: Seq<u8>, addr: nat, block: Seq<u8>) -> Seq<u8> {
    Seq::new(mem.len(), |i: int| if addr <= i < addr + 32 { block[i - addr] } else { mem[i] })
}

/// One step of the memory walk: read 32 bytes at the address of state bytes
/// 0..4 (modulo size - 64), hash state, those bytes and `counter`, and
/// write the new state at the address of its bytes 4..8 (modulo size - 32).
pub open spec fn walk_step(state: Seq<u8>, mem: Seq<u8>, counter: Seq<u8>) -> (Seq<u8>, Seq<u8>) {
    let read_addr = state_address(state, 0, (mem.len() - 64) as nat);
    let chunk = mem.subrange(read_addr as int, (read_addr + 32) as int);
    let next = blake3_spec(state + chunk + counter);
    let write_addr = state_address(next, 4, (mem.len() - 32) as nat);
    (next, write_block(mem, write_addr, next))
}

/// Performs `walk_step` in place and returns the new state.
fn do_walk_step(state: &Vec<u8>, mem: &mut Vec<u8>, counter: &Vec<u8>) -> (next: Vec<u8>)
    requires
        state@.len() == 32,
        old(mem)@.len() > 64,
    ensures
        (next@, final(mem)@) == walk_step(state@, old(mem)@, counter@),
        next@.len() == 32,
        final(mem)@.len() == old(mem)@.len(),
{
    let size = mem.len();
    let read_addr = (u32_from_be_at(state.as_slice(), 0) as usize) % (size - 64);
    assert(state@.subrange(0, 4) =~= state@.subrange(0, 4));
    let mut input: Vec<u8> = Vec::new();
    append_bytes(&mut input, state.as_slice());
    let mut k: usize = 0;
    while k < 32
        invariant
            k <= 32,
            mem@.len() == size,
            read_addr + 64 <= mem@.len(),
            input@ =~= state@ + mem@.subrange(read_addr as int, read_addr + k),
        decreases 32 - k,
    {
        input.push(mem[read_addr + k]);
        k = k + 1;
    }
    append_bytes(&mut input, counter.as_slice());
    let next = compute_blake3(input.as_slice());
    let write_addr = (u32_from_be_at(next.as_slice(), 4) as usize) % (size - 32);
    let ghost before = mem@;
    let mut j: usize = 0;
    while j < 32
        invariant
            j <= 32,
            mem@.len() == size,
            write_addr + 32 <= mem@.len(),
            next@.len() == 32,
            mem@.len() == before.len(),
            forall|i: int|
                0 <= i < mem@.len() ==> #[trigger] mem@[i] == (if write_addr <= i < write_addr + j {
                    next@[i - write_addr]
                } else {
                    before[i]
                }),
        decreases 32 - j,
    {
        mem.set(write_addr + j, next[j]);
        j = j + 1;
    }
    assert(mem@ =~= write_block(before, write_addr as nat, next@));
    next
}

/// The signature of a block against a VDF state: BLAKE3 of the state, the
/// height, the block hash and the iteration count (both numbers big-endian).
pub open spec fn block_signature_spec(state: Seq<u8>, block_height: u64, block_hash: Seq<u8>, total_iterations: u64) -> Seq<
    u8,
> {
    blake3_spec(state + be64(block_height) + block_hash + be64(total_iterations))
}

/// A VDF that runs continuously over a memory buffer.
pub struct ContinuousVDF {
    current_state: Vec<u8>,
    total_iterations: u64,
    last_block_height: u64,
    last_block_hash: Vec<u8>,
    memory_buffer: Vec<u8>,
    /// Size of the memory buffer in bytes.
    pub memory_size: usize,
}

impl ContinuousVDF {
    /// The current state.
    pub closed spec fn state(&self) -> Seq<u8> {
        self.current_state@
    }

    /// The iterations run so far.
    pub closed spec fn iterations(&self) -> u64 {
        self.total_iterations
    }

    /// The memory buffer.
    pub closed spec fn memory(&self) -> Seq<u8> {
        self.memory_buffer@
    }

    /// The size of the memory buffer.
    pub closed spec fn mem_size(&self) -> usize {
        self.memory_size
    }

    /// The last block signed.
    pub closed spec fn last_block(&self) -> (u64, Seq<u8>) {
        (self.last_block_height, self.last_block_hash@)
    }

    /// The state has 32 bytes and the buffer has the recorded size.
    pub closed spec fn wf(&self) -> bool {
        self.current_state@.len() == 32 && self.memory_buffer@.len() == self.memory_size
    }

    /// A VDF at a 32-byte initial state, with `memory_kb` KiB of memory
    /// filled from the state (`initial_memory` with a zero 64-bit suffix),
    /// no iteration and no block.
    pub fn new(initial_state: Vec<u8>, memory_kb: u32) -> (v: ContinuousVDF)
        requires
            initial_state@.len() == 32,
            memory_kb as nat * 1024 <= usize::MAX,
        ensures
            v.wf(),
            v.state() == initial_state@,
            v.iterations() == 0,
            v.mem_size() == memory_kb as nat * 1024,
            v.memory() == initial_memory(initial_state@, be64(0), memory_kb as nat * 1024),
            v.last_block() == (0u64, crate::header::zero_hash()),
    {
        let memory_size = memory_kb as usize * 1024;
        let suffix = u64_to_be_bytes(0);
        let memory_buffer = fill_memory(&initial_state, &suffix, memory_size);
        ContinuousVDF {
            current_state: initial_state,
            total_iterations: 0,
            last_block_height: 0,
            last_block_hash: zero_hash_bytes(),
            memory_buffer,
            memory_size,
        }
    }

    /// Performs one iteration (`walk_step` with the iteration count as a
    /// big-endian 64-bit counter) and returns the new state.
    pub fn iterate(&mut self) -> (s: Vec<u8>)
        requires
            old(self).wf(),
            old(self).mem_size() > 64,
            old(self).iterations() < u64::MAX,
        ensures
            final(self).wf(),
            (final(self).state(), final(self).memory()) == walk_step(
                old(self).state(),
                old(self).memory(),
                be64(old(self).iterations()),
            ),
            final(self).iterations() == old(self).iterations() + 1,
            final(self).mem_size() == old(self).mem_size(),
            final(self).last_block() == old(self).last_block(),
            s@ == final(self).state(),
    {
        let counter = u64_to_be_bytes(self.total_iterations);
        let next = do_walk_step(&self.current_state, &mut self.memory_buffer, &counter);
        self.current_state = copy_bytes(next.as_slice());
        self.total_iterations = self.total_iterations + 1;
        next
    }

    /// The current state and iteration count.
    pub fn get_state(&self) -> (r: (Vec<u8>, u64))
        ensures
            r.0@ == self.state(),
            r.1 == self.iterations(),
    {
        (copy_bytes(self.current_state.as_slice()), self.total_iterations)
    }

    /// Signs a block against the current state (`block_signature_spec`) and
    /// records it as the last block. Fewer iterations than required is a
    /// VDF error and changes nothing.
    pub fn sign_block(&mut self, block_height: u64, block_hash: Vec<u8>, required_iterations: u64) -> (r:
        HashChainResult<Vec<u8>>)
        ensures
            old(self).iterations() < required_iterations ==> (r matches Err(e) && e is VDFError) && *final(self) == *old(
                self,
            ),
            old(self).iterations() >= required_iterations ==> (r matches Ok(sig) && sig@ == block_signature_spec(
                old(self).state(),
                block_height,
                block_hash@,
                old(self).iterations(),
            )) && final(self).last_block() == (block_height, block_hash@),
            final(self).state() == old(self).state(),
            final(self).iterations() == old(self).iterations(),
            final(self).memory() == old(self).memory(),
            final(self).mem_size() == old(self).mem_size(),
            old(self).wf() ==> final(self).wf(),
    {
        if self.total_iterations < required_iterations {
            return Err(HashChainError::VDFError(String::from_str("Insufficient VDF iterations")));
        }
        let signature = self.signature_of(block_height, &block_hash);
        self.last_block_height = block_height;
        self.last_block_hash = block_hash;
        Ok(signature)
    }

    /// The signature of a block against the current state.
    fn signature_of(&self, block_height: u64, block_hash: &Vec<u8>) -> (sig: Vec<u8>)
        ensures
            sig@ == block_signature_spec(self.state(), block_height, block_hash@, self.iterations()),
    {
        let mut data: Vec<u8> = Vec::new();
        append_bytes(&mut data, self.current_state.as_slice());
        append_bytes(&mut data, u64_to_be_bytes(block_height).as_slice());
        append_bytes(&mut data, block_hash.as_slice());
        append_bytes(&mut data, u64_to_be_bytes(self.total_iterations).as_slice());
        assert(data@ =~= self.current_state@ + be64(block_height) + block_hash@ + be64(self.total_iterations));
        compute_blake3(data.as_slice())
    }

    /// Whether a block signature is the one the current state gives, with
    /// at least the required iterations run.
    pub fn verify_block_signature(
        &self,
        block_height: u64,
        block_hash: &Vec<u8>,
        signature: &Vec<u8>,
        required_iterations: u64,
    ) -> (ok: bool)
        ensures
            ok == (self.iterations() >= required_iterations && signature@ == block_signature_spec(
                self.state(),
                block_height,
                block_hash@,
                self.iterations(),
            )),
    {
        if self.total_iterations < required_iterations {
            return false;
        }
        let expected = self.signature_of(block_height, block_hash);
        bytes_equal(signature.as_slice(), expected.as_slice())
    }
}

/// A block signed by a VDF verifies against the VDF it was signed with, for
/// the same height, hash and requirement.
pub proof fn lemma_sign_then_verify(
    before: ContinuousVDF,
    after: ContinuousVDF,
    block_height: u64,
    block_hash: Seq<u8>,
    required_iterations: u64,
    signature: Seq<u8>,
)
    requires
        before.iterations() >= required_iterations,
        signature == block_signature_spec(before.state(), block_height, block_hash, before.iterations()),
        after.state() == before.state(),
        after.iterations() == before.iterations(),
    ensures
        after.iterations() >= required_iterations && signature == block_signature_spec(
            after.state(),
            block_height,
            block_hash,
            after.iterations(),
        ),
{
}

/// The state and memory after `k` steps of the one-shot memory-hard VDF:
/// step `i` uses `i` as a big-endian 32-bit counter.
pub open spec fn memory_hard_run(start: Seq<u8>, mem: Seq<u8>, k: nat) -> (Seq<u8>, Seq<u8>)
    decreases k,
{
    if k == 0 {
        (start, mem)
    } else {
        let prev = memory_hard_run(start, mem, (k - 1) as nat);
        walk_step(prev.0, prev.1, be32((k - 1) as u32))
    }
}

/// The output of the one-shot memory-hard VDF: the memory of `memory_kb`
/// KiB is filled from BLAKE3 of the input with the iteration count as a
/// big-endian 32-bit suffix, the walk starts at BLAKE3 of the input and runs
/// `iterations` steps.
pub open spec fn memory_hard_vdf_output(input: Seq<u8>, iterations: u32, memory_kb: u32) -> Seq<u8> {
    memory_hard_run(
        blake3_spec(input),
        initial_memory(input, be32(iterations), memory_kb as nat * 1024),
        iterations as nat,
    ).0
}

/// Runs the one-shot memory-hard VDF (`memory_hard_vdf_output`) and returns
/// its output with the memory used in bytes. The time it took is measured by
/// the caller.
pub fn compute_memory_hard_vdf(input: &[u8], iterations: u32, memory_kb: u32) -> (r: HashChainResult<(Vec<u8>, u64)>)
    requires
        memory_kb as nat * 1024 > 64,
        memory_kb as nat * 1024 <= usize::MAX,
    ensures
        r matches Ok(out) && out.0@ == memory_hard_vdf_output(input@, iterations, memory_kb) && out.1
            == memory_kb as nat * 1024,
{
    let memory_size = memory_kb as usize * 1024;
    let input_vec = copy_bytes(input);
    let suffix = u32_to_be_bytes(iterations);
    let mut memory_buffer = fill_memory(&input_vec, &suffix, memory_size);
    let mut state = compute_blake3(input);
    let ghost mem0 = memory_buffer@;
    let mut i: u32 = 0;
    while i < iterations
        invariant
            i <= iterations,
            state@.len() == 32,
            memory_buffer@.len() == memory_size,
            memory_size > 64,
            (state@, memory_buffer@) == memory_hard_run(blake3_spec(input@), mem0, i as nat),
        decreases iterations - i,
    {
        let counter = u32_to_be_bytes(i);
        state = do_walk_step(&state, &mut memory_buffer, &counter);
        i = i + 1;
    }
    Ok((state, memory_kb as u64 * 1024))
}

} // verus!
