//! The memory-hard VDF: a SHA-256 state that reads 1 KiB and writes 32 bytes
//! of a large memory buffer at addresses drawn from the state, sampling its
//! memory accesses so that a verifier can check the run.
use vstd::prelude::*;
use vstd::string::StringSliceAdditionalSpecFns;

use crate::bytes::{be32, be64, from_be64, u32_to_be_bytes, u64_from_be_at, u64_to_be_bytes};
use crate::commitments::invalid_argument;
use crate::consts::{MEMORY_HARD_ITERATIONS, MEMORY_HARD_VDF_MEMORY};
use crate::crypto::{sha256, sha256_spec};
use crate::errors::{HashChainError, HashChainResult};
use crate::seqs::{append_bytes, bytes_equal, copy_bytes};
use crate::types::{MemoryAccessSample, MemoryHardVDFProof, MultiSourceEntropy};
use crate::vdf::write_block;

verus! {

/// Smallest memory buffer the VDF accepts (1 MiB).
pub const MIN_MEMORY_SIZE: usize = 1048576;
/// Iterations per second assumed before any calibration.
pub const INITIAL_ITERATIONS_PER_SECOND: u32 = 375000;
/// Fewest iterations of a run shorter than a production window.
pub const MIN_TARGET_ITERATIONS: u32 = 10000;
/// A memory access is sampled every this many iterations.
pub const SAMPLE_INTERVAL: u32 = 50000;
/// Iterations that a verifier recomputes.
pub const SPOT_CHECK_ITERATIONS: u32 = 1000;
/// Bounds of the calibrated rate.
pub const MIN_CALIBRATED_RATE: u32 = 100000;
/// Upper bound of the calibrated rate.
pub const MAX_CALIBRATED_RATE: u32 = 1000000;

/// The hash of memory chunk `k`: SHA-256 of the input (for the first chunk)
/// or of the previous chunk's hash, followed by `k` as 8 big-endian bytes.
pub open spec fn mh_seed(input: Seq<u8>, k: nat) -> Seq<u8>
    decreases k,
{
    if k == 0 {
        sha256_spec(input + be64(0))
    } else {
        sha256_spec(mh_seed(input, (k - 1) as nat) + be64(k as u64))
    }
}

/// `mem` after initialisation from `input`: every whole 32-byte chunk `k`
/// holds `mh_seed(input, k)`; the bytes after the last whole chunk keep
/// their values.
pub open spec fn mh_initialized(input: Seq<u8>, mem: Seq<u8>) -> Seq<u8> {
    Seq::new(
        mem.len(),
        |i: int|
            if i < mem.len() - mem.len() % 32 {
                mh_seed(input, (i / 32) as nat)[i % 32]
            } else {
                mem[i]
            },
    )
}

/// A fresh buffer of `size` zero bytes initialised from `input`.
pub open spec fn mh_initial_memory(input: Seq<u8>, size: nat) -> Seq<u8> {
    mh_initialized(input, Seq::new(size, |i: int| 0u8))
}

/// The address an iteration reads 1 KiB at: the first 8 bytes of SHA-256 of
/// the state and the iteration (big-endian), modulo `size - 1024`.
pub open spec fn mh_read_addr(state: Seq<u8>, iteration: u32, size: nat) -> nat {
    (from_be64(sha256_spec(state + be32(iteration))) as nat) % ((size - 1024) as nat)
}

/// SHA-256 of the 1 KiB an iteration reads.
pub open spec fn mh_memory_hash(state: Seq<u8>, mem: Seq<u8>, iteration: u32) -> Seq<u8> {
    let r = mh_read_addr(state, iteration, mem.len());
    sha256_spec(mem.subrange(r as int, r as int + 1024))
}

/// The state after an iteration: SHA-256 of the state, the memory hash, the
/// iteration (big-endian) and the tag `memory_hard_vdf`.
pub open spec fn mh_next_state(state: Seq<u8>, mem: Seq<u8>, iteration: u32) -> Seq<u8> {
    sha256_spec(
        state + mh_memory_hash(state, mem, iteration) + be32(iteration)
            + "memory_hard_vdf".spec_bytes(),
    )
}

/// The address a new state is written at: the first 8 bytes of SHA-256 of the
/// state and the tag `write`, modulo `size - 32`.
pub open spec fn mh_write_addr(next: Seq<u8>, size: nat) -> nat {
    (from_be64(sha256_spec(next + "write".spec_bytes())) as nat) % ((size - 32) as nat)
}

/// One iteration: the new state, and the memory with it written at its
/// write address.
pub open spec fn mh_step(state: Seq<u8>, mem: Seq<u8>, iteration: u32) -> (Seq<u8>, Seq<u8>) {
    let next = mh_next_state(state, mem, iteration);
    (next, write_block(mem, mh_write_addr(next, mem.len()), next))
}

/// State and memory after the iterations `0 .. k`.
pub open spec fn mh_run(state: Seq<u8>, mem: Seq<u8>, k: nat) -> (Seq<u8>, Seq<u8>)
    decreases k,
{
    if k == 0 {
        (state, mem)
    } else {
        let prev = mh_run(state, mem, (k - 1) as nat);
        mh_step(prev.0, prev.1, (k - 1) as u32)
    }
}

/// A run keeps the size of the memory.
pub proof fn lemma_mh_run_len(state: Seq<u8>, mem: Seq<u8>, k: nat)
    ensures
        mh_run(state, mem, k).1.len() == mem.len(),
    decreases k,
{
    if k > 0 {
        lemma_mh_run_len(state, mem, (k - 1) as nat);
    }
}

/// `s` is the access sample of iteration `iteration` of the run from
/// `start` over `mem`.
pub open spec fn mh_sample_matches(s: MemoryAccessSample, start: Seq<u8>, mem: Seq<u8>, iteration: nat) -> bool {
    let prev = mh_run(start, mem, iteration);
    &&& s.iteration == iteration
    &&& s.read_address == mh_read_addr(prev.0, iteration as u32, mem.len())
    &&& s.write_address == mh_write_addr(mh_step(prev.0, prev.1, iteration as u32).0, mem.len())
    &&& s.memory_content_hash@ == mh_memory_hash(prev.0, prev.1, iteration as u32)
}

/// Number of samples a run of `n` iterations takes: one for every iteration
/// that is a multiple of the sample interval.
pub open spec fn sample_count(n: nat) -> nat {
    ((n + SAMPLE_INTERVAL - 1) as int / (SAMPLE_INTERVAL as int)) as nat
}

/// One more iteration adds a sample exactly when its number is a multiple
/// of the sample interval, and then that number is the interval times the
/// samples taken before.
proof fn lemma_sample_count_step(i: nat)
    ensures
        i % (SAMPLE_INTERVAL as nat) == 0 ==> sample_count(i + 1) == sample_count(i) + 1 && SAMPLE_INTERVAL
            * sample_count(i) == i,
        i % (SAMPLE_INTERVAL as nat) != 0 ==> sample_count(i + 1) == sample_count(i),
{
    let q = i / 50000;
    let r = i % 50000;
    assert(i == 50000 * q + r);
    if r == 0 {
        assert((i + 49999) / 50000 == q);
        assert((i + 1 + 49999) / 50000 == q + 1);
    } else {
        assert((i + 49999) / 50000 == q + 1);
        assert((i + 1 + 49999) / 50000 == q + 1);
    }
}

/// The rate a calibration settles on: `rate` clamped to the calibration bounds.
pub open spec fn clamp_rate(rate: u32) -> u32 {
    if rate < MIN_CALIBRATED_RATE {
        MIN_CALIBRATED_RATE
    } else if rate > MAX_CALIBRATED_RATE {
        MAX_CALIBRATED_RATE
    } else {
        rate
    }
}

/// The iterations a run targets: the full count for a production window,
/// else the estimate from the calibrated rate but at least
/// `MIN_TARGET_ITERATIONS`.
pub fn choose_target_iterations(production_window: bool, estimated_iterations: u32) -> (n: u32)
    ensures
        n == (if production_window {
            MEMORY_HARD_ITERATIONS
        } else if estimated_iterations < MIN_TARGET_ITERATIONS {
            MIN_TARGET_ITERATIONS
        } else {
            estimated_iterations
        }),
{
    if production_window {
        MEMORY_HARD_ITERATIONS
    } else if estimated_iterations < MIN_TARGET_ITERATIONS {
        MIN_TARGET_ITERATIONS
    } else {
        estimated_iterations
    }
}

/// Copies `len` bytes of `v` from `start`.
fn copy_range(v: &Vec<u8>, start: usize, len: usize) -> (r: Vec<u8>)
    requires
        start + len <= v@.len(),
    ensures
        r@ == v@.subrange(start as int, start + len),
{
    let mut r: Vec<u8> = Vec::new();
    let mut k: usize = 0;
    while k < len
        invariant
            k <= len,
            start + len <= v.len(),
            r@ =~= v@.subrange(start as int, start + k),
        decreases len - k,
    {
        r.push(v[start + k]);
        k = k + 1;
    }
    r
}

/// Writes the 32 bytes of `block` into `mem` at `addr` (`write_block`).
fn write_block_at(mem: &mut Vec<u8>, addr: usize, block: &Vec<u8>)
    requires
        block@.len() == 32,
        addr + 32 <= old(mem)@.len(),
    ensures
        final(mem)@ == write_block(old(mem)@, addr as nat, block@),
{
    let ghost before = mem@;
    let mut j: usize = 0;
    while j < 32
        invariant
            j <= 32,
            addr + 32 <= mem.len(),
            block@.len() == 32,
            mem@.len() == before.len(),
            forall|i: int|
                0 <= i < mem@.len() ==> #[trigger] mem@[i] == (if addr <= i < addr + j {
                    block@[i - addr]
                } else {
                    before[i]
                }),
        decreases 32 - j,
    {
        mem.set(addr + j, block[j]);
        j = j + 1;
    }
    assert(mem@ =~= write_block(before, addr as nat, block@));
}

/// The memory-hard VDF: a memory buffer of at least 1 MiB and a calibrated
/// rate of iterations per second.
pub struct MemoryHardVDF {
    memory_buffer: Vec<u8>,
    memory_size: usize,
    iterations_per_second: u32,
}

impl MemoryHardVDF {
    /// The memory buffer.
    pub closed spec fn memory(&self) -> Seq<u8> {
        self.memory_buffer@
    }

    /// The size of the memory buffer.
    pub closed spec fn mem_size(&self) -> usize {
        self.memory_size
    }

    /// The calibrated rate.
    pub closed spec fn rate(&self) -> u32 {
        self.iterations_per_second
    }

    /// The buffer has the recorded size, which is at least 1 MiB.
    pub closed spec fn wf(&self) -> bool {
        &&& self.memory_buffer@.len() == self.memory_size
        &&& self.memory_size >= MIN_MEMORY_SIZE
    }

    /// A VDF with a zeroed buffer of `memory_size` bytes and the initial rate;
    /// a size under 1 MiB is an argument error.
    pub fn new(memory_size: usize) -> (r: HashChainResult<MemoryHardVDF>)
        ensures
            memory_size < MIN_MEMORY_SIZE ==> (r matches Err(e) && e is InvalidArgument),
            memory_size >= MIN_MEMORY_SIZE ==> (r matches Ok(v) && {
                &&& v.wf()
                &&& v.mem_size() == memory_size
                &&& v.memory() == Seq::new(memory_size as nat, |i: int| 0u8)
                &&& v.rate() == INITIAL_ITERATIONS_PER_SECOND
            }),
    {
        if memory_size < MIN_MEMORY_SIZE {
            return Err(invalid_argument("Memory size must be at least 1MB"));
        }
        let memory_buffer: Vec<u8> = vec![0u8; memory_size];
        assert(memory_buffer@ =~= Seq::new(memory_size as nat, |j: int| 0u8));
        Ok(MemoryHardVDF {
            memory_buffer,
            memory_size,
            iterations_per_second: INITIAL_ITERATIONS_PER_SECOND,
        })
    }

    /// The standard VDF, with 256 MiB of memory.
    pub fn new_standard() -> (r: HashChainResult<MemoryHardVDF>)
        ensures
            r matches Ok(v) && {
                &&& v.wf()
                &&& v.mem_size() == MEMORY_HARD_VDF_MEMORY
                &&& v.memory() == Seq::new(MEMORY_HARD_VDF_MEMORY as nat, |i: int| 0u8)
                &&& v.rate() == INITIAL_ITERATIONS_PER_SECOND
            },
    {
        Self::new(MEMORY_HARD_VDF_MEMORY)
    }

    /// The calibrated rate.
    pub fn get_iterations_per_second(&self) -> (r: u32)
        ensures
            r == self.rate(),
    {
        self.iterations_per_second
    }

    /// Takes a new calibration: when the run had more than 1000 iterations and
    /// took a positive time, the rate becomes `smoothed_rate` clamped to
    /// `[100 000, 1 000 000]`; otherwise nothing changes. The smoothing of
    /// the measured rate is done by the caller.
    pub fn update_performance_calibration(&mut self, iterations: u32, time_positive: bool, smoothed_rate: u32)
        ensures
            final(self).memory() == old(self).memory(),
            final(self).mem_size() == old(self).mem_size(),
            final(self).wf() == old(self).wf(),
            final(self).rate() == (if time_positive && iterations > 1000 {
                clamp_rate(smoothed_rate)
            } else {
                old(self).rate()
            }),
    {
        if time_positive && iterations > 1000 {
            let mut rate = smoothed_rate;
            if rate < MIN_CALIBRATED_RATE {
                rate = MIN_CALIBRATED_RATE;
            } else if rate > MAX_CALIBRATED_RATE {
                rate = MAX_CALIBRATED_RATE;
            }
            self.iterations_per_second = rate;
        }
    }

    /// Initialises the buffer from `input` (`mh_initialized`).
    fn initialize_memory(&mut self, input: &Vec<u8>)
        requires
            old(self).wf(),
        ensures
            final(self).wf(),
            final(self).mem_size() == old(self).mem_size(),
            final(self).rate() == old(self).rate(),
            final(self).memory() == mh_initialized(input@, old(self).memory()),
    {
        let ghost before = self.memory_buffer@;
        let size = self.memory_size;
        let chunks = size / 32;
        let mut seed = copy_bytes(input.as_slice());
        let mut k: usize = 0;
        while k < chunks
            invariant
                k <= chunks,
                chunks == size / 32,
                size == before.len(),
                self.memory_buffer@.len() == size,
                self.memory_size == size,
                size >= MIN_MEMORY_SIZE,
                self.iterations_per_second == old(self).iterations_per_second,
                k == 0 ==> seed@ == input@,
                k > 0 ==> seed@ == mh_seed(input@, (k - 1) as nat),
                forall|i: int|
                    0 <= i < size ==> #[trigger] self.memory_buffer@[i] == (if i < 32 * k {
                        mh_seed(input@, (i / 32) as nat)[i % 32]
                    } else {
                        before[i]
                    }),
            decreases chunks - k,
        {
            append_bytes(&mut seed, u64_to_be_bytes(k as u64).as_slice());
            let hash = sha256(seed.as_slice());
            proof {
                if k == 0 {
                    assert(hash@ == mh_seed(input@, 0));
                } else {
                    assert(hash@ == mh_seed(input@, k as nat));
                }
            }
            let ghost mid = self.memory_buffer@;
            write_block_at(&mut self.memory_buffer, 32 * k, &hash);
            assert forall|i: int| 0 <= i < size implies #[trigger] self.memory_buffer@[i] == (if i < 32 * (k
                + 1) {
                mh_seed(input@, (i / 32) as nat)[i % 32]
            } else {
                before[i]
            }) by {
                if 32 * k <= i < 32 * (k + 1) {
                    assert(i / 32 == k as int);
                    assert(i % 32 == i - 32 * k);
                } else {
                    assert(self.memory_buffer@[i] == mid[i]);
                }
            }
            seed = hash;
            k = k + 1;
        }
        assert(self.memory_buffer@ =~= mh_initialized(input@, before));
    }

    /// One iteration (`mh_step`): returns the new state, the read and write
    /// addresses, and the hash of the memory read.
    fn memory_hard_iteration(&mut self, state: &Vec<u8>, iteration: u32) -> (r: (Vec<u8>, u64, u64, Vec<u8>))
        requires
            old(self).wf(),
        ensures
            final(self).wf(),
            final(self).mem_size() == old(self).mem_size(),
            final(self).rate() == old(self).rate(),
            (r.0@, final(self).memory()) == mh_step(state@, old(self).memory(), iteration),
            r.0@.len() == 32,
            r.1 == mh_read_addr(state@, iteration, old(self).memory().len()),
            r.2 == mh_write_addr(r.0@, old(self).memory().len()),
            r.3@ == mh_memory_hash(state@, old(self).memory(), iteration),
    {
        let size = self.memory_size;
        let mut read_input = copy_bytes(state.as_slice());
        append_bytes(&mut read_input, u32_to_be_bytes(iteration).as_slice());
        let read_seed = sha256(read_input.as_slice());
        let read_addr = u64_from_be_at(read_seed.as_slice(), 0) % ((size - 1024) as u64);
        assert(read_seed@.subrange(0, 8) =~= read_seed@.subrange(0, 8));
        assert(from_be64(read_seed@.subrange(0, 8)) == from_be64(read_seed@));
        let read_at = read_addr as usize;
        let chunk = copy_range(&self.memory_buffer, read_at, 1024);
        let memory_hash = sha256(chunk.as_slice());
        let mut mix = copy_bytes(state.as_slice());
        append_bytes(&mut mix, memory_hash.as_slice());
        append_bytes(&mut mix, u32_to_be_bytes(iteration).as_slice());
        append_bytes(&mut mix, "memory_hard_vdf".as_bytes());
        let new_state = sha256(mix.as_slice());
        let mut write_input = copy_bytes(new_state.as_slice());
        append_bytes(&mut write_input, "write".as_bytes());
        let write_seed = sha256(write_input.as_slice());
        let write_addr = u64_from_be_at(write_seed.as_slice(), 0) % ((size - 32) as u64);
        assert(from_be64(write_seed@.subrange(0, 8)) == from_be64(write_seed@));
        write_block_at(&mut self.memory_buffer, write_addr as usize, &new_state);
        (new_state, read_addr, write_addr, memory_hash)
    }

    /// Runs `target_iterations` iterations from a 32-byte input after
    /// initialising the memory from it, sampling the accesses of every
    /// iteration that is a multiple of 50 000. An input of another length is
    /// an argument error and changes nothing. The proof's time field is left
    /// zero: the time the run took is measured by the caller, who records it.
    pub fn compute(&mut self, input_state: &Vec<u8>, target_iterations: u32) -> (r: HashChainResult<
        MemoryHardVDFProof,
    >)
        requires
            old(self).wf(),
        ensures
            final(self).wf(),
            final(self).mem_size() == old(self).mem_size(),
            final(self).rate() == old(self).rate(),
            input_state@.len() != 32 ==> (r matches Err(e) && e is InvalidArgument) && final(self).memory()
                == old(self).memory(),
            input_state@.len() == 32 ==> (r matches Ok(p) && {
                let mem0 = mh_initialized(input_state@, old(self).memory());
                let run = mh_run(input_state@, mem0, target_iterations as nat);
                &&& p.input_state@ == input_state@
                &&& p.output_state@ == run.0
                &&& p.iterations == target_iterations
                &&& p.memory_usage_bytes == old(self).mem_size()
                &&& p.computation_time_ms_bits == 0
                &&& p.memory_access_samples@.len() == sample_count(target_iterations as nat)
                &&& forall|j: int|
                    0 <= j < p.memory_access_samples@.len() ==> mh_sample_matches(
                        #[trigger] p.memory_access_samples@[j],
                        input_state@,
                        mem0,
                        (SAMPLE_INTERVAL * j) as nat,
                    )
                &&& final(self).memory() == run.1
            }),
    {
        if input_state.len() != 32 {
            return Err(invalid_argument("Input state must be 32 bytes"));
        }
        self.initialize_memory(input_state);
        let ghost mem0 = self.memory_buffer@;
        let mut state = copy_bytes(input_state.as_slice());
        let mut samples: Vec<MemoryAccessSample> = Vec::new();
        let mut iteration: u32 = 0;
        while iteration < target_iterations
            invariant
                iteration <= target_iterations,
                self.wf(),
                self.memory_size == old(self).memory_size,
                self.iterations_per_second == old(self).iterations_per_second,
                mem0.len() == self.memory_size,
                (state@, self.memory_buffer@) == mh_run(input_state@, mem0, iteration as nat),
                samples@.len() == sample_count(iteration as nat),
                forall|j: int|
                    0 <= j < samples@.len() ==> mh_sample_matches(
                        #[trigger] samples@[j],
                        input_state@,
                        mem0,
                        (SAMPLE_INTERVAL * j) as nat,
                    ),
            decreases target_iterations - iteration,
        {
            proof {
                lemma_mh_run_len(input_state@, mem0, iteration as nat);
            }
            let ghost prev_state = state@;
            let ghost prev_mem = self.memory_buffer@;
            let (new_state, read_addr, write_addr, memory_hash) = self.memory_hard_iteration(&state, iteration);
            state = new_state;
            if iteration % SAMPLE_INTERVAL == 0 {
                let ghost before = samples@;
                samples.push(
                    MemoryAccessSample {
                        iteration,
                        read_address: read_addr,
                        write_address: write_addr,
                        memory_content_hash: memory_hash,
                    },
                );
                proof {
                    lemma_sample_count_step(iteration as nat);
                }
                assert forall|j: int| 0 <= j < samples@.len() implies mh_sample_matches(
                    #[trigger] samples@[j],
                    input_state@,
                    mem0,
                    (SAMPLE_INTERVAL * j) as nat,
                ) by {
                    if j < before.len() {
                        assert(samples@[j] == before[j]);
                    }
                }
            } else {
                proof {
                    lemma_sample_count_step(iteration as nat);
                }
            }
            iteration = iteration + 1;
        }
        Ok(MemoryHardVDFProof {
            input_state: copy_bytes(input_state.as_slice()),
            output_state: state,
            iterations: target_iterations,
            memory_access_samples: samples,
            computation_time_ms_bits: 0,
            memory_usage_bytes: self.memory_size as u64,
        })
    }
}


/// A sample is well formed for a run of `total` iterations: its iteration is
/// in range, its memory hash has 32 bytes and neither address is zero.
pub open spec fn sample_shape_ok(s: MemoryAccessSample, total: u32) -> bool {
    &&& s.iteration < total
    &&& s.memory_content_hash@.len() == 32
    &&& s.read_address != 0
    &&& s.write_address != 0
}

/// The samples are consistent with a run of `total` iterations: there is at
/// least one, each is well formed, and their count (as an `i32` of the count
/// taken as a `u32`) is within one of `total / 50 000 + 1`.
pub open spec fn access_pattern_ok(samples: Seq<MemoryAccessSample>, total: u32) -> bool {
    &&& samples.len() > 0
    &&& forall|j: int| 0 <= j < samples.len() ==> #[trigger] sample_shape_ok(samples[j], total)
    &&& {
        let expected = (total / SAMPLE_INTERVAL + 1) as int;
        let actual = ((samples.len() as u32) as i32) as int;
        -1 <= actual - expected <= 1
    }
}

/// The spot check of a proof: a VDF with the proof's memory size can be made,
/// and, when the proof has at most 1000 iterations, recomputing them from
/// fresh memory gives its output.
pub open spec fn output_consistent(p: MemoryHardVDFProof) -> bool {
    let size = p.memory_usage_bytes as usize;
    let n: nat = if p.iterations < SPOT_CHECK_ITERATIONS { p.iterations as nat } else { SPOT_CHECK_ITERATIONS as nat };
    &&& size >= MIN_MEMORY_SIZE
    &&& p.iterations <= SPOT_CHECK_ITERATIONS ==> mh_run(
        p.input_state@,
        mh_initial_memory(p.input_state@, size as nat),
        n,
    ).0 == p.output_state@
}

/// What `verify_proof` accepts: 32-byte input and output, at least 1000
/// iterations, at least 1 MiB of memory, a plausible time (judged by the
/// caller), a consistent access pattern and a passing spot check.
pub open spec fn vdf_proof_valid(p: MemoryHardVDFProof, time_plausible: bool) -> bool {
    &&& p.input_state@.len() == 32
    &&& p.output_state@.len() == 32
    &&& p.iterations >= 1000
    &&& p.memory_usage_bytes >= MIN_MEMORY_SIZE
    &&& time_plausible
    &&& access_pattern_ok(p.memory_access_samples@, p.iterations)
    &&& output_consistent(p)
}

impl MemoryHardVDF {
    /// Checks the sampled accesses of a run (`access_pattern_ok`).
    pub fn verify_memory_access_pattern(samples: &Vec<MemoryAccessSample>, total_iterations: u32) -> (ok: bool)
        ensures
            ok == access_pattern_ok(samples@, total_iterations),
    {
        if samples.len() == 0 {
            return false;
        }
        let mut j: usize = 0;
        while j < samples.len()
            invariant
                j <= samples@.len(),
                forall|k: int| 0 <= k < j ==> #[trigger] sample_shape_ok(samples@[k], total_iterations),
            decreases samples@.len() - j,
        {
            let s = &samples[j];
            if s.iteration >= total_iterations || s.memory_content_hash.len() != 32 || s.read_address == 0
                || s.write_address == 0 {
                assert(!sample_shape_ok(samples@[j as int], total_iterations));
                return false;
            }
            j = j + 1;
        }
        let expected = (total_iterations / SAMPLE_INTERVAL + 1) as i64;
        let actual = ((samples.len() as u32) as i32) as i64;
        let diff = actual - expected;
        -1 <= diff && diff <= 1
    }

    /// Recomputes the first iterations of a proof from fresh memory
    /// (`output_consistent`).
    pub fn verify_output_consistency(proof: &MemoryHardVDFProof) -> (ok: bool)
        ensures
            ok == output_consistent(*proof),
    {
        let size = proof.memory_usage_bytes as usize;
        let mut temp = match MemoryHardVDF::new(size) {
            Ok(v) => v,
            Err(_) => return false,
        };
        temp.initialize_memory(&proof.input_state);
        let ghost mem0 = temp.memory_buffer@;
        assert(mem0 == mh_initial_memory(proof.input_state@, size as nat));
        let n = if proof.iterations < SPOT_CHECK_ITERATIONS { proof.iterations } else { SPOT_CHECK_ITERATIONS };
        let mut state = copy_bytes(proof.input_state.as_slice());
        let mut iteration: u32 = 0;
        while iteration < n
            invariant
                iteration <= n,
                temp.wf(),
                (state@, temp.memory_buffer@) == mh_run(proof.input_state@, mem0, iteration as nat),
            decreases n - iteration,
        {
            let (new_state, _, _, _) = temp.memory_hard_iteration(&state, iteration);
            state = new_state;
            iteration = iteration + 1;
        }
        if proof.iterations <= SPOT_CHECK_ITERATIONS {
            return bytes_equal(state.as_slice(), proof.output_state.as_slice());
        }
        true
    }

    /// Verifies a memory-hard VDF proof (`vdf_proof_valid`). Whether the
    /// recorded time fits the iteration count is judged by the caller and
    /// passed as `time_plausible`.
    pub fn verify_proof(proof: &MemoryHardVDFProof, time_plausible: bool) -> (ok: bool)
        ensures
            ok == vdf_proof_valid(*proof, time_plausible),
    {
        if proof.input_state.len() != 32 || proof.output_state.len() != 32 {
            return false;
        }
        if proof.iterations < 1000 || proof.memory_usage_bytes < MIN_MEMORY_SIZE as u64 {
            return false;
        }
        if !time_plausible || proof.memory_access_samples.len() == 0 {
            return false;
        }
        if !Self::verify_memory_access_pattern(&proof.memory_access_samples, proof.iterations) {
            return false;
        }
        Self::verify_output_consistency(proof)
    }
}

/// The combined hash of VDF entropy: SHA-256 of the chain entropy, the
/// beacon (32 zero bytes when there is none), the local entropy and the
/// timestamp's 8 big-endian bytes.
pub open spec fn vdf_entropy_hash(blockchain: Seq<u8>, beacon: Option<Seq<u8>>, local: Seq<u8>, timestamp_bits: u64) -> Seq<u8> {
    let b = match beacon {
        Some(b) => b,
        None => Seq::new(32, |i: int| 0u8),
    };
    sha256_spec(blockchain + b + local + be64(timestamp_bits))
}

/// Combines entropy sources for the memory-hard VDF. A chain entropy, beacon
/// or local entropy that is not 32 bytes is an argument error (checked in
/// that order).
pub fn create_vdf_entropy(
    blockchain_entropy: Vec<u8>,
    beacon_entropy: Option<Vec<u8>>,
    local_entropy: Vec<u8>,
    timestamp_bits: u64,
) -> (r: HashChainResult<MultiSourceEntropy>)
    ensures
        ({
            let beacon_ok = match beacon_entropy {
                Some(b) => b@.len() == 32,
                None => true,
            };
            &&& (blockchain_entropy@.len() != 32 || !beacon_ok || local_entropy@.len() != 32) ==> (r matches Err(
                e,
            ) && e is InvalidArgument)
            &&& (blockchain_entropy@.len() == 32 && beacon_ok && local_entropy@.len() == 32) ==> (r matches Ok(
                m,
            ) && {
                &&& m.blockchain_entropy@ == blockchain_entropy@
                &&& crate::entropy::opt_view(m.beacon_entropy) == crate::entropy::opt_view(beacon_entropy)
                &&& m.local_entropy@ == local_entropy@
                &&& m.timestamp_bits == timestamp_bits
                &&& m.combined_hash@ == vdf_entropy_hash(
                    blockchain_entropy@,
                    crate::entropy::opt_view(beacon_entropy),
                    local_entropy@,
                    timestamp_bits,
                )
            })
        }),
{
    if blockchain_entropy.len() != 32 {
        return Err(invalid_argument("Blockchain entropy must be 32 bytes"));
    }
    match &beacon_entropy {
        Some(b) => {
            if b.len() != 32 {
                return Err(invalid_argument("Beacon entropy must be 32 bytes"));
            }
        },
        None => {},
    }
    if local_entropy.len() != 32 {
        return Err(invalid_argument("Local entropy must be 32 bytes"));
    }
    let mut combined = copy_bytes(blockchain_entropy.as_slice());
    match &beacon_entropy {
        Some(b) => append_bytes(&mut combined, b.as_slice()),
        None => {
            let zeros: Vec<u8> = vec![0u8; 32];
            assert(zeros@ =~= Seq::new(32, |i: int| 0u8));
            append_bytes(&mut combined, zeros.as_slice());
        },
    }
    append_bytes(&mut combined, local_entropy.as_slice());
    append_bytes(&mut combined, u64_to_be_bytes(timestamp_bits).as_slice());
    let combined_hash = sha256(combined.as_slice());
    Ok(MultiSourceEntropy {
        blockchain_entropy,
        beacon_entropy,
        local_entropy,
        timestamp_bits,
        combined_hash,
    })
}

/// Runs the standard 256 MiB VDF from a 32-byte input for
/// `target_iterations` iterations; an input of another length is an
/// argument error.
pub fn compute_block_vdf(input_state: Vec<u8>, target_iterations: u32) -> (r: HashChainResult<MemoryHardVDFProof>)
    ensures
        input_state@.len() != 32 ==> (r matches Err(e) && e is InvalidArgument),
        input_state@.len() == 32 ==> (r matches Ok(p) && {
            let mem0 = mh_initial_memory(input_state@, MEMORY_HARD_VDF_MEMORY as nat);
            &&& p.input_state@ == input_state@
            &&& p.output_state@ == mh_run(input_state@, mem0, target_iterations as nat).0
            &&& p.iterations == target_iterations
            &&& p.memory_usage_bytes == MEMORY_HARD_VDF_MEMORY
            &&& p.computation_time_ms_bits == 0
            &&& p.memory_access_samples@.len() == sample_count(target_iterations as nat)
            &&& forall|j: int|
                0 <= j < p.memory_access_samples@.len() ==> mh_sample_matches(
                    #[trigger] p.memory_access_samples@[j],
                    input_state@,
                    mem0,
                    (SAMPLE_INTERVAL * j) as nat,
                )
        }),
{
    let mut vdf = match MemoryHardVDF::new_standard() {
        Ok(v) => v,
        Err(e) => return Err(e),
    };
    vdf.compute(&input_state, target_iterations)
}

/// Verifies a block's VDF proof (`vdf_proof_valid`).
pub fn verify_block_vdf(proof: &MemoryHardVDFProof, time_plausible: bool) -> (ok: bool)
    ensures
        ok == vdf_proof_valid(*proof, time_plausible),
{
    MemoryHardVDF::verify_proof(proof, time_plausible)
}

/// Initialising memory whose size is a whole number of 32-byte chunks does
/// not depend on what the memory held.
pub proof fn lemma_initialized_whole_chunks(input: Seq<u8>, mem: Seq<u8>)
    requires
        mem.len() % 32 == 0,
    ensures
        mh_initialized(input, mem) == mh_initial_memory(input, mem.len()),
{
    assert(mh_initialized(input, mem) =~= mh_initial_memory(input, mem.len()));
}

/// A proof that `compute` made on a memory of whole 32-byte chunks passes
/// the verifier's spot check, whatever runs the VDF made before: the
/// recomputation from fresh memory repeats the run.
pub proof fn lemma_computed_proof_passes_spot_check(input: Seq<u8>, mem: Seq<u8>, p: MemoryHardVDFProof)
    requires
        mem.len() % 32 == 0,
        mem.len() >= MIN_MEMORY_SIZE,
        mem.len() <= usize::MAX,
        p.input_state@ == input,
        p.memory_usage_bytes == mem.len(),
        p.output_state@ == mh_run(input, mh_initialized(input, mem), p.iterations as nat).0,
    ensures
        output_consistent(p),
{
    lemma_initialized_whole_chunks(input, mem);
}

} // verus!
