//! The VDF processor: the decisions of the background loop that iterates
//! the continuous VDF and issues a chain of signed shared proofs. The loop
//! itself (threads, clocks and sleeping) is run by the caller, which hands
//! each tick to `VDFProcessor::step`.
use vstd::prelude::*;
use vstd::string::StringSliceAdditionalSpecFns;

use crate::bytes::{be64, u64_to_be_bytes};
use crate::crypto::{blake3_spec, compute_blake3, ed25519_public_key_spec, ed25519_signature_spec, ed25519_verification_spec};
use crate::errors::{HashChainError, HashChainResult};
use crate::seqs::{append_bytes, copy_bytes};
use crate::signing::{sign_data, signature_valid, verify_signature};
use crate::vdf::{block_signature_spec, walk_step, ContinuousVDF};

verus! {

/// The number of shared proofs kept.
pub const MAX_SHARED_PROOFS: usize = 100;

/// A signed snapshot of the VDF, linked to the previous snapshot.
pub struct SharedVDFProof {
    /// VDF state.
    pub vdf_state: Vec<u8>,
    /// Iterations run.
    pub total_iterations: u64,
    /// Time of the proof (bit pattern of an `f64`).
    pub timestamp_bits: u64,
    /// Signature of the proof data.
    pub signature: Vec<u8>,
    /// Hash linking to the previous proof.
    pub proof_chain_hash: Vec<u8>,
}

/// The link hash of the first proof: BLAKE3 of `genesis_vdf_proof`.
pub open spec fn genesis_chain_hash() -> Seq<u8> {
    blake3_spec("genesis_vdf_proof".spec_bytes())
}

/// The link hash that follows a proof: BLAKE3 of its link hash, its state
/// and its iteration count (big-endian).
pub open spec fn next_chain_hash(p: SharedVDFProof) -> Seq<u8> {
    blake3_spec(p.proof_chain_hash@ + p.vdf_state@ + be64(p.total_iterations))
}

/// The data a shared proof signs: state, iteration count, timestamp bits
/// (both big-endian) and link hash.
pub open spec fn proof_data(p: SharedVDFProof) -> Seq<u8> {
    p.vdf_state@ + be64(p.total_iterations) + be64(p.timestamp_bits) + p.proof_chain_hash@
}

/// Whether each proof after the first links to the one before it.
pub open spec fn proofs_linked(proofs: Seq<SharedVDFProof>) -> bool {
    forall|i: int| 0 < i < proofs.len() ==> #[trigger] proofs[i].proof_chain_hash@ == next_chain_hash(proofs[i - 1])
}

/// Whether a chain of shared proofs verifies under a public key: linked, and
/// every signature valid.
pub open spec fn shared_chain_valid(proofs: Seq<SharedVDFProof>, public_key: Seq<u8>) -> bool {
    proofs_linked(proofs) && forall|i: int|
        0 <= i < proofs.len() ==> #[trigger] signature_valid(public_key, proof_data(proofs[i]), proofs[i].signature@)
}

/// What the caller's loop learned since the last tick.
pub enum VdfEvent {
    /// Time for the next iteration has come (or not), and a shared proof is
    /// due (or not), at the given time (bit pattern of an `f64`).
    Tick { iteration_due: bool, proof_due: bool, current_time_bits: u64 },
}

/// What the caller's loop does next.
pub enum VdfAction {
    /// The processor is stopped: leave the loop.
    Stop,
    /// Nothing was due: sleep until the next iteration.
    Sleep,
    /// An iteration ran; a shared proof was added where `proof_added`.
    Iterated { proof_added: bool },
}

/// The VDF processor's state.
pub struct VDFProcessor {
    vdf: ContinuousVDF,
    target_iterations_per_second: u64,
    running: bool,
    prover_private_key: Vec<u8>,
    shared_proofs: Vec<SharedVDFProof>,
    last_proof_time_bits: u64,
}

/// A copy of a shared proof.
fn copy_proof(p: &SharedVDFProof) -> (r: SharedVDFProof)
    ensures
        r.vdf_state@ == p.vdf_state@,
        r.total_iterations == p.total_iterations,
        r.timestamp_bits == p.timestamp_bits,
        r.signature@ == p.signature@,
        r.proof_chain_hash@ == p.proof_chain_hash@,
{
    SharedVDFProof {
        vdf_state: copy_bytes(p.vdf_state.as_slice()),
        total_iterations: p.total_iterations,
        timestamp_bits: p.timestamp_bits,
        signature: copy_bytes(p.signature.as_slice()),
        proof_chain_hash: copy_bytes(p.proof_chain_hash.as_slice()),
    }
}

/// Whether two proofs hold the same values.
pub open spec fn same_proof(a: SharedVDFProof, b: SharedVDFProof) -> bool {
    &&& a.vdf_state@ == b.vdf_state@
    &&& a.total_iterations == b.total_iterations
    &&& a.timestamp_bits == b.timestamp_bits
    &&& a.signature@ == b.signature@
    &&& a.proof_chain_hash@ == b.proof_chain_hash@
}

impl VDFProcessor {
    /// The VDF.
    pub closed spec fn vdf_view(&self) -> ContinuousVDF {
        self.vdf
    }

    /// The shared proofs, oldest first.
    pub closed spec fn proofs(&self) -> Seq<SharedVDFProof> {
        self.shared_proofs@
    }

    /// Whether the processor is running.
    pub closed spec fn is_running(&self) -> bool {
        self.running
    }

    /// The iteration rate aimed at.
    pub closed spec fn target_rate(&self) -> u64 {
        self.target_iterations_per_second
    }

    /// The signing key.
    pub closed spec fn key(&self) -> Seq<u8> {
        self.prover_private_key@
    }

    /// The VDF is well formed, has more than 64 bytes of memory, and at most
    /// `MAX_SHARED_PROOFS` proofs are kept.
    pub closed spec fn wf(&self) -> bool {
        &&& self.vdf.wf()
        &&& self.vdf.mem_size() > 64
        &&& self.shared_proofs@.len() <= MAX_SHARED_PROOFS
    }

    /// A stopped processor over a new VDF (see `ContinuousVDF::new`), with no
    /// shared proof.
    /// A well-formed processor keeps at most `MAX_SHARED_PROOFS` shared
    /// proofs.
    pub proof fn lemma_proofs_capped(&self)
        requires
            self.wf(),
        ensures
            self.proofs().len() <= MAX_SHARED_PROOFS,
    {
    }

    pub fn new(
        initial_state: Vec<u8>,
        memory_kb: u32,
        target_iterations_per_second: u64,
        prover_private_key: Vec<u8>,
    ) -> (p: VDFProcessor)
        requires
            initial_state@.len() == 32,
            memory_kb >= 1,
            memory_kb as nat * 1024 <= usize::MAX,
        ensures
            p.wf(),
            p.vdf_view().state() == initial_state@,
            p.vdf_view().iterations() == 0,
            !p.is_running(),
            p.proofs().len() == 0,
            p.proofs().len() <= MAX_SHARED_PROOFS,
            shared_chain_valid(p.proofs(), ed25519_public_key_spec(prover_private_key@)),
            p.key() == prover_private_key@,
            p.target_rate() == target_iterations_per_second,
    {
        VDFProcessor {
            vdf: ContinuousVDF::new(initial_state, memory_kb),
            target_iterations_per_second,
            running: false,
            prover_private_key,
            shared_proofs: Vec::new(),
            last_proof_time_bits: 0,
        }
    }

    /// The iteration rate aimed at.
    pub fn target_iterations_per_second(&self) -> (r: u64)
        ensures
            r == self.target_rate(),
    {
        self.target_iterations_per_second
    }

    /// Marks the processor as running; the caller then starts its loop.
    pub fn start(&mut self)
        ensures
            final(self).is_running(),
            final(self).vdf_view() == old(self).vdf_view(),
            final(self).proofs() == old(self).proofs(),
            final(self).key() == old(self).key(),
            old(self).wf() ==> final(self).wf(),
            old(self).wf() ==> final(self).proofs().len() <= MAX_SHARED_PROOFS,
    {
        self.running = true;
    }

    /// Marks the processor as stopped; the caller's loop leaves at its next
    /// tick.
    pub fn stop(&mut self)
        ensures
            !final(self).is_running(),
            final(self).vdf_view() == old(self).vdf_view(),
            final(self).proofs() == old(self).proofs(),
            final(self).key() == old(self).key(),
            old(self).wf() ==> final(self).wf(),
            old(self).wf() ==> final(self).proofs().len() <= MAX_SHARED_PROOFS,
    {
        self.running = false;
    }

    /// The link hash the next proof carries.
    pub open spec fn next_link(&self) -> Seq<u8> {
        if self.proofs().len() == 0 {
            genesis_chain_hash()
        } else {
            next_chain_hash(self.proofs().last())
        }
    }

    /// Builds the next shared proof at a time: the current state and
    /// iteration count, the next link hash, and the signature of its data
    /// under the processor's key (see `sign_data`).
    pub fn generate_shared_proof(&self, timestamp_bits: u64) -> (r: HashChainResult<SharedVDFProof>)
        requires
            self.wf(),
        ensures
            self.key().len() != 32 ==> (r matches Err(e) && e is InvalidPrivateKeySize),
            self.key().len() == 32 ==> (r matches Ok(p) && {
                &&& p.vdf_state@ == self.vdf_view().state()
                &&& p.total_iterations == self.vdf_view().iterations()
                &&& p.timestamp_bits == timestamp_bits
                &&& p.proof_chain_hash@ == self.next_link()
                &&& p.signature@ == ed25519_signature_spec(self.key(), proof_data(p))
                &&& signature_valid(ed25519_public_key_spec(self.key()), proof_data(p), p.signature@)
            }),
    {
        let (vdf_state, total_iterations) = self.vdf.get_state();
        let n = self.shared_proofs.len();
        let proof_chain_hash = if n == 0 {
            compute_blake3("genesis_vdf_proof".as_bytes())
        } else {
            let last = &self.shared_proofs[n - 1];
            let mut data: Vec<u8> = Vec::new();
            append_bytes(&mut data, last.proof_chain_hash.as_slice());
            append_bytes(&mut data, last.vdf_state.as_slice());
            append_bytes(&mut data, u64_to_be_bytes(last.total_iterations).as_slice());
            assert(data@ =~= last.proof_chain_hash@ + last.vdf_state@ + be64(last.total_iterations));
            compute_blake3(data.as_slice())
        };
        let mut proof_input: Vec<u8> = Vec::new();
        append_bytes(&mut proof_input, vdf_state.as_slice());
        append_bytes(&mut proof_input, u64_to_be_bytes(total_iterations).as_slice());
        append_bytes(&mut proof_input, u64_to_be_bytes(timestamp_bits).as_slice());
        append_bytes(&mut proof_input, proof_chain_hash.as_slice());
        let signature = sign_data(self.prover_private_key.as_slice(), proof_input.as_slice())?;
        let proof = SharedVDFProof { vdf_state, total_iterations, timestamp_bits, signature, proof_chain_hash };
        assert(proof_input@ =~= proof_data(proof));
        Ok(proof)
    }

    /// Handles one tick of the caller's loop. A stopped processor answers
    /// `Stop`; without a due iteration, `Sleep`. Otherwise the VDF iterates
    /// once and, when a proof is due and can be signed, the next shared proof
    /// is appended (dropping the oldest beyond `MAX_SHARED_PROOFS`) and the
    /// proof time recorded.
    pub fn step(&mut self, event: VdfEvent) -> (action: VdfAction)
        requires
            old(self).wf(),
            old(self).vdf_view().iterations() < u64::MAX,
        ensures
            final(self).wf(),
            final(self).proofs().len() <= MAX_SHARED_PROOFS,
            final(self).key() == old(self).key(),
            final(self).is_running() == old(self).is_running(),
            proofs_linked(old(self).proofs()) ==> proofs_linked(final(self).proofs()),
            shared_chain_valid(old(self).proofs(), ed25519_public_key_spec(old(self).key())) ==> shared_chain_valid(
                final(self).proofs(),
                ed25519_public_key_spec(old(self).key()),
            ),
            !old(self).is_running() ==> action is Stop && *final(self) == *old(self),
            match event {
                VdfEvent::Tick { iteration_due, proof_due, current_time_bits } => {
                    &&& (old(self).is_running() && !iteration_due) ==> action is Sleep && *final(self) == *old(self)
                    &&& (old(self).is_running() && iteration_due) ==> {
                        &&& action matches VdfAction::Iterated { proof_added }
                        &&& (final(self).vdf_view().state(), final(self).vdf_view().memory()) == walk_step(
                            old(self).vdf_view().state(),
                            old(self).vdf_view().memory(),
                            be64(old(self).vdf_view().iterations()),
                        )
                        &&& final(self).vdf_view().iterations() == old(self).vdf_view().iterations() + 1
                        &&& (action matches VdfAction::Iterated { proof_added } && proof_added <==> (proof_due
                            && old(self).key().len() == 32))
                        &&& (!(proof_due && old(self).key().len() == 32) ==> final(self).proofs() == old(self).proofs())
                        &&& (proof_due && old(self).key().len() == 32) ==> {
                            let p = final(self).proofs().last();
                            &&& final(self).proofs().len() > 0
                            &&& final(self).proofs().drop_last() == (if old(self).proofs().len()
                                >= MAX_SHARED_PROOFS {
                                old(self).proofs().drop_first()
                            } else {
                                old(self).proofs()
                            })
                            &&& p.total_iterations == final(self).vdf_view().iterations()
                            &&& p.vdf_state@ == final(self).vdf_view().state()
                            &&& p.timestamp_bits == current_time_bits
                            &&& p.proof_chain_hash@ == old(self).next_link()
                            &&& p.signature@ == ed25519_signature_spec(old(self).key(), proof_data(p))
                        }
                    }
                },
            },
    {
        if !self.running {
            return VdfAction::Stop;
        }
        let VdfEvent::Tick { iteration_due, proof_due, current_time_bits } = event;
        if !iteration_due {
            return VdfAction::Sleep;
        }
        let _state = self.vdf.iterate();
        let mut proof_added = false;
        if proof_due {
            match self.generate_shared_proof(current_time_bits) {
                Ok(proof) => {
                    let ghost before = self.shared_proofs@;
                    self.shared_proofs.push(proof);
                    proof {
                        assert forall|i: int| 0 < i < self.shared_proofs@.len() && proofs_linked(before)
                            implies #[trigger] self.shared_proofs@[i].proof_chain_hash@ == next_chain_hash(
                            self.shared_proofs@[i - 1],
                        ) by {
                            if i < before.len() {
                                assert(before[i].proof_chain_hash@ == next_chain_hash(before[i - 1]));
                            }
                        }
                    }
                    if self.shared_proofs.len() > MAX_SHARED_PROOFS {
                        let ghost full = self.shared_proofs@;
                        let _oldest = self.shared_proofs.remove(0);
                        proof {
                            assert(self.shared_proofs@ =~= full.subrange(1, full.len() as int));
                            assert forall|i: int| 0 < i < self.shared_proofs@.len() && proofs_linked(full)
                                implies #[trigger] self.shared_proofs@[i].proof_chain_hash@ == next_chain_hash(
                                self.shared_proofs@[i - 1],
                            ) by {
                                assert(full[i + 1].proof_chain_hash@ == next_chain_hash(full[i]));
                            }
                        }
                    }
                    self.last_proof_time_bits = current_time_bits;
                    proof_added = true;
                },
                Err(_) => {},
            }
        }
        VdfAction::Iterated { proof_added }
    }

    /// The current state and iteration count.
    pub fn get_state(&self) -> (r: (Vec<u8>, u64))
        ensures
            r.0@ == self.vdf_view().state(),
            r.1 == self.vdf_view().iterations(),
    {
        self.vdf.get_state()
    }

    /// Signs a block against the current state (see
    /// `ContinuousVDF::sign_block`); fewer iterations than required is an
    /// error message.
    pub fn sign_block(&mut self, block_height: u64, block_hash: Vec<u8>, required_iterations: u64) -> (r: Result<
        Vec<u8>,
        String,
    >)
        ensures
            old(self).vdf_view().iterations() < required_iterations ==> r is Err,
            old(self).vdf_view().iterations() >= required_iterations ==> (r matches Ok(sig) && sig@
                == block_signature_spec(
                old(self).vdf_view().state(),
                block_height,
                block_hash@,
                old(self).vdf_view().iterations(),
            )),
            final(self).vdf_view().state() == old(self).vdf_view().state(),
            final(self).vdf_view().iterations() == old(self).vdf_view().iterations(),
            final(self).proofs() == old(self).proofs(),
            final(self).key() == old(self).key(),
            final(self).is_running() == old(self).is_running(),
            old(self).wf() ==> final(self).wf(),
    {
        match self.vdf.sign_block(block_height, block_hash, required_iterations) {
            Ok(signature) => Ok(signature),
            Err(_) => Err(String::from_str("VDF signing failed: insufficient VDF iterations")),
        }
    }

    /// Whether a block signature is the one the current state gives (see
    /// `ContinuousVDF::verify_block_signature`).
    pub fn verify_block_signature(
        &self,
        block_height: u64,
        block_hash: &Vec<u8>,
        signature: &Vec<u8>,
        required_iterations: u64,
    ) -> (ok: bool)
        ensures
            ok == (self.vdf_view().iterations() >= required_iterations && signature@ == block_signature_spec(
                self.vdf_view().state(),
                block_height,
                block_hash@,
                self.vdf_view().iterations(),
            )),
    {
        self.vdf.verify_block_signature(block_height, block_hash, signature, required_iterations)
    }

    /// The latest shared proof, if any.
    pub fn get_latest_shared_proof(&self) -> (r: Option<SharedVDFProof>)
        ensures
            self.proofs().len() == 0 ==> r is None,
            self.proofs().len() > 0 ==> (r matches Some(p) && same_proof(p, self.proofs().last())),
    {
        let n = self.shared_proofs.len();
        if n == 0 {
            None
        } else {
            Some(copy_proof(&self.shared_proofs[n - 1]))
        }
    }

    /// All shared proofs, oldest first.
    pub fn get_all_shared_proofs(&self) -> (r: Vec<SharedVDFProof>)
        ensures
            r@.len() == self.proofs().len(),
            forall|i: int| 0 <= i < r@.len() ==> same_proof(#[trigger] r@[i], self.proofs()[i]),
    {
        let mut r: Vec<SharedVDFProof> = Vec::new();
        let mut i: usize = 0;
        while i < self.shared_proofs.len()
            invariant
                i <= self.shared_proofs@.len(),
                r@.len() == i,
                forall|j: int| 0 <= j < i ==> same_proof(#[trigger] r@[j], self.shared_proofs@[j]),
            decreases self.shared_proofs@.len() - i,
        {
            r.push(copy_proof(&self.shared_proofs[i]));
            i = i + 1;
        }
        r
    }

    /// Whether the shared proofs verify under a public key
    /// (`shared_chain_valid`); no proof verifies trivially.
    pub fn verify_shared_proof_chain(&self, prover_public_key: &[u8]) -> (ok: bool)
        ensures
            ok == shared_chain_valid(self.proofs(), prover_public_key@),
    {
        verify_proof_chain(&self.shared_proofs, prover_public_key)
    }

    /// The number of shared proofs kept.
    pub fn shared_proofs_count(&self) -> (n: usize)
        ensures
            n == self.proofs().len(),
    {
        self.shared_proofs.len()
    }
}

/// Whether a list of shared proofs verifies under a public key
/// (`shared_chain_valid`).
pub fn verify_proof_chain(proofs: &Vec<SharedVDFProof>, prover_public_key: &[u8]) -> (ok: bool)
    ensures
        ok == shared_chain_valid(proofs@, prover_public_key@),
        ok ==> forall|i: int|
            0 < i < proofs@.len() ==> #[trigger] proofs@[i].proof_chain_hash@ == blake3_spec(
                proofs@[i - 1].proof_chain_hash@ + proofs@[i - 1].vdf_state@ + be64(proofs@[i - 1].total_iterations),
            ),
{
    let mut expected: Vec<u8> = compute_blake3("genesis_vdf_proof".as_bytes());
    let mut i: usize = 0;
    while i < proofs.len()
        invariant
            i <= proofs@.len(),
            i > 0 ==> expected@ == next_chain_hash(proofs@[i - 1]),
            forall|j: int| 0 < j < i ==> #[trigger] proofs@[j].proof_chain_hash@ == next_chain_hash(proofs@[j - 1]),
            forall|j: int|
                0 <= j < i ==> #[trigger] signature_valid(prover_public_key@, proof_data(proofs@[j]), proofs@[j].signature@),
        decreases proofs@.len() - i,
    {
        let p = &proofs[i];
        if i > 0 && !crate::seqs::bytes_equal(p.proof_chain_hash.as_slice(), expected.as_slice()) {
            assert(!proofs_linked(proofs@)) by {
                assert(!(proofs@[i as int].proof_chain_hash@ == next_chain_hash(proofs@[i - 1])));
            }
            return false;
        }
        let mut data: Vec<u8> = Vec::new();
        append_bytes(&mut data, p.vdf_state.as_slice());
        append_bytes(&mut data, u64_to_be_bytes(p.total_iterations).as_slice());
        append_bytes(&mut data, u64_to_be_bytes(p.timestamp_bits).as_slice());
        append_bytes(&mut data, p.proof_chain_hash.as_slice());
        assert(data@ =~= proof_data(*p));
        match verify_signature(prover_public_key, data.as_slice(), p.signature.as_slice()) {
            Ok(true) => {},
            _ => {
                assert(!signature_valid(prover_public_key@, proof_data(proofs@[i as int]), proofs@[i as int].signature@));
                return false;
            },
        }
        let mut next: Vec<u8> = Vec::new();
        append_bytes(&mut next, p.proof_chain_hash.as_slice());
        append_bytes(&mut next, p.vdf_state.as_slice());
        append_bytes(&mut next, u64_to_be_bytes(p.total_iterations).as_slice());
        assert(next@ =~= p.proof_chain_hash@ + p.vdf_state@ + be64(p.total_iterations));
        expected = compute_blake3(next.as_slice());
        i = i + 1;
    }
    true
}

/// A list of shared proofs that verifies is a chain: each proof after the
/// first carries BLAKE3 of the link hash, the state and the iteration count
/// (eight big-endian bytes) of the proof just before it. Dropping, adding or
/// reordering proofs breaks a link, so such a list is refused.
pub proof fn lemma_valid_shared_chain_linked(proofs: Seq<SharedVDFProof>, public_key: Seq<u8>)
    requires
        shared_chain_valid(proofs, public_key),
    ensures
        forall|i: int|
            0 < i < proofs.len() ==> #[trigger] proofs[i].proof_chain_hash@ == blake3_spec(
                proofs[i - 1].proof_chain_hash@ + proofs[i - 1].vdf_state@ + be64(proofs[i - 1].total_iterations),
            ),
{
    assert forall|i: int| 0 < i < proofs.len() implies #[trigger] proofs[i].proof_chain_hash@ == blake3_spec(
        proofs[i - 1].proof_chain_hash@ + proofs[i - 1].vdf_state@ + be64(proofs[i - 1].total_iterations),
    ) by {
        assert(proofs[i].proof_chain_hash@ == next_chain_hash(proofs[i - 1]));
    }
}

/// A list of shared proofs that verifies holds, for every proof, a
/// signature that verifies under the key over the proof's state, iteration
/// count, timestamp and link hash.
pub proof fn lemma_valid_shared_chain_signed(proofs: Seq<SharedVDFProof>, public_key: Seq<u8>)
    requires
        shared_chain_valid(proofs, public_key),
    ensures
        forall|i: int|
            0 <= i < proofs.len() ==> ed25519_verification_spec(
                public_key,
                proofs[i].vdf_state@ + be64(proofs[i].total_iterations) + be64(proofs[i].timestamp_bits)
                    + proofs[i].proof_chain_hash@,
                #[trigger] proofs[i].signature@,
            ) == Some(true),
{
    assert forall|i: int| 0 <= i < proofs.len() implies ed25519_verification_spec(
        public_key,
        proofs[i].vdf_state@ + be64(proofs[i].total_iterations) + be64(proofs[i].timestamp_bits)
            + proofs[i].proof_chain_hash@,
        #[trigger] proofs[i].signature@,
    ) == Some(true) by {
        assert(signature_valid(public_key, proof_data(proofs[i]), proofs[i].signature@));
    }
}

} // verus!
