//! Plain value types shared by the whole library: roots and hashes, KZG
//! commitments, slots and epochs, and the chain parameters the logic reads.
use vstd::prelude::*;
use crate::text::{hex_fixed, push_hex_fixed};

verus! {

/// A 32-byte root or hash, held as four big-endian 64-bit words
/// (`w0` holds bytes 0..8, `w3` bytes 24..32).
#[derive(Clone, Copy, PartialEq, Eq, Structural, Debug, Hash, PartialOrd, Ord)]
pub struct Hash256 {
    pub w0: u64,
    pub w1: u64,
    pub w2: u64,
    pub w3: u64,
}

/// The hash of an execution-layer block.
pub type ExecutionBlockHash = Hash256;

/// A 48-byte KZG commitment, held as three big-endian 128-bit words.
#[derive(Clone, Copy, PartialEq, Eq, Structural, Debug, Hash)]
pub struct KzgCommitment {
    pub hi: u128,
    pub mid: u128,
    pub lo: u128,
}

/// Number of slots in an epoch (mainnet preset).
pub const SLOTS_PER_EPOCH: u64 = 32;

/// The epoch that contains `slot`.
pub open spec fn epoch_of(slot: u64) -> u64 {
    slot / SLOTS_PER_EPOCH
}

/// The epoch that contains `slot`.
pub fn slot_epoch(slot: u64) -> (e: u64)
    ensures
        e == epoch_of(slot),
{
    slot / SLOTS_PER_EPOCH
}

/// The 64-bit word whose eight bytes are all `b`.
pub open spec fn repeated_word(b: u8) -> u64 {
    (b as u64 * 0x0101_0101_0101_0101u64) as u64
}

impl Hash256 {
    /// The all-zero root.
    pub fn zero() -> (h: Hash256)
        ensures
            h == (Hash256 { w0: 0, w1: 0, w2: 0, w3: 0 }),
    {
        Hash256 { w0: 0, w1: 0, w2: 0, w3: 0 }
    }

    /// The root whose last eight bytes are `x` in big-endian order and whose
    /// other bytes are zero.
    pub fn from_low_u64_be(x: u64) -> (h: Hash256)
        ensures
            h == (Hash256 { w0: 0, w1: 0, w2: 0, w3: x }),
    {
        Hash256 { w0: 0, w1: 0, w2: 0, w3: x }
    }

    /// The root whose 32 bytes are all `b`.
    pub fn repeat_byte(b: u8) -> (h: Hash256)
        ensures
            h == (Hash256 {
                w0: repeated_word(b),
                w1: repeated_word(b),
                w2: repeated_word(b),
                w3: repeated_word(b),
            }),
    {
        assert(b as u64 * 0x0101_0101_0101_0101u64 <= u64::MAX) by (nonlinear_arith)
            requires b <= 255u8;
        let w = b as u64 * 0x0101_0101_0101_0101u64;
        Hash256 { w0: w, w1: w, w2: w, w3: w }
    }
}

impl Hash256 {
    /// `0x` followed by the 64 lower-case hexadecimal digits of the root.
    pub open spec fn spec_hex(&self) -> Seq<char> {
        "0x"@ + hex_fixed(self.w0 as nat, 16) + hex_fixed(self.w1 as nat, 16) + hex_fixed(
            self.w2 as nat,
            16,
        ) + hex_fixed(self.w3 as nat, 16)
    }

    /// Appends `0x` and the 64 hexadecimal digits of the root to `out`.
    pub fn push_hex(&self, out: &mut String)
        ensures
            final(out)@ == old(out)@ + self.spec_hex(),
    {
        out.append("0x");
        push_hex_fixed(out, self.w0, 16);
        push_hex_fixed(out, self.w1, 16);
        push_hex_fixed(out, self.w2, 16);
        push_hex_fixed(out, self.w3, 16);
        proof {
            assert(out@ =~= old(out)@ + self.spec_hex());
        }
    }
}

/// The eight bytes of `w`, most significant first.
pub open spec fn be_bytes(w: u64) -> Seq<u8> {
    seq![
        (w >> 56u64) as u8,
        (w >> 48u64) as u8,
        (w >> 40u64) as u8,
        (w >> 32u64) as u8,
        (w >> 24u64) as u8,
        (w >> 16u64) as u8,
        (w >> 8u64) as u8,
        w as u8,
    ]
}

/// The eight bytes of `w`, least significant first.
pub open spec fn le_bytes(w: u64) -> Seq<u8> {
    seq![
        w as u8,
        (w >> 8u64) as u8,
        (w >> 16u64) as u8,
        (w >> 24u64) as u8,
        (w >> 32u64) as u8,
        (w >> 40u64) as u8,
        (w >> 48u64) as u8,
        (w >> 56u64) as u8,
    ]
}

/// The word whose eight bytes, most significant first, are `b[off..off + 8]`.
pub open spec fn be_word(b: Seq<u8>, off: int) -> u64 {
    word_of(b[off], b[off + 1], b[off + 2], b[off + 3], b[off + 4], b[off + 5], b[off + 6], b[off + 7])
}

/// The word with bytes `b0` (most significant) to `b7`.
pub open spec fn word_of(b0: u8, b1: u8, b2: u8, b3: u8, b4: u8, b5: u8, b6: u8, b7: u8) -> u64 {
    ((b0 as u64) << 56u64) | ((b1 as u64) << 48u64) | ((b2 as u64) << 40u64) | ((b3 as u64) << 32u64)
        | ((b4 as u64) << 24u64) | ((b5 as u64) << 16u64) | ((b6 as u64) << 8u64) | (b7 as u64)
}

/// Splitting a word into bytes and joining them gives the word back.
pub proof fn lemma_word_round_trip(w: u64)
    ensures
        word_of(
            (w >> 56u64) as u8,
            (w >> 48u64) as u8,
            (w >> 40u64) as u8,
            (w >> 32u64) as u8,
            (w >> 24u64) as u8,
            (w >> 16u64) as u8,
            (w >> 8u64) as u8,
            w as u8,
        ) == w,
{
    assert(((((w >> 56u64) as u8) as u64) << 56u64) | ((((w >> 48u64) as u8) as u64) << 48u64) | ((((w
        >> 40u64) as u8) as u64) << 40u64) | ((((w >> 32u64) as u8) as u64) << 32u64) | ((((w >> 24u64)
        as u8) as u64) << 24u64) | ((((w >> 16u64) as u8) as u64) << 16u64) | ((((w >> 8u64) as u8)
        as u64) << 8u64) | ((w as u8) as u64) == w) by (bit_vector);
}

/// Appends the eight bytes of `w`, most significant first.
pub fn push_be_bytes(out: &mut Vec<u8>, w: u64)
    ensures
        final(out)@ == old(out)@ + be_bytes(w),
{
    out.push((w >> 56u64) as u8);
    out.push((w >> 48u64) as u8);
    out.push((w >> 40u64) as u8);
    out.push((w >> 32u64) as u8);
    out.push((w >> 24u64) as u8);
    out.push((w >> 16u64) as u8);
    out.push((w >> 8u64) as u8);
    out.push(w as u8);
    proof {
        assert(out@ =~= old(out)@ + be_bytes(w));
    }
}

/// Appends the eight bytes of `w`, least significant first.
pub fn push_le_bytes(out: &mut Vec<u8>, w: u64)
    ensures
        final(out)@ == old(out)@ + le_bytes(w),
{
    out.push(w as u8);
    out.push((w >> 8u64) as u8);
    out.push((w >> 16u64) as u8);
    out.push((w >> 24u64) as u8);
    out.push((w >> 32u64) as u8);
    out.push((w >> 40u64) as u8);
    out.push((w >> 48u64) as u8);
    out.push((w >> 56u64) as u8);
    proof {
        assert(out@ =~= old(out)@ + le_bytes(w));
    }
}

/// The word whose eight bytes, most significant first, are `b[off..off + 8]`.
fn read_be_word(b: &[u8], off: usize) -> (r: u64)
    requires
        off + 8 <= b@.len(),
    ensures
        r == be_word(b@, off as int),
{
    ((b[off] as u64) << 56u64) | ((b[off + 1] as u64) << 48u64) | ((b[off + 2] as u64) << 40u64) | ((
    b[off + 3] as u64) << 32u64) | ((b[off + 4] as u64) << 24u64) | ((b[off + 5] as u64) << 16u64) | ((
    b[off + 6] as u64) << 8u64) | (b[off + 7] as u64)
}

impl Hash256 {
    /// The 32 bytes of the root.
    pub open spec fn spec_bytes(&self) -> Seq<u8> {
        be_bytes(self.w0) + be_bytes(self.w1) + be_bytes(self.w2) + be_bytes(self.w3)
    }

    /// The root with the 32 bytes `b[0..32]`.
    pub open spec fn spec_from_bytes(b: Seq<u8>) -> Hash256 {
        Hash256 { w0: be_word(b, 0), w1: be_word(b, 8), w2: be_word(b, 16), w3: be_word(b, 24) }
    }

    /// The 32 bytes of the root.
    pub fn to_bytes(&self) -> (r: Vec<u8>)
        ensures
            r@ == self.spec_bytes(),
    {
        let mut out: Vec<u8> = Vec::new();
        push_be_bytes(&mut out, self.w0);
        push_be_bytes(&mut out, self.w1);
        push_be_bytes(&mut out, self.w2);
        push_be_bytes(&mut out, self.w3);
        proof {
            assert(out@ =~= self.spec_bytes());
        }
        out
    }

    /// The root with the first 32 bytes of `b`.
    pub fn from_slice(b: &[u8]) -> (r: Hash256)
        requires
            b@.len() >= 32,
        ensures
            r == Hash256::spec_from_bytes(b@),
    {
        Hash256 {
            w0: read_be_word(b, 0),
            w1: read_be_word(b, 8),
            w2: read_be_word(b, 16),
            w3: read_be_word(b, 24),
        }
    }

    /// A root's bytes read back give the root.
    pub proof fn lemma_bytes_round_trip(h: Hash256)
        ensures
            Hash256::spec_from_bytes(h.spec_bytes()) == h,
            h.spec_bytes().len() == 32,
    {
        let b = h.spec_bytes();
        assert(b.len() == 32);
        lemma_word_round_trip(h.w0);
        lemma_word_round_trip(h.w1);
        lemma_word_round_trip(h.w2);
        lemma_word_round_trip(h.w3);
        assert(be_word(b, 0) == h.w0);
        assert(be_word(b, 8) == h.w1);
        assert(be_word(b, 16) == h.w2);
        assert(be_word(b, 24) == h.w3);
    }
}

/// The chain parameters that the availability logic reads.
#[derive(Clone, Copy, PartialEq, Eq, Structural, Debug)]
pub struct ChainSpec {
    /// Epoch at which the Deneb fork activates, if scheduled.
    pub deneb_fork_epoch: Option<u64>,
    /// Epoch at which PeerDAS (data columns) activates, if scheduled.
    pub peer_das_epoch: Option<u64>,
    /// Maximum number of blobs a block may carry.
    pub max_blobs_per_block: u64,
    /// Number of data columns in the extended blob matrix.
    pub number_of_columns: u64,
    /// Number of epochs for which peers must serve blob sidecars.
    pub min_epochs_for_blob_sidecars_requests: u64,
}

impl ChainSpec {
    /// Whether PeerDAS is active at `epoch`.
    pub open spec fn spec_peer_das_enabled(&self, epoch: u64) -> bool {
        match self.peer_das_epoch {
            Some(e) => epoch >= e,
            None => false,
        }
    }

    /// Whether Deneb is active at `epoch`.
    pub open spec fn spec_deneb_enabled(&self, epoch: u64) -> bool {
        match self.deneb_fork_epoch {
            Some(e) => epoch >= e,
            None => false,
        }
    }

    /// Whether PeerDAS is active at `epoch`.
    pub fn is_peer_das_enabled_for_epoch(&self, epoch: u64) -> (r: bool)
        ensures
            r == self.spec_peer_das_enabled(epoch),
    {
        match self.peer_das_epoch {
            Some(e) => epoch >= e,
            None => false,
        }
    }

    /// The earliest epoch whose blocks must have their data available when
    /// the current epoch is `current_epoch`: the Deneb fork epoch or the start
    /// of the blob retention window, whichever is later; none without Deneb.
    pub open spec fn spec_min_epoch_data_availability_boundary(&self, current_epoch: u64) -> Option<
        u64,
    > {
        match self.deneb_fork_epoch {
            Some(fork) => {
                let window_start: u64 = if current_epoch >= self.min_epochs_for_blob_sidecars_requests {
                    (current_epoch - self.min_epochs_for_blob_sidecars_requests) as u64
                } else {
                    0
                };
                Some(
                    if fork >= window_start {
                        fork
                    } else {
                        window_start
                    },
                )
            },
            None => None,
        }
    }

    /// The earliest epoch whose blocks must have their data available (see
    /// [`Self::spec_min_epoch_data_availability_boundary`]).
    pub fn min_epoch_data_availability_boundary(&self, current_epoch: u64) -> (r: Option<u64>)
        ensures
            r == self.spec_min_epoch_data_availability_boundary(current_epoch),
    {
        match self.deneb_fork_epoch {
            Some(fork) => {
                let window_start = current_epoch.saturating_sub(
                    self.min_epochs_for_blob_sidecars_requests,
                );
                Some(
                    if fork >= window_start {
                        fork
                    } else {
                        window_start
                    },
                )
            },
            None => None,
        }
    }

    /// Maximum number of blobs per block (the same at every epoch here).
    pub fn max_blobs_per_block(&self, epoch: u64) -> (r: u64)
        ensures
            r == self.max_blobs_per_block,
    {
        self.max_blobs_per_block
    }
}

} // verus!
