//! The multisig record: an M-of-N authority, 355 bytes.
use vstd::prelude::*;

use crate::error::{ProgramError, TokenError};
use crate::pubkey::Pubkey;

verus! {

/// Size of a packed multisig.
pub const MULTISIG_LEN: usize = 355;

/// Number of signer slots in a multisig.
pub const MAX_SIGNERS: usize = 11;

/// An M-of-N authority: `m` signatures are needed from the first `n`
/// enrolled signer keys. Slots past `n` carry no meaning.
#[derive(Clone, Copy, Debug, PartialEq)]
pub struct Multisig {
    pub m: u8,
    pub n: u8,
    pub is_initialized: bool,
    pub signers: [Pubkey; 11],
}

/// A multisig as plain values.
pub struct MultisigView {
    pub m: u8,
    pub n: u8,
    pub is_initialized: bool,
    pub signers: Seq<Seq<u8>>,
}

impl View for Multisig {
    type V = MultisigView;

    open spec fn view(&self) -> MultisigView {
        MultisigView {
            m: self.m,
            n: self.n,
            is_initialized: self.is_initialized,
            signers: Seq::new(11, |i: int| self.signers[i]@),
        }
    }
}

/// The configuration rule that decoding enforces: `n <= 11`, `m <= n`,
/// and an initialized multisig needs at least one signature.
pub open spec fn multisig_config_ok(m: u8, n: u8, is_initialized: bool) -> bool {
    n <= MAX_SIGNERS && m <= n && (is_initialized ==> m >= 1)
}

/// Eleven signer slots of 32 bytes each, under a valid configuration.
pub open spec fn multisig_view_wf(v: MultisigView) -> bool {
    &&& multisig_config_ok(v.m, v.n, v.is_initialized)
    &&& v.signers.len() == MAX_SIGNERS
    &&& forall|i: int| 0 <= i < MAX_SIGNERS ==> (#[trigger] v.signers[i]).len() == 32
}

/// The signer slots laid end to end.
pub open spec fn signers_bytes(signers: Seq<Seq<u8>>) -> Seq<u8> {
    Seq::new(32 * signers.len(), |j: int| signers[j / 32][j % 32])
}

/// The packed layout: m (1), n (1), initialized flag (1), signer slots (11 x 32).
pub open spec fn multisig_bytes(v: MultisigView) -> Seq<u8> {
    seq![v.m, v.n, if v.is_initialized { 1u8 } else { 0u8 }] + signers_bytes(v.signers)
}

/// The key in signer slot `i` of packed bytes `s`.
pub open spec fn signer_slot(s: Seq<u8>, i: int) -> Seq<u8> {
    s.subrange(3 + 32 * i, 35 + 32 * i)
}

/// Decodes the first 355 bytes of `s` as a multisig; a configuration
/// outside the rule is `InvalidMultisigConfig`.
pub open spec fn decode_multisig(s: Seq<u8>) -> Result<MultisigView, ProgramError> {
    if !multisig_config_ok(s[0], s[1], s[2] != 0) {
        Err(ProgramError::Custom(TokenError::InvalidMultisigConfig))
    } else {
        Ok(
            MultisigView {
                m: s[0],
                n: s[1],
                is_initialized: s[2] != 0,
                signers: Seq::new(11, |i: int| signer_slot(s, i)),
            },
        )
    }
}

/// Decodes a record's data as a multisig, rejecting any length but 355.
pub open spec fn multisig_from_data(s: Seq<u8>) -> Result<MultisigView, ProgramError> {
    if s.len() != MULTISIG_LEN {
        Err(ProgramError::InvalidAccountData)
    } else {
        decode_multisig(s)
    }
}

proof fn lemma_slot_index(i: int, k: int)
    requires
        0 <= i,
        0 <= k < 32,
    ensures
        (32 * i + k) / 32 == i,
        (32 * i + k) % 32 == k,
{
    assert((32 * i + k) / 32 == i) by (nonlinear_arith)
        requires
            0 <= i,
            0 <= k < 32,
    ;
    assert((32 * i + k) % 32 == k) by (nonlinear_arith)
        requires
            0 <= i,
            0 <= k < 32,
    ;
}

/// Packing a well-formed multisig and decoding the bytes gives it back.
pub proof fn lemma_multisig_round_trip(v: MultisigView)
    requires
        multisig_view_wf(v),
    ensures
        multisig_bytes(v).len() == MULTISIG_LEN,
        multisig_from_data(multisig_bytes(v)) == Ok::<MultisigView, ProgramError>(v),
{
    let b = multisig_bytes(v);
    let d = Seq::new(11, |i: int| signer_slot(b, i));
    assert forall|i: int| 0 <= i < 11 implies #[trigger] d[i] == v.signers[i] by {
        assert forall|k: int| 0 <= k < 32 implies d[i][k] == v.signers[i][k] by {
            lemma_slot_index(i, k);
            assert(32 * i + k < 32 * 11) by (nonlinear_arith)
                requires
                    0 <= i < 11,
                    0 <= k < 32,
            ;
        }
        assert(d[i] =~= v.signers[i]);
    }
    assert(d =~= v.signers);
}

impl Default for Multisig {
    fn default() -> (r: Multisig)
        ensures
            r.m == 0 && r.n == 0 && !r.is_initialized,
            forall|i: int| 0 <= i < 11 ==> (#[trigger] r.signers[i]).bytes@ == Seq::new(32, |j: int| 0u8),
    {
        let z = Pubkey { bytes: [0u8; 32] };
        assert(z.bytes@ =~= Seq::new(32, |j: int| 0u8));
        Multisig { m: 0, n: 0, is_initialized: false, signers: [z; 11] }
    }
}

impl Multisig {
    pub const LEN: usize = 355;

    /// Decodes the first 355 bytes of `input`.
    pub fn unpack(input: &[u8]) -> (r: Result<Multisig, ProgramError>)
        requires
            input.len() >= MULTISIG_LEN,
        ensures
            match decode_multisig(input@) {
                Ok(v) => r is Ok && r->Ok_0@ == v,
                Err(e) => r == Err::<Multisig, ProgramError>(e),
            },
    {
        let m = input[0];
        let n = input[1];
        let is_initialized = input[2] != 0;
        if n as usize > MAX_SIGNERS {
            return Err(ProgramError::Custom(TokenError::InvalidMultisigConfig));
        }
        if m > n {
            return Err(ProgramError::Custom(TokenError::InvalidMultisigConfig));
        }
        if is_initialized && m == 0 {
            return Err(ProgramError::Custom(TokenError::InvalidMultisigConfig));
        }
        let z = Pubkey { bytes: [0u8; 32] };
        let mut signers = [z; 11];
        let mut i: usize = 0;
        while i < MAX_SIGNERS
            invariant
                i <= MAX_SIGNERS,
                input.len() >= MULTISIG_LEN,
                forall|j: int| 0 <= j < i ==> (#[trigger] signers[j])@ == signer_slot(input@, j),
            decreases MAX_SIGNERS - i,
        {
            signers[i] = Pubkey::read_from(input, 3 + i * 32);
            i = i + 1;
        }
        let r = Multisig { m, n, is_initialized, signers };
        assert(r@.signers =~= Seq::new(11, |j: int| signer_slot(input@, j)));
        Ok(r)
    }

    /// Decodes `input`, which must be exactly 355 bytes long.
    pub fn unpack_from_slice(input: &[u8]) -> (r: Result<Multisig, ProgramError>)
        ensures
            match multisig_from_data(input@) {
                Ok(v) => r is Ok && r->Ok_0@ == v,
                Err(e) => r == Err::<Multisig, ProgramError>(e),
            },
    {
        if input.len() != Self::LEN {
            return Err(ProgramError::InvalidAccountData);
        }
        Self::unpack(input)
    }

    /// The 355 packed bytes of this multisig.
    pub fn pack(&self) -> (r: Vec<u8>)
        ensures
            r@ == multisig_bytes(self@),
    {
        let mut out: Vec<u8> = Vec::new();
        out.push(self.m);
        out.push(self.n);
        out.push(if self.is_initialized { 1u8 } else { 0u8 });
        let ghost head = out@;
        let ghost sv = self@.signers;
        let mut i: usize = 0;
        while i < MAX_SIGNERS
            invariant
                i <= MAX_SIGNERS,
                sv == self@.signers,
                out@ == head + Seq::new(32 * i as nat, |j: int| sv[j / 32][j % 32]),
            decreases MAX_SIGNERS - i,
        {
            let ghost before = out@;
            self.signers[i].write_to(&mut out);
            proof {
                let next = Seq::new(32 * (i + 1) as nat, |j: int| sv[j / 32][j % 32]);
                let prev = Seq::new(32 * i as nat, |j: int| sv[j / 32][j % 32]);
                assert forall|j: int| 32 * i <= j < 32 * (i + 1) implies #[trigger] next[j]
                    == self.signers[i as int]@[j - 32 * i] by {
                    lemma_slot_index(i as int, j - 32 * i);
                }
                assert forall|j: int| 0 <= j < 32 * i implies #[trigger] next[j] == prev[j] by {}
                assert(prev + self.signers[i as int]@ =~= next);
            }
            i = i + 1;
        }
        assert(out@ =~= multisig_bytes(self@));
        out
    }

    /// Overwrites `dst`, which must be exactly 355 bytes long, with this multisig.
    pub fn pack_into_slice(&self, dst: &mut Vec<u8>) -> (r: Result<(), ProgramError>)
        ensures
            old(dst)@.len() != MULTISIG_LEN ==> r == Err::<(), ProgramError>(
                ProgramError::InvalidAccountData,
            ) && final(dst)@ == old(dst)@,
            old(dst)@.len() == MULTISIG_LEN ==> r is Ok && final(dst)@ == multisig_bytes(self@),
    {
        if dst.len() != Self::LEN {
            return Err(ProgramError::InvalidAccountData);
        }
        *dst = self.pack();
        Ok(())
    }
}

} // verus!
