use vstd::prelude::*;

verus! {

/// A 32-byte key naming a record or an authority.
#[derive(Clone, Copy, Debug, Eq, Default)]
pub struct Pubkey {
    pub bytes: [u8; 32],
}

impl View for Pubkey {
    type V = Seq<u8>;

    open spec fn view(&self) -> Seq<u8> {
        self.bytes@
    }
}

/// Two keys with the same bytes are the same key.
pub proof fn lemma_pubkey_ext(a: Pubkey, b: Pubkey)
    requires
        a@ == b@,
    ensures
        a == b,
{
    assert forall|i: int| 0 <= i < 32 implies a.bytes[i] == b.bytes[i] by {
        assert(a.bytes@[i] == b.bytes@[i]);
    }
    assert(a.bytes =~= b.bytes);
}

impl PartialEq for Pubkey {
    fn eq(&self, other: &Pubkey) -> (r: bool) {
        let mut i: usize = 0;
        while i < 32
            invariant
                i <= 32,
                forall|j: int| 0 <= j < i ==> self.bytes[j] == other.bytes[j],
            decreases 32 - i,
        {
            if self.bytes[i] != other.bytes[i] {
                assert(self@[i as int] != other@[i as int]);
                return false;
            }
            i = i + 1;
        }
        assert(self@ =~= other@);
        true
    }
}

impl vstd::std_specs::cmp::PartialEqSpecImpl for Pubkey {
    open spec fn obeys_eq_spec() -> bool {
        true
    }

    open spec fn eq_spec(&self, other: &Pubkey) -> bool {
        self@ == other@
    }
}

impl Pubkey {
    pub fn new_from_array(bytes: [u8; 32]) -> (r: Pubkey)
        ensures
            r.bytes == bytes,
    {
        Pubkey { bytes }
    }

    pub fn to_bytes(&self) -> (r: [u8; 32])
        ensures
            r == self.bytes,
    {
        self.bytes
    }

    /// Reads the key held in `input[start..start + 32]`.
    pub fn read_from(input: &[u8], start: usize) -> (r: Pubkey)
        requires
            start + 32 <= input@.len(),
        ensures
            r@ == input@.subrange(start as int, start + 32),
    {
        let mut bytes = [0u8; 32];
        let mut i: usize = 0;
        while i < 32
            invariant
                i <= 32,
                start + 32 <= input.len(),
                forall|j: int| 0 <= j < i ==> bytes[j] == input@[start + j],
            decreases 32 - i,
        {
            bytes[i] = input[start + i];
            i = i + 1;
        }
        let r = Pubkey { bytes };
        assert(r@ =~= input@.subrange(start as int, start + 32));
        r
    }

    /// Appends the key's 32 bytes to `out`.
    pub fn write_to(&self, out: &mut Vec<u8>)
        ensures
            final(out)@ == old(out)@ + self@,
    {
        let mut i: usize = 0;
        while i < 32
            invariant
                i <= 32,
                out@ == old(out)@ + self@.subrange(0, i as int),
            decreases 32 - i,
        {
            out.push(self.bytes[i]);
            proof {
                assert(self@.subrange(0, i + 1) =~= self@.subrange(0, i as int).push(self.bytes[i as int]));
            }
            i = i + 1;
        }
        assert(self@.subrange(0, 32) =~= self@);
    }
}

} // verus!
