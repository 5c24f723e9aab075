//! The byte-oriented transport the orchestrator drives: a trait with a
//! bounded-wait read and a write, and the deterministic test double that
//! serves scripted bytes.
//!
//! The real serial port of the machine implements the same trait outside the
//! library; the protocol logic is verified against the trait's contract
//! alone.

use vstd::prelude::*;

verus! {

/// A serial link: reads never block for ever and hand back whatever bytes
/// arrived, appended to the caller's buffer.
pub trait CommonSerialComTrait {
    /// Wait briefly for bytes and append them to `buffer`; how many arrived.
    fn read(&mut self, buffer: &mut Vec<u8>) -> (n: usize)
        ensures
            final(buffer)@.len() == old(buffer)@.len() + n,
            final(buffer)@.subrange(0, old(buffer)@.len() as int) == old(buffer)@,
    ;

    /// Send the bytes down the link.
    fn write(&mut self, buffer: &[u8]);

    /// Test double only: note the bytes the next write must carry.
    fn should_write(&mut self, buffer: &[u8]);

    /// Test double only: serve these bytes to the next read.
    fn will_read(&mut self, buffer: &[u8]);
}

/// Deterministic test double: the next read returns pre-loaded bytes, each
/// batch consumed exactly once, and an expected next write can be recorded
/// and checked.
#[derive(Default)]
pub struct FakeSerialCom {
    /// Bytes the next write must carry (empty: no expectation)
    expected_write: Vec<u8>,
    /// Bytes served to the next read
    pending_read: Vec<u8>,
    /// A checked write did not carry the expected bytes
    mismatch: bool,
}

impl FakeSerialCom {
    /// Bytes the next read will serve.
    pub closed spec fn spec_pending_read(self) -> Seq<u8> {
        self.pending_read@
    }

    /// Bytes the next write must carry.
    pub closed spec fn spec_expected_write(self) -> Seq<u8> {
        self.expected_write@
    }

    /// Has a checked write carried other bytes than expected?
    pub closed spec fn spec_mismatch(self) -> bool {
        self.mismatch
    }

    /// Fresh double: nothing scripted.
    pub fn new() -> (r: Self)
        ensures
            r.spec_pending_read().len() == 0,
            r.spec_expected_write().len() == 0,
            !r.spec_mismatch(),
    {
        FakeSerialCom { expected_write: Vec::new(), pending_read: Vec::new(), mismatch: false }
    }

    /// Has a checked write carried other bytes than expected?
    pub fn unexpected_write(&self) -> (r: bool)
        ensures
            r == self.spec_mismatch(),
    {
        self.mismatch
    }
}

impl CommonSerialComTrait for FakeSerialCom {
    /// Serve the scripted bytes, once.
    fn read(&mut self, buffer: &mut Vec<u8>) -> (n: usize)
        ensures
            n == old(self).spec_pending_read().len(),
            final(buffer)@ == old(buffer)@ + old(self).spec_pending_read(),
            final(self).spec_pending_read().len() == 0,
            final(self).spec_expected_write() == old(self).spec_expected_write(),
            final(self).spec_mismatch() == old(self).spec_mismatch(),
    {
        let n = self.pending_read.len();
        buffer.append(&mut self.pending_read);
        proof {
            assert(buffer@.subrange(0, old(buffer)@.len() as int) =~= old(buffer)@);
        }
        n
    }

    /// Check the bytes against a recorded expectation, if one is pending;
    /// the expectation is consumed either way.
    fn write(&mut self, buffer: &[u8])
        ensures
            final(self).spec_pending_read() == old(self).spec_pending_read(),
            final(self).spec_expected_write().len() == 0,
            final(self).spec_mismatch() == (old(self).spec_mismatch() || (old(
                self,
            ).spec_expected_write().len() > 0 && old(self).spec_expected_write() != buffer@)),
    {
        if self.expected_write.len() > 0 {
            if !slices_equal(self.expected_write.as_slice(), buffer) {
                self.mismatch = true;
            }
            self.expected_write.clear();
        }
    }

    /// Record what the next write must carry.
    fn should_write(&mut self, buffer: &[u8])
        ensures
            final(self).spec_expected_write() == buffer@,
            final(self).spec_pending_read() == old(self).spec_pending_read(),
            final(self).spec_mismatch() == old(self).spec_mismatch(),
    {
        self.expected_write = vstd::slice::slice_to_vec(buffer);
    }

    /// Script the bytes of the next read.
    fn will_read(&mut self, buffer: &[u8])
        ensures
            final(self).spec_pending_read() == buffer@,
            final(self).spec_expected_write() == old(self).spec_expected_write(),
            final(self).spec_mismatch() == old(self).spec_mismatch(),
    {
        self.pending_read = vstd::slice::slice_to_vec(buffer);
    }
}

/// Do two byte slices hold the same bytes?
fn slices_equal(a: &[u8], b: &[u8]) -> (r: bool)
    ensures
        r == (a@ == b@),
{
    if a.len() != b.len() {
        proof {
            assert(a@ != b@);
        }
        return false;
    }
    let mut i: usize = 0;
    while i < a.len()
        invariant
            a@.len() == b@.len(),
            0 <= i <= a@.len(),
            forall|j: int| 0 <= j < i ==> a@[j] == b@[j],
        decreases a@.len() - i,
    {
        if a[i] != b[i] {
            proof {
                assert(a@ != b@);
            }
            return false;
        }
        i = i + 1;
    }
    proof {
        assert(a@ =~= b@);
    }
    true
}

} // verus!
