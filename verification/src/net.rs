use vstd::prelude::*;

verus! {

/// Maximum transmission unit of the audio network.
pub const MTU: usize = 1500;
/// Largest payload placed in one packet.
pub const MAX_PAYLOAD_BYTES: usize = 1400;

/// Room for one received packet.
pub struct ReceiveBuffer {
    buff: [u8; 1500],
}

impl ReceiveBuffer {
    /// The contents of the buffer.
    pub closed spec fn contents(&self) -> Seq<u8> {
        self.buff@
    }

    /// A zeroed buffer of `MTU` bytes.
    pub fn new() -> (b: ReceiveBuffer)
        ensures
            b.contents() == Seq::new(MTU as nat, |i: int| 0u8),
    {
        let b = ReceiveBuffer { buff: [0u8; 1500] };
        assert(b.contents() =~= Seq::new(MTU as nat, |i: int| 0u8));
        b
    }

    /// The whole buffer, to receive into.
    pub fn space(&mut self) -> (s: &mut [u8; 1500])
        ensures
            s@ == old(self).contents(),
            final(self).contents() == final(s)@,
    {
        &mut self.buff
    }

    /// The first `len` bytes: the packet received.
    pub fn received(&self, len: usize) -> (p: &[u8])
        requires
            len <= MTU,
        ensures
            p@ == self.contents().take(len as int),
    {
        let all = self.buff.as_slice();
        &all[0..len]
    }
}

} // verus!
