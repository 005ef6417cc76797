use vstd::prelude::*;

verus! {

/// Bytes that an encoder writes for one record; styling has no effect on it.
pub struct MqttBuffer(Vec<u8>);

impl View for MqttBuffer {
    type V = Seq<u8>;

    closed spec fn view(&self) -> Seq<u8> {
        self.0@
    }
}

impl MqttBuffer {
    /// An empty buffer.
    pub fn new() -> (r: Self)
        ensures
            r@ == Seq::<u8>::empty(),
    {
        MqttBuffer(Vec::new())
    }

    /// Appends all of `buf` and reports how many bytes were taken.
    pub fn write(&mut self, buf: &[u8]) -> (r: usize)
        ensures
            final(self)@ == old(self)@ + buf@,
            r == buf@.len(),
    {
        self.0.extend_from_slice(buf);
        proof {
            assert(self@ =~= old(self)@ + buf@);
        }
        buf.len()
    }

    /// Nothing is held back, so flushing changes nothing.
    pub fn flush(&mut self)
        ensures
            final(self)@ == old(self)@,
    {
    }

    /// The bytes written so far.
    pub fn into_bytes(self) -> (r: Vec<u8>)
        ensures
            r@ == self@,
    {
        self.0
    }
}

} // verus!
