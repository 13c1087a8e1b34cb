use vstd::prelude::*;

verus! {

/// What the standard library's lossy UTF-8 decoding makes of a byte sequence.
pub uninterp spec fn lossy_text(b: Seq<u8>) -> Seq<char>;

/// Relies on `String::from_utf8_lossy`: its result depends on the bytes alone,
/// and no bytes decode to the empty string.
#[verifier::external_body]
fn lossy_string(b: &[u8]) -> (r: String)
    ensures
        r@ == lossy_text(b@),
        b@.len() == 0 ==> r@.len() == 0,
{
    String::from_utf8_lossy(b).into_owned()
}

/// The bytes sent out through the serial port, in the order they were sent.
pub struct SerialOutput {
    buffer: Vec<u8>,
}

impl View for SerialOutput {
    type V = Seq<u8>;

    closed spec fn view(&self) -> Seq<u8> {
        self.buffer@
    }
}

impl SerialOutput {
    pub fn new() -> (r: SerialOutput)
        ensures
            r@ == Seq::<u8>::empty(),
    {
        SerialOutput { buffer: Vec::new() }
    }

    pub fn write_byte(&mut self, byte: u8)
        ensures
            final(self)@ == old(self)@.push(byte),
    {
        self.buffer.push(byte);
    }

    /// The bytes sent so far.
    pub fn bytes(&self) -> (r: &[u8])
        ensures
            r@ == self@,
    {
        self.buffer.as_slice()
    }

    /// The bytes sent so far, decoded as text; invalid sequences become U+FFFD.
    pub fn get_output(&self) -> (r: String)
        ensures
            r@ == lossy_text(self@),
    {
        lossy_string(self.buffer.as_slice())
    }
}

} // verus!
