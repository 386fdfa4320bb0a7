use crate::queue::FixedQueue;
use vstd::prelude::*;
use vstd::std_specs::convert::FromSpecImpl;

verus! {

/// `std::io::Error`, carried through the mock stream's queue of calls.
#[verifier::external_type_specification]
#[verifier::external_body]
pub struct ExIoError(std::io::Error);

/// A mock stream that replays a queue of recorded calls.
#[derive(Debug)]
pub struct Mock {
    pub calls: FixedQueue<Result<Op, std::io::Error>>,
}

/// One recorded call of a mock stream.
#[derive(Debug)]
pub enum Op {
    Data(Vec<u8>),
    Flush,
}

impl Mock {
    /// Consumes the oldest recorded call, if there is one, and reports that
    /// no byte was read; `dst` is left untouched.
    pub fn read(&mut self, dst: &mut [u8]) -> (n: usize)
        requires
            old(self).calls.wf(),
        ensures
            final(self).calls.wf(),
            final(self).calls.slots() == old(self).calls.slots(),
            n == 0,
            final(dst)@ == old(dst)@,
            old(self).calls@.len() == 0 ==> final(self).calls@ == old(self).calls@,
            old(self).calls@.len() > 0 ==> final(self).calls@ == old(
                self,
            ).calls@.drop_first(),
    {
        let mut data: Result<Op, std::io::Error> = Ok(Op::Flush);
        self.calls.dequeue(&mut data);
        0
    }

    /// Writing to the mock records nothing and reports no byte written.
    pub fn write(&mut self, _src: &[u8]) -> (n: usize)
        ensures
            n == 0,
            final(self).calls == old(self).calls,
    {
        0
    }
}

impl Op {
    /// The bytes carried by a `Data` call.
    pub open spec fn data_view(&self) -> Option<Seq<u8>> {
        match self {
            Op::Data(v) => Some(v@),
            Op::Flush => None,
        }
    }
}

impl From<Vec<u8>> for Op {
    fn from(src: Vec<u8>) -> (op: Op) {
        Op::Data(src)
    }
}

impl FromSpecImpl<Vec<u8>> for Op {
    open spec fn obeys_from_spec() -> bool {
        true
    }

    open spec fn from_spec(src: Vec<u8>) -> Op {
        Op::Data(src)
    }
}

impl<'a> From<&'a [u8]> for Op {
    fn from(src: &'a [u8]) -> (op: Op)
        ensures
            op.data_view() == Some(src@),
    {
        Op::Data(vstd::slice::slice_to_vec(src))
    }
}

impl<'a> FromSpecImpl<&'a [u8]> for Op {
    /// A `Vec` cannot be built in specifications, so the call is described
    /// by `data_view` in the `ensures` of `from`.
    open spec fn obeys_from_spec() -> bool {
        false
    }

    open spec fn from_spec(src: &'a [u8]) -> Op {
        choose|op: Op| op.data_view() == Some(src@)
    }
}

} // verus!
