//! CAN frames and the shared value types of the communication layer.
use vstd::prelude::*;

verus! {

/// Largest payload of a classic CAN frame.
pub const MAX_CAN_DATA: usize = 8;

/// What a frame is, mathematically: its identifier and its payload bytes.
#[verifier::ext_equal]
pub struct FrameView {
    pub id: u32,
    pub data: Seq<u8>,
}

/// A classic CAN frame: an identifier and up to eight data bytes.
#[derive(Clone, Copy, Debug)]
pub struct CanFrame {
    id: u32,
    dlc: u8,
    data: [u8; 8],
}

impl CanFrame {
    #[verifier::type_invariant]
    spec fn dlc_fits(self) -> bool {
        self.dlc <= 8
    }

    /// The identifier of the frame.
    pub closed spec fn spec_id(self) -> u32 {
        self.id
    }

    /// The payload of the frame.
    pub closed spec fn spec_data(self) -> Seq<u8> {
        self.data@.take(if self.dlc <= 8 { self.dlc as int } else { 8 })
    }

    pub open spec fn spec_view(self) -> FrameView {
        FrameView { id: self.spec_id(), data: self.spec_data() }
    }

    /// A frame carries at most eight data bytes.
    pub proof fn lemma_data_len(self)
        ensures
            self.spec_data().len() <= 8,
    {
    }

    /// Builds a frame from an identifier and the first (at most eight) bytes of `data`.
    pub fn new(id: u32, data: &[u8]) -> (frame: CanFrame)
        ensures
            frame.spec_id() == id,
            frame.spec_data() == data@.take(if data@.len() <= 8 { data@.len() as int } else { 8 }),
    {
        let max: usize = if data.len() <= 8 { data.len() } else { 8 };
        let mut buf: [u8; 8] = [0u8; 8];
        let mut i: usize = 0;
        while i < max
            invariant
                i <= max <= 8,
                max <= data@.len(),
                buf@.len() == 8,
                forall|k: int| 0 <= k < i ==> buf@[k] == data@[k],
            decreases max - i,
        {
            buf[i] = data[i];
            i = i + 1;
        }
        let frame = CanFrame { id, dlc: max as u8, data: buf };
        assert(frame.spec_data() =~= data@.take(max as int));
        frame
    }

    /// The identifier of the frame.
    pub fn id(&self) -> (r: u32)
        ensures
            r == self.spec_id(),
    {
        self.id
    }

    /// The number of data bytes.
    pub fn dlc(&self) -> (r: u8)
        ensures
            r as int == self.spec_data().len(),
    {
        proof {
            use_type_invariant(self);
        }
        self.dlc
    }

    /// The payload bytes.
    pub fn get_data(&self) -> (r: &[u8])
        ensures
            r@ == self.spec_data(),
    {
        proof {
            use_type_invariant(self);
        }
        let n: usize = self.dlc as usize;
        let r = &self.data[0..n];
        assert(r@ =~= self.spec_data());
        r
    }
}

} // verus!
