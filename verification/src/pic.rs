//! The two chained 8259 interrupt controllers. The driver computes the bytes
//! to send; whoever owns the I/O ports sends them in the order given.

use vstd::prelude::*;

verus! {

/// Command port of the primary controller.
pub const PIC_1_COMMAND: u16 = 0x20;

/// Data port of the primary controller.
pub const PIC_1_DATA: u16 = 0x21;

/// Command port of the secondary controller.
pub const PIC_2_COMMAND: u16 = 0xA0;

/// Data port of the secondary controller.
pub const PIC_2_DATA: u16 = 0xA1;

/// A port that is written to only to let some time pass.
pub const WAIT_PORT: u16 = 0x80;

/// Command that begins the initialisation of a controller.
pub const CMD_INIT: u8 = 0x11;

/// Command that acknowledges an interrupt.
pub const CMD_END_OF_INTERRUPT: u8 = 0x20;

/// The mode in which the controllers run.
pub const MODE_8086: u8 = 0x01;

/// One byte to write to one I/O port.
#[derive(Clone, Copy, Debug, PartialEq, Eq, Structural)]
pub struct PortWrite {
    pub port: u16,
    pub value: u8,
}

/// A pair of chained interrupt controllers, each serving eight vectors from
/// its offset on.
#[derive(Clone, Copy, Debug, PartialEq, Eq, Structural)]
pub struct ChainedPics {
    offset1: u8,
    offset2: u8,
}

/// Whether a controller with the given offset serves the vector `id`.
pub open spec fn serves(offset: u8, id: u8) -> bool {
    offset <= id < offset + 8
}

/// The bytes that initialise both controllers with the given offsets and
/// then restore the given interrupt masks. After each byte but the last two,
/// a byte goes to the wait port.
pub open spec fn initialize_writes(offset1: u8, offset2: u8, mask1: u8, mask2: u8) -> Seq<
    PortWrite,
> {
    seq![
        PortWrite { port: PIC_1_COMMAND, value: CMD_INIT },
        PortWrite { port: WAIT_PORT, value: 0 },
        PortWrite { port: PIC_2_COMMAND, value: CMD_INIT },
        PortWrite { port: WAIT_PORT, value: 0 },
        PortWrite { port: PIC_1_DATA, value: offset1 },
        PortWrite { port: WAIT_PORT, value: 0 },
        PortWrite { port: PIC_2_DATA, value: offset2 },
        PortWrite { port: WAIT_PORT, value: 0 },
        PortWrite { port: PIC_1_DATA, value: 4 },
        PortWrite { port: WAIT_PORT, value: 0 },
        PortWrite { port: PIC_2_DATA, value: 2 },
        PortWrite { port: WAIT_PORT, value: 0 },
        PortWrite { port: PIC_1_DATA, value: MODE_8086 },
        PortWrite { port: WAIT_PORT, value: 0 },
        PortWrite { port: PIC_2_DATA, value: MODE_8086 },
        PortWrite { port: WAIT_PORT, value: 0 },
        PortWrite { port: PIC_1_DATA, value: mask1 },
        PortWrite { port: PIC_2_DATA, value: mask2 },
    ]
}

/// The bytes that acknowledge the interrupt `id`: one to the secondary
/// controller if it serves the vector, then one to the primary controller;
/// nothing if neither serves it.
pub open spec fn end_of_interrupt_writes(offset1: u8, offset2: u8, id: u8) -> Seq<PortWrite> {
    if serves(offset2, id) {
        seq![
            PortWrite { port: PIC_2_COMMAND, value: CMD_END_OF_INTERRUPT },
            PortWrite { port: PIC_1_COMMAND, value: CMD_END_OF_INTERRUPT },
        ]
    } else if serves(offset1, id) {
        seq![PortWrite { port: PIC_1_COMMAND, value: CMD_END_OF_INTERRUPT }]
    } else {
        Seq::empty()
    }
}

impl ChainedPics {
    /// The offsets of the primary and of the secondary controller.
    pub closed spec fn view(&self) -> (u8, u8) {
        (self.offset1, self.offset2)
    }

    /// The standard pair of controllers, with the given offsets.
    pub fn new(offset1: u8, offset2: u8) -> (pics: ChainedPics)
        ensures
            pics@ == (offset1, offset2),
    {
        ChainedPics { offset1, offset2 }
    }

    /// Whether one of the two controllers serves the vector `interrupt_id`.
    pub fn handles_interrupt(&self, interrupt_id: u8) -> (b: bool)
        ensures
            b == (serves(self@.0, interrupt_id) || serves(self@.1, interrupt_id)),
    {
        Self::pic_handles(self.offset1, interrupt_id) || Self::pic_handles(
            self.offset2,
            interrupt_id,
        )
    }

    fn pic_handles(offset: u8, interrupt_id: u8) -> (b: bool)
        ensures
            b == serves(offset, interrupt_id),
    {
        offset <= interrupt_id && interrupt_id - offset < 8
    }

    /// The bytes to send in order to initialise both controllers.
    /// `saved_mask1` and `saved_mask2` are the interrupt masks read from the
    /// two data ports beforehand; they are restored at the end.
    pub fn initialize(&self, saved_mask1: u8, saved_mask2: u8) -> (writes: Vec<PortWrite>)
        ensures
            writes@ == initialize_writes(self@.0, self@.1, saved_mask1, saved_mask2),
    {
        let wait = PortWrite { port: WAIT_PORT, value: 0 };
        let mut writes: Vec<PortWrite> = Vec::new();
        writes.push(PortWrite { port: PIC_1_COMMAND, value: CMD_INIT });
        writes.push(wait);
        writes.push(PortWrite { port: PIC_2_COMMAND, value: CMD_INIT });
        writes.push(wait);
        writes.push(PortWrite { port: PIC_1_DATA, value: self.offset1 });
        writes.push(wait);
        writes.push(PortWrite { port: PIC_2_DATA, value: self.offset2 });
        writes.push(wait);
        writes.push(PortWrite { port: PIC_1_DATA, value: 4 });
        writes.push(wait);
        writes.push(PortWrite { port: PIC_2_DATA, value: 2 });
        writes.push(wait);
        writes.push(PortWrite { port: PIC_1_DATA, value: MODE_8086 });
        writes.push(wait);
        writes.push(PortWrite { port: PIC_2_DATA, value: MODE_8086 });
        writes.push(wait);
        writes.push(PortWrite { port: PIC_1_DATA, value: saved_mask1 });
        writes.push(PortWrite { port: PIC_2_DATA, value: saved_mask2 });
        assert(writes@ =~= initialize_writes(self@.0, self@.1, saved_mask1, saved_mask2));
        writes
    }

    /// The bytes to send in order to acknowledge the interrupt
    /// `interrupt_id`, so that the controllers deliver the next one.
    pub fn notify_end_of_interrupt(&self, interrupt_id: u8) -> (writes: Vec<PortWrite>)
        ensures
            writes@ == end_of_interrupt_writes(self@.0, self@.1, interrupt_id),
    {
        let mut writes: Vec<PortWrite> = Vec::new();
        if self.handles_interrupt(interrupt_id) {
            if Self::pic_handles(self.offset2, interrupt_id) {
                writes.push(PortWrite { port: PIC_2_COMMAND, value: CMD_END_OF_INTERRUPT });
            }
            writes.push(PortWrite { port: PIC_1_COMMAND, value: CMD_END_OF_INTERRUPT });
        }
        assert(writes@ =~= end_of_interrupt_writes(self@.0, self@.1, interrupt_id));
        writes
    }
}

} // verus!
