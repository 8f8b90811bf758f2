//! The routing of exceptions and hardware interrupts, and what their
//! handlers decide.

use crate::gdt::DOUBLE_FAULT_IST_INDEX;
use crate::keyboard::{decoded, decoded_state, DecodedKey, ScancodeDecoder};
use crate::pic::{end_of_interrupt_writes, ChainedPics, PortWrite, CMD_END_OF_INTERRUPT, PIC_1_COMMAND};
use vstd::prelude::*;

verus! {

/// First vector of the primary interrupt controller: above the 32 vectors
/// that the processor reserves for exceptions.
pub const PIC_1_OFFSET: u8 = 32;

/// First vector of the secondary interrupt controller.
pub const PIC_2_OFFSET: u8 = PIC_1_OFFSET + 8;

/// Vector of the breakpoint exception.
pub const BREAKPOINT_VECTOR: u8 = 3;

/// Vector of the double fault exception.
pub const DOUBLE_FAULT_VECTOR: u8 = 8;

/// The I/O port from which the keyboard's scancodes are read.
pub const KEYBOARD_DATA_PORT: u16 = 0x60;

/// The hardware interrupts that are handled.
#[derive(Debug, Clone, Copy, PartialEq, Eq, Structural)]
pub enum InterruptIndex {
    Timer,
    Keyboard,
}

impl InterruptIndex {
    /// The vector on which the interrupt arrives.
    pub open spec fn vector(self) -> u8 {
        match self {
            InterruptIndex::Timer => 32,
            InterruptIndex::Keyboard => 33,
        }
    }

    pub fn as_u8(self) -> (v: u8)
        ensures
            v == self.vector(),
            v >= PIC_1_OFFSET,
    {
        match self {
            InterruptIndex::Timer => PIC_1_OFFSET,
            InterruptIndex::Keyboard => PIC_1_OFFSET + 1,
        }
    }

    pub fn as_usize(self) -> (v: usize)
        ensures
            v == self.vector(),
    {
        self.as_u8() as usize
    }
}

/// The routines that handle exceptions and interrupts.
#[derive(Debug, Clone, Copy, PartialEq, Eq, Structural)]
pub enum Handler {
    Breakpoint,
    DoubleFault,
    Timer,
    Keyboard,
}

impl Handler {
    /// Whether the routine returns to the interrupted code. The double fault
    /// handler never does.
    pub open spec fn resumes(self) -> bool {
        self != Handler::DoubleFault
    }

    /// The controller vector that the routine acknowledges, if it handles a
    /// hardware interrupt.
    pub open spec fn acknowledges(self) -> Option<u8> {
        match self {
            Handler::Timer => Some(32u8),
            Handler::Keyboard => Some(33u8),
            _ => None,
        }
    }
}

/// One slot of the table: the routine to run, and the stack to switch to
/// before it runs, if a dedicated one is wanted.
#[derive(Debug, Clone, Copy, PartialEq, Eq, Structural)]
pub struct IdtEntry {
    pub handler: Handler,
    pub stack_index: Option<u16>,
}

/// The slots that `init_idt` fills: breakpoint, double fault on its own
/// stack, timer and keyboard.
pub open spec fn routing() -> Seq<Option<IdtEntry>> {
    Seq::new(
        256,
        |v: int|
            if v == 3 {
                Some(IdtEntry { handler: Handler::Breakpoint, stack_index: None })
            } else if v == 8 {
                Some(
                    IdtEntry {
                        handler: Handler::DoubleFault,
                        stack_index: Some(DOUBLE_FAULT_IST_INDEX),
                    },
                )
            } else if v == 32 {
                Some(IdtEntry { handler: Handler::Timer, stack_index: None })
            } else if v == 33 {
                Some(IdtEntry { handler: Handler::Keyboard, stack_index: None })
            } else {
                None
            },
    )
}

/// What an interrupt descriptor table holds: the slots by vector, and
/// whether the table was handed to the processor.
pub struct IdtState {
    pub entries: Seq<Option<IdtEntry>>,
    pub loaded: bool,
}

/// The table that routes each of the 256 vectors to its handler. It is
/// filled while unloaded; once loaded it does not change any more.
#[derive(Debug)]
pub struct InterruptDescriptorTable {
    entries: Vec<Option<IdtEntry>>,
    loaded: bool,
}

impl InterruptDescriptorTable {
    pub closed spec fn view(&self) -> IdtState {
        IdtState { entries: self.entries@, loaded: self.loaded }
    }

    pub open spec fn wf(&self) -> bool {
        self@.entries.len() == 256
    }

    /// A table without handlers, not loaded.
    pub fn new() -> (idt: InterruptDescriptorTable)
        ensures
            idt.wf(),
            idt@ == (IdtState { entries: Seq::new(256, |v: int| None::<IdtEntry>), loaded: false }),
    {
        let mut entries: Vec<Option<IdtEntry>> = Vec::new();
        let mut v: usize = 0;
        while v < 256
            invariant
                v <= 256,
                entries@.len() == v,
                forall|i: int| 0 <= i < v ==> entries@[i] == None::<IdtEntry>,
            decreases 256 - v,
        {
            entries.push(None);
            v += 1;
        }
        assert(entries@ =~= Seq::new(256, |v: int| None::<IdtEntry>));
        InterruptDescriptorTable { entries, loaded: false }
    }

    /// Routes `vector` to `handler`, on the current stack.
    pub fn set_handler(&mut self, vector: u8, handler: Handler)
        requires
            old(self).wf(),
            !old(self)@.loaded,
        ensures
            final(self).wf(),
            final(self)@ == (IdtState {
                entries: old(self)@.entries.update(
                    vector as int,
                    Some(IdtEntry { handler, stack_index: None }),
                ),
                loaded: false,
            }),
    {
        self.entries.set(vector as usize, Some(IdtEntry { handler, stack_index: None }));
    }

    /// Lets the handler of `vector` run on the stack with the given index in
    /// the interrupt stack table.
    pub fn set_stack_index(&mut self, vector: u8, index: u16)
        requires
            old(self).wf(),
            !old(self)@.loaded,
            old(self)@.entries[vector as int] is Some,
        ensures
            final(self).wf(),
            final(self)@ == (IdtState {
                entries: old(self)@.entries.update(
                    vector as int,
                    Some(
                        IdtEntry {
                            handler: old(self)@.entries[vector as int].unwrap().handler,
                            stack_index: Some(index),
                        },
                    ),
                ),
                loaded: false,
            }),
    {
        let handler = match self.entries[vector as usize] {
            Some(entry) => entry.handler,
            None => Handler::Breakpoint,
        };
        self.entries.set(vector as usize, Some(IdtEntry { handler, stack_index: Some(index) }));
    }

    /// Marks the table as handed to the processor.
    pub fn load(&mut self)
        requires
            old(self).wf(),
        ensures
            final(self).wf(),
            final(self)@ == (IdtState { entries: old(self)@.entries, loaded: true }),
    {
        self.loaded = true;
    }

    pub fn is_loaded(&self) -> (b: bool)
        ensures
            b == self@.loaded,
    {
        self.loaded
    }

    /// The slot of `vector`.
    pub fn entry(&self, vector: u8) -> (e: Option<IdtEntry>)
        requires
            self.wf(),
        ensures
            e == self@.entries[vector as int],
    {
        self.entries[vector as usize]
    }
}

/// Builds the table with its four handlers and marks it loaded.
pub fn init_idt() -> (idt: InterruptDescriptorTable)
    ensures
        idt.wf(),
        idt@ == (IdtState { entries: routing(), loaded: true }),
{
    let mut idt = InterruptDescriptorTable::new();
    idt.set_handler(BREAKPOINT_VECTOR, Handler::Breakpoint);
    idt.set_handler(DOUBLE_FAULT_VECTOR, Handler::DoubleFault);
    idt.set_stack_index(DOUBLE_FAULT_VECTOR, DOUBLE_FAULT_IST_INDEX);
    idt.set_handler(InterruptIndex::Timer.as_u8(), Handler::Timer);
    idt.set_handler(InterruptIndex::Keyboard.as_u8(), Handler::Keyboard);
    idt.load();
    assert(idt@.entries =~= routing());
    idt
}

/// The state that the processor saves when it delivers an exception or an
/// interrupt.
#[derive(Debug, Clone, Copy, PartialEq, Eq, Structural)]
pub struct InterruptStackFrame {
    pub instruction_pointer: u64,
    pub code_segment: u64,
    pub cpu_flags: u64,
    pub stack_pointer: u64,
    pub stack_segment: u64,
}

/// What a handler has to say.
#[derive(Debug, PartialEq, Eq)]
pub enum Report {
    /// Nothing.
    Nothing,
    /// A sign of life from the timer, shown as a dot.
    Tick,
    /// A key that was pressed.
    Key(DecodedKey),
    /// A breakpoint was hit in the code that the frame describes.
    Breakpoint(InterruptStackFrame),
    /// A double fault arose in the code that the frame describes.
    DoubleFault(InterruptStackFrame),
}

/// What a handler decided: what to report, which vector to acknowledge to
/// the interrupt controller once the report is out, and whether to go on
/// with the interrupted code or to halt for good.
#[derive(Debug, PartialEq, Eq)]
pub struct Outcome {
    pub report: Report,
    pub end_of_interrupt: Option<u8>,
    pub resume: bool,
}

/// The breakpoint exception: reports where it was hit, and goes on.
pub fn breakpoint_handler(stack_frame: InterruptStackFrame) -> (o: Outcome)
    ensures
        o == (Outcome {
            report: Report::Breakpoint(stack_frame),
            end_of_interrupt: None,
            resume: true,
        }),
{
    Outcome { report: Report::Breakpoint(stack_frame), end_of_interrupt: None, resume: true }
}

/// The double fault exception: reports where it arose, and halts.
pub fn double_fault_handler(stack_frame: InterruptStackFrame, _error_code: u64) -> (o: Outcome)
    ensures
        o == (Outcome {
            report: Report::DoubleFault(stack_frame),
            end_of_interrupt: None,
            resume: false,
        }),
{
    Outcome { report: Report::DoubleFault(stack_frame), end_of_interrupt: None, resume: false }
}

/// The timer interrupt: shows a sign of life and acknowledges the interrupt.
pub fn timer_interrupt_handler() -> (o: Outcome)
    ensures
        o == (Outcome {
            report: Report::Tick,
            end_of_interrupt: Some(InterruptIndex::Timer.vector()),
            resume: true,
        }),
{
    Outcome {
        report: Report::Tick,
        end_of_interrupt: Some(InterruptIndex::Timer.as_u8()),
        resume: true,
    }
}

/// What the keyboard handler decides once the scancode is decoded: it
/// reports the key, if there is one, and acknowledges the interrupt.
pub fn keyboard_outcome(key: Option<DecodedKey>) -> (o: Outcome)
    ensures
        o == (Outcome {
            report: match key {
                Some(k) => Report::Key(k),
                None => Report::Nothing,
            },
            end_of_interrupt: Some(InterruptIndex::Keyboard.vector()),
            resume: true,
        }),
{
    let report = match key {
        Some(k) => Report::Key(k),
        None => Report::Nothing,
    };
    Outcome { report, end_of_interrupt: Some(InterruptIndex::Keyboard.as_u8()), resume: true }
}

/// The keyboard interrupt: decodes the scancode that was read from the
/// keyboard's data port, reports the key that it completes, if any, and
/// acknowledges the interrupt.
pub fn keyboard_interrupt_handler(keyboard: &mut ScancodeDecoder, scancode: u8) -> (o: Outcome)
    ensures
        o == (Outcome {
            report: match decoded(*old(keyboard), scancode) {
                Some(k) => Report::Key(k),
                None => Report::Nothing,
            },
            end_of_interrupt: Some(InterruptIndex::Keyboard.vector()),
            resume: true,
        }),
        *final(keyboard) == decoded_state(*old(keyboard), scancode),
{
    let key = keyboard.decode(scancode);
    keyboard_outcome(key)
}

/// What the outcome of a handler asks of the interrupt controllers: the
/// bytes that acknowledge its interrupt, if it has one to acknowledge.
pub fn acknowledgment(pics: &ChainedPics, outcome: &Outcome) -> (writes: Vec<PortWrite>)
    ensures
        writes@ == match outcome.end_of_interrupt {
            Some(vector) => end_of_interrupt_writes(pics@.0, pics@.1, vector),
            None => Seq::<PortWrite>::empty(),
        },
{
    match outcome.end_of_interrupt {
        Some(vector) => pics.notify_end_of_interrupt(vector),
        None => Vec::new(),
    }
}

/// One thing to do on behalf of a handler.
#[derive(Debug, PartialEq, Eq)]
pub enum Action {
    /// Put the report out.
    Report(Report),
    /// Send the byte to its port: part of the acknowledgment.
    Acknowledge(PortWrite),
    /// Halt for good.
    Halt,
}

/// The bytes of an acknowledgment, as actions.
pub open spec fn acknowledge_actions(writes: Seq<PortWrite>) -> Seq<Action> {
    Seq::new(writes.len(), |i: int| Action::Acknowledge(writes[i]))
}

/// What is to be done for `outcome`, in order, with the controllers at the
/// given offsets: first the report, if there is anything to report; then the
/// acknowledgment of the interrupt, if there is one to acknowledge; last the
/// halt, if the handler does not go on.
pub open spec fn ordered_actions(offset1: u8, offset2: u8, outcome: Outcome) -> Seq<Action> {
    let report = if outcome.report is Nothing {
        Seq::<Action>::empty()
    } else {
        seq![Action::Report(outcome.report)]
    };
    let acknowledge = match outcome.end_of_interrupt {
        Some(vector) => acknowledge_actions(end_of_interrupt_writes(offset1, offset2, vector)),
        None => Seq::<Action>::empty(),
    };
    let halt = if outcome.resume {
        Seq::<Action>::empty()
    } else {
        seq![Action::Halt]
    };
    report + acknowledge + halt
}

/// What is to be done for `outcome`, in the order in which it is to be done.
pub fn actions(pics: &ChainedPics, outcome: Outcome) -> (list: Vec<Action>)
    ensures
        list@ == ordered_actions(pics@.0, pics@.1, outcome),
{
    let ghost wanted = ordered_actions(pics@.0, pics@.1, outcome);
    let writes = acknowledgment(pics, &outcome);
    let Outcome { report, end_of_interrupt, resume } = outcome;
    let mut list: Vec<Action> = Vec::new();
    match report {
        Report::Nothing => {},
        report => {
            list.push(Action::Report(report));
        },
    }
    let ghost reported = list@;
    let mut i: usize = 0;
    while i < writes.len()
        invariant
            i <= writes@.len(),
            list@ == reported + acknowledge_actions(writes@.take(i as int)),
        decreases writes@.len() - i,
    {
        list.push(Action::Acknowledge(writes[i]));
        proof {
            assert(acknowledge_actions(writes@.take(i + 1)) =~= acknowledge_actions(
                writes@.take(i as int),
            ).push(Action::Acknowledge(writes@[i as int])));
        }
        i += 1;
    }
    proof {
        assert(writes@.take(writes@.len() as int) =~= writes@);
        if end_of_interrupt is None {
            assert(acknowledge_actions(writes@) =~= Seq::<Action>::empty());
        }
    }
    if !resume {
        list.push(Action::Halt);
    }
    assert(list@ =~= wanted);
    list
}

/// For a timer or a keyboard interrupt the acknowledgment is the last thing
/// done, after the report is out, and it is done once: with the controllers
/// at their offsets, one byte to the primary controller.
pub proof fn acknowledgment_comes_last(outcome: Outcome, index: InterruptIndex)
    requires
        outcome.end_of_interrupt == Some(index.vector()),
        outcome.resume,
    ensures
        ordered_actions(PIC_1_OFFSET, PIC_2_OFFSET, outcome) == (if outcome.report is Nothing {
            Seq::<Action>::empty()
        } else {
            seq![Action::Report(outcome.report)]
        }).push(
            Action::Acknowledge(PortWrite { port: PIC_1_COMMAND, value: CMD_END_OF_INTERRUPT }),
        ),
        ordered_actions(PIC_1_OFFSET, PIC_2_OFFSET, outcome).last() == Action::Acknowledge(
            PortWrite { port: PIC_1_COMMAND, value: CMD_END_OF_INTERRUPT },
        ),
{
    let writes = end_of_interrupt_writes(PIC_1_OFFSET, PIC_2_OFFSET, index.vector());
    assert(writes =~= seq![PortWrite { port: PIC_1_COMMAND, value: CMD_END_OF_INTERRUPT }]);
    assert(acknowledge_actions(writes) =~= seq![
        Action::Acknowledge(PortWrite { port: PIC_1_COMMAND, value: CMD_END_OF_INTERRUPT }),
    ]);
    let report = if outcome.report is Nothing {
        Seq::<Action>::empty()
    } else {
        seq![Action::Report(outcome.report)]
    };
    assert(ordered_actions(PIC_1_OFFSET, PIC_2_OFFSET, outcome) =~= report.push(
        Action::Acknowledge(PortWrite { port: PIC_1_COMMAND, value: CMD_END_OF_INTERRUPT }),
    ));
}

/// Every handler of a hardware interrupt acknowledges exactly its own
/// vector, and with the controllers at their offsets that is one byte to the
/// primary controller; the handlers of exceptions acknowledge nothing.
pub proof fn handlers_acknowledge_their_vector(index: InterruptIndex)
    ensures
        end_of_interrupt_writes(PIC_1_OFFSET, PIC_2_OFFSET, index.vector()) == seq![
            PortWrite { port: PIC_1_COMMAND, value: CMD_END_OF_INTERRUPT },
        ],
        routing()[index.vector() as int] is Some,
        routing()[index.vector() as int].unwrap().handler.acknowledges() == Some(index.vector()),
        routing()[BREAKPOINT_VECTOR as int].unwrap().handler.acknowledges() is None,
        routing()[DOUBLE_FAULT_VECTOR as int].unwrap().handler.acknowledges() is None,
{
}

/// The breakpoint handler returns to the interrupted code; the double fault
/// handler never returns and runs on the stack reserved for it.
pub proof fn fault_routing()
    ensures
        routing()[BREAKPOINT_VECTOR as int] == Some(
            IdtEntry { handler: Handler::Breakpoint, stack_index: None },
        ),
        Handler::Breakpoint.resumes(),
        routing()[DOUBLE_FAULT_VECTOR as int] == Some(
            IdtEntry { handler: Handler::DoubleFault, stack_index: Some(DOUBLE_FAULT_IST_INDEX) },
        ),
        !Handler::DoubleFault.resumes(),
{
}

} // verus!
