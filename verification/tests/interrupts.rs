use rust_os::gdt::DOUBLE_FAULT_IST_INDEX;
use rust_os::interrupts::{
    acknowledgment, actions, breakpoint_handler, double_fault_handler, init_idt, keyboard_interrupt_handler,
    keyboard_outcome, timer_interrupt_handler, Action, Handler, IdtEntry, InterruptDescriptorTable,
    InterruptIndex, InterruptStackFrame, Outcome, Report, BREAKPOINT_VECTOR, DOUBLE_FAULT_VECTOR,
    KEYBOARD_DATA_PORT, PIC_1_OFFSET, PIC_2_OFFSET,
};
use pc_keyboard::{KeyCode, KeyEvent, KeyState};
use rust_os::keyboard::{completed_event, DecodedKey, ScancodeDecoder};
use rust_os::pic::{ChainedPics, PortWrite};

fn stack_frame() -> InterruptStackFrame {
    InterruptStackFrame {
        instruction_pointer: 0x20_1000,
        code_segment: 8,
        cpu_flags: 0x202,
        stack_pointer: 0x5000_0000,
        stack_segment: 0,
    }
}

fn write(port: u16, value: u8) -> PortWrite {
    PortWrite { port, value }
}

#[test]
fn interrupt_vectors_lie_above_the_exceptions() {
    assert_eq!(PIC_1_OFFSET, 32);
    assert_eq!(PIC_2_OFFSET, 40);
    assert_eq!(InterruptIndex::Timer.as_u8(), 32);
    assert_eq!(InterruptIndex::Keyboard.as_u8(), 33);
    assert_eq!(InterruptIndex::Timer.as_usize(), 32);
    assert_eq!(InterruptIndex::Keyboard.as_usize(), 33);
    assert_eq!(KEYBOARD_DATA_PORT, 0x60);
}

#[test]
fn idt_routes_four_vectors() {
    let idt = init_idt();
    assert!(idt.is_loaded());
    for vector in 0..=255u8 {
        let expected = match vector {
            3 => Some(IdtEntry { handler: Handler::Breakpoint, stack_index: None }),
            8 => Some(IdtEntry { handler: Handler::DoubleFault, stack_index: Some(DOUBLE_FAULT_IST_INDEX) }),
            32 => Some(IdtEntry { handler: Handler::Timer, stack_index: None }),
            33 => Some(IdtEntry { handler: Handler::Keyboard, stack_index: None }),
            _ => None,
        };
        assert_eq!(idt.entry(vector), expected);
    }
    assert_eq!(BREAKPOINT_VECTOR, 3);
    assert_eq!(DOUBLE_FAULT_VECTOR, 8);
    assert_eq!(DOUBLE_FAULT_IST_INDEX, 0);
}

#[test]
fn new_idt_is_empty_and_unloaded() {
    let mut idt = InterruptDescriptorTable::new();
    assert!(!idt.is_loaded());
    assert_eq!(idt.entry(3), None);
    idt.set_handler(14, Handler::Breakpoint);
    idt.set_stack_index(14, 2);
    assert_eq!(idt.entry(14), Some(IdtEntry { handler: Handler::Breakpoint, stack_index: Some(2) }));
    idt.load();
    assert!(idt.is_loaded());
    assert_eq!(idt.entry(14), Some(IdtEntry { handler: Handler::Breakpoint, stack_index: Some(2) }));
}

#[test]
fn test_breakpoint_exception() {
    // a breakpoint is reported and execution goes on
    let outcome = breakpoint_handler(stack_frame());
    assert_eq!(outcome, Outcome { report: Report::Breakpoint(stack_frame()), end_of_interrupt: None, resume: true });
}

#[test]
fn double_fault_halts_on_its_own_stack() {
    let idt = init_idt();
    assert_eq!(idt.entry(DOUBLE_FAULT_VECTOR).unwrap().stack_index, Some(DOUBLE_FAULT_IST_INDEX));
    let outcome = double_fault_handler(stack_frame(), 0);
    assert_eq!(outcome, Outcome { report: Report::DoubleFault(stack_frame()), end_of_interrupt: None, resume: false });
}

#[test]
fn timer_ticks_and_acknowledges() {
    let outcome = timer_interrupt_handler();
    assert_eq!(outcome, Outcome { report: Report::Tick, end_of_interrupt: Some(32), resume: true });
    let pics = ChainedPics::new(PIC_1_OFFSET, PIC_2_OFFSET);
    assert_eq!(acknowledgment(&pics, &outcome), vec![write(0x20, 0x20)]);
    assert_eq!(acknowledgment(&pics, &breakpoint_handler(stack_frame())), vec![]);
}

#[test]
fn keyboard_reports_keys_and_acknowledges() {
    let mut keyboard = ScancodeDecoder::new();
    // press and release of the key A
    let outcome = keyboard_interrupt_handler(&mut keyboard, 0x1e);
    assert_eq!(
        outcome,
        Outcome { report: Report::Key(DecodedKey::Unicode('a')), end_of_interrupt: Some(33), resume: true }
    );
    let outcome = keyboard_interrupt_handler(&mut keyboard, 0x9e);
    assert_eq!(outcome, Outcome { report: Report::Nothing, end_of_interrupt: Some(33), resume: true });
    // shift held: the key A gives a capital letter
    assert_eq!(keyboard_interrupt_handler(&mut keyboard, 0x2a).report, Report::Nothing);
    assert_eq!(keyboard_interrupt_handler(&mut keyboard, 0x1e).report, Report::Key(DecodedKey::Unicode('A')));
    assert_eq!(keyboard_interrupt_handler(&mut keyboard, 0xaa).report, Report::Nothing);
    assert_eq!(keyboard_interrupt_handler(&mut keyboard, 0x1e).report, Report::Key(DecodedKey::Unicode('a')));
    // a key without a character is reported by name
    assert_eq!(
        keyboard_interrupt_handler(&mut keyboard, 0x3b).report,
        Report::Key(DecodedKey::RawKey(String::from("F1")))
    );
    // the first byte of an extended code completes no key
    let outcome = keyboard_interrupt_handler(&mut keyboard, 0xe0);
    assert_eq!(outcome, Outcome { report: Report::Nothing, end_of_interrupt: Some(33), resume: true });
    let pics = ChainedPics::new(PIC_1_OFFSET, PIC_2_OFFSET);
    assert_eq!(acknowledgment(&pics, &outcome), vec![write(0x20, 0x20)]);
}

#[test]
fn decoder_keeps_state_between_bytes() {
    let mut keyboard = ScancodeDecoder::new();
    assert_eq!(keyboard.decode(0x02), Some(DecodedKey::Unicode('1')));
    assert_eq!(keyboard.decode(0x82), None);
    assert_eq!(keyboard.decode(0x1c), Some(DecodedKey::Unicode('\n')));
}

#[test]
fn keyboard_outcome_reports_what_was_decoded() {
    assert_eq!(
        keyboard_outcome(Some(DecodedKey::Unicode('x'))),
        Outcome { report: Report::Key(DecodedKey::Unicode('x')), end_of_interrupt: Some(33), resume: true }
    );
    assert_eq!(
        keyboard_outcome(Some(DecodedKey::RawKey(String::from("Home")))),
        Outcome { report: Report::Key(DecodedKey::RawKey(String::from("Home"))), end_of_interrupt: Some(33), resume: true }
    );
    assert_eq!(keyboard_outcome(None), Outcome { report: Report::Nothing, end_of_interrupt: Some(33), resume: true });
}

#[test]
fn pics_are_initialised_with_their_offsets() {
    let pics = ChainedPics::new(32, 40);
    let writes = pics.initialize(0xb8, 0x8e);
    let expected = vec![
        write(0x20, 0x11),
        write(0x80, 0),
        write(0xa0, 0x11),
        write(0x80, 0),
        write(0x21, 32),
        write(0x80, 0),
        write(0xa1, 40),
        write(0x80, 0),
        write(0x21, 4),
        write(0x80, 0),
        write(0xa1, 2),
        write(0x80, 0),
        write(0x21, 1),
        write(0x80, 0),
        write(0xa1, 1),
        write(0x80, 0),
        write(0x21, 0xb8),
        write(0xa1, 0x8e),
    ];
    assert_eq!(writes, expected);
}

#[test]
fn end_of_interrupt_goes_to_the_controllers_in_charge() {
    let pics = ChainedPics::new(32, 40);
    assert!(!pics.handles_interrupt(31));
    assert!(pics.handles_interrupt(32));
    assert!(pics.handles_interrupt(39));
    assert!(pics.handles_interrupt(40));
    assert!(pics.handles_interrupt(47));
    assert!(!pics.handles_interrupt(48));
    assert_eq!(pics.notify_end_of_interrupt(32), vec![write(0x20, 0x20)]);
    assert_eq!(pics.notify_end_of_interrupt(33), vec![write(0x20, 0x20)]);
    assert_eq!(pics.notify_end_of_interrupt(40), vec![write(0xa0, 0x20), write(0x20, 0x20)]);
    assert_eq!(pics.notify_end_of_interrupt(47), vec![write(0xa0, 0x20), write(0x20, 0x20)]);
    assert_eq!(pics.notify_end_of_interrupt(8), vec![]);
    assert_eq!(pics.notify_end_of_interrupt(48), vec![]);
    // offsets near the top of the range do not wrap around
    let high = ChainedPics::new(240, 250);
    assert!(high.handles_interrupt(255));
    assert!(!high.handles_interrupt(0));
    assert_eq!(high.notify_end_of_interrupt(255), vec![write(0xa0, 0x20), write(0x20, 0x20)]);
}

#[test]
fn only_a_completed_event_is_processed() {
    let pressed = KeyEvent::new(KeyCode::A, KeyState::Down);
    assert_eq!(completed_event(Ok(Some(pressed.clone()))), Some(pressed));
    let released = KeyEvent::new(KeyCode::ShiftLeft, KeyState::Up);
    assert_eq!(completed_event(Ok(Some(released.clone()))), Some(released));
    assert_eq!(completed_event(Ok(None)), None);
    assert_eq!(completed_event(Err(pc_keyboard::Error::UnknownKeyCode)), None);
    assert_eq!(completed_event(Err(pc_keyboard::Error::BadStartBit)), None);
}

#[test]
fn acknowledgment_is_the_last_action() {
    let pics = ChainedPics::new(PIC_1_OFFSET, PIC_2_OFFSET);
    assert_eq!(
        actions(&pics, timer_interrupt_handler()),
        vec![Action::Report(Report::Tick), Action::Acknowledge(write(0x20, 0x20))]
    );
    let mut keyboard = ScancodeDecoder::new();
    assert_eq!(
        actions(&pics, keyboard_interrupt_handler(&mut keyboard, 0x1e)),
        vec![
            Action::Report(Report::Key(DecodedKey::Unicode('a'))),
            Action::Acknowledge(write(0x20, 0x20)),
        ]
    );
    // a release reports nothing, and is acknowledged all the same
    assert_eq!(
        actions(&pics, keyboard_interrupt_handler(&mut keyboard, 0x9e)),
        vec![Action::Acknowledge(write(0x20, 0x20))]
    );
    // an interrupt of the secondary controller is acknowledged to both
    let outcome = Outcome { report: Report::Tick, end_of_interrupt: Some(44), resume: true };
    assert_eq!(
        actions(&pics, outcome),
        vec![
            Action::Report(Report::Tick),
            Action::Acknowledge(write(0xa0, 0x20)),
            Action::Acknowledge(write(0x20, 0x20)),
        ]
    );
}

#[test]
fn exceptions_report_and_acknowledge_nothing() {
    let pics = ChainedPics::new(PIC_1_OFFSET, PIC_2_OFFSET);
    assert_eq!(
        actions(&pics, breakpoint_handler(stack_frame())),
        vec![Action::Report(Report::Breakpoint(stack_frame()))]
    );
    assert_eq!(
        actions(&pics, double_fault_handler(stack_frame(), 0)),
        vec![Action::Report(Report::DoubleFault(stack_frame())), Action::Halt]
    );
}
