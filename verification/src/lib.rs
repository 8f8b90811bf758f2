//! The memory-management and exception-handling core of a small kernel:
//! physical frame allocation, the four-level page table, the kernel heap's
//! mapping, and the routing of exceptions and hardware interrupts.
//!
//! The library decides and computes; it touches no hardware. Whoever runs it
//! reads control registers, memory and I/O ports, and carries out what the
//! library's results ask for.

use vstd::prelude::*;

pub mod addr;
pub mod allocator;
pub mod gdt;
pub mod interrupts;
pub mod keyboard;
pub mod mapper;
pub mod memory;
pub mod memory_map;
pub mod paging;
pub mod pic;
pub mod table_store;
pub mod vga_buffer;

verus! {

/// The I/O port of the emulator's exit device.
pub const QEMU_EXIT_PORT: u16 = 0xf4;

/// The status with which the emulator is left.
#[derive(Debug, Clone, Copy, PartialEq, Eq, Structural)]
pub enum QemuExitCode {
    Success,
    Failed,
}

impl QemuExitCode {
    /// The number that stands for the status.
    pub open spec fn code(self) -> u32 {
        match self {
            QemuExitCode::Success => 0x10,
            QemuExitCode::Failed => 0x11,
        }
    }

    pub fn as_u32(self) -> (c: u32)
        ensures
            c == self.code(),
    {
        match self {
            QemuExitCode::Success => 0x10,
            QemuExitCode::Failed => 0x11,
        }
    }
}

/// The port to write to, and the value to write there as 32 bits, in order
/// to leave the emulator with `exit_code`.
pub fn exit_qemu(exit_code: QemuExitCode) -> (write: (u16, u32))
    ensures
        write == (QEMU_EXIT_PORT, exit_code.code()),
{
    (QEMU_EXIT_PORT, exit_code.as_u32())
}

/// One step of bringing the machine up.
#[derive(Debug, Clone, Copy, PartialEq, Eq, Structural)]
pub enum InitStep {
    /// Load the segment table with the double fault stack.
    LoadGdt,
    /// Load the table of exception and interrupt handlers.
    LoadIdt,
    /// Initialise the interrupt controllers.
    InitializePics,
    /// Let the processor take hardware interrupts.
    EnableInterrupts,
}

/// The steps that bring the machine up, in their order: interrupts are
/// enabled last, after the handlers are in place and the controllers are
/// initialised.
pub fn init() -> (steps: Vec<InitStep>)
    ensures
        steps@ == seq![
            InitStep::LoadGdt,
            InitStep::LoadIdt,
            InitStep::InitializePics,
            InitStep::EnableInterrupts,
        ],
{
    let mut steps: Vec<InitStep> = Vec::new();
    steps.push(InitStep::LoadGdt);
    steps.push(InitStep::LoadIdt);
    steps.push(InitStep::InitializePics);
    steps.push(InitStep::EnableInterrupts);
    assert(steps@ =~= seq![
        InitStep::LoadGdt,
        InitStep::LoadIdt,
        InitStep::InitializePics,
        InitStep::EnableInterrupts,
    ]);
    steps
}

/// Something that can be run as a test.
pub trait Testable {
    /// Whether the test can be run. Unless an implementation says otherwise,
    /// it always can.
    open spec fn ready(&self) -> bool {
        true
    }

    /// Whether the test passes. Unless an implementation says what that
    /// means, nothing more is known of it than what `run` tells.
    open spec fn passes(&self) -> bool {
        true
    }

    /// Runs the test. A test that fails does not come back from here.
    fn run(&self)
        requires
            self.ready(),
        ensures
            self.passes(),
    ;
}

/// Every function without arguments is a test: it can be run when it can be
/// called, and it passes when it comes back with what it promises.
impl<T: Fn()> Testable for T {
    open spec fn ready(&self) -> bool {
        self.requires(())
    }

    open spec fn passes(&self) -> bool {
        self.ensures((), ())
    }

    fn run(&self) {
        self()
    }
}

/// Runs every test, in order, and gives the status to leave the emulator
/// with. Every test must be ready to run. A test that fails does not return,
/// so the runner comes to its end only when all tests have passed, and the
/// status is success.
pub fn test_runner(tests: &[&dyn Testable]) -> (code: QemuExitCode)
    requires
        forall|i: int| 0 <= i < tests@.len() ==> (#[trigger] tests@[i]).ready(),
    ensures
        code == QemuExitCode::Success,
        forall|i: int| 0 <= i < tests@.len() ==> (#[trigger] tests@[i]).passes(),
{
    let mut i: usize = 0;
    while i < tests.len()
        invariant
            i <= tests.len(),
            forall|k: int| 0 <= k < tests@.len() ==> (#[trigger] tests@[k]).ready(),
            forall|k: int| 0 <= k < i ==> (#[trigger] tests@[k]).passes(),
        decreases tests.len() - i,
    {
        tests[i].run();
        i += 1;
    }
    QemuExitCode::Success
}

} // verus!
