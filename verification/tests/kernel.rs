use rust_os::{exit_qemu, init, test_runner, InitStep, QemuExitCode, Testable, QEMU_EXIT_PORT};
use std::cell::Cell;

struct Counting<'a> {
    runs: &'a Cell<u32>,
    order: &'a Cell<u32>,
    expected_order: u32,
}

impl Testable for Counting<'_> {
    fn run(&self) {
        assert_eq!(self.order.get(), self.expected_order);
        self.order.set(self.order.get() + 1);
        self.runs.set(self.runs.get() + 1);
    }
}

#[test]
fn exit_codes() {
    assert_eq!(QemuExitCode::Success.as_u32(), 0x10);
    assert_eq!(QemuExitCode::Failed.as_u32(), 0x11);
    assert_eq!(exit_qemu(QemuExitCode::Success), (0xf4, 0x10));
    assert_eq!(exit_qemu(QemuExitCode::Failed), (0xf4, 0x11));
    assert_eq!(QEMU_EXIT_PORT, 0xf4);
}

#[test]
fn interrupts_are_enabled_last() {
    assert_eq!(
        init(),
        vec![InitStep::LoadGdt, InitStep::LoadIdt, InitStep::InitializePics, InitStep::EnableInterrupts]
    );
}

#[test]
fn test_runner_runs_every_test_in_order() {
    let runs = Cell::new(0);
    let order = Cell::new(0);
    let first = Counting { runs: &runs, order: &order, expected_order: 0 };
    let second = Counting { runs: &runs, order: &order, expected_order: 1 };
    let third = Counting { runs: &runs, order: &order, expected_order: 2 };
    let tests: [&dyn Testable; 3] = [&first, &second, &third];
    assert_eq!(test_runner(&tests), QemuExitCode::Success);
    assert_eq!(runs.get(), 3);
    assert_eq!(test_runner(&[]), QemuExitCode::Success);
    assert_eq!(runs.get(), 3);
}

#[test]
fn functions_are_tests() {
    let runs = Cell::new(0);
    let first = || runs.set(runs.get() + 1);
    let second = || runs.set(runs.get() + 10);
    let tests: [&dyn Testable; 3] = [&first, &second, &first];
    assert_eq!(test_runner(&tests), QemuExitCode::Success);
    assert_eq!(runs.get(), 12);
    first.run();
    assert_eq!(runs.get(), 13);
}
