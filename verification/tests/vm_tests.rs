use bfvm::peripheral_tape::{BFPeripheral, PeripheralTape};
use bfvm::virtual_machine::{is_bf_char, BFVM};
use bfvm::virtual_machine_errors::VMErrKind;

/// A test peripheral: records every value written to it and hands out a
/// scripted queue of values on reads, failing once the queue is empty.
struct TestDevice {
    written: Vec<u16>,
    to_read: Vec<u16>,
}

impl TestDevice {
    fn recorder() -> TestDevice {
        TestDevice { written: Vec::new(), to_read: Vec::new() }
    }

    fn reader(values: Vec<u16>) -> TestDevice {
        TestDevice { written: Vec::new(), to_read: values }
    }
}

impl BFPeripheral for TestDevice {
    fn write(&mut self, value: u16) -> Result<(), VMErrKind> {
        self.written.push(value);
        Ok(())
    }

    fn read(&mut self) -> Result<u16, VMErrKind> {
        if self.to_read.is_empty() {
            Err(VMErrKind::PeripheralIOErr(0, 0))
        } else {
            Ok(self.to_read.remove(0))
        }
    }
}

/// A peripheral that refuses everything, reporting the value and a fixed
/// address, to make dispatch observable.
struct FailDevice {
    address: u16,
}

impl BFPeripheral for FailDevice {
    fn write(&mut self, value: u16) -> Result<(), VMErrKind> {
        Err(VMErrKind::PeripheralIOErr(value, self.address))
    }

    fn read(&mut self) -> Result<u16, VMErrKind> {
        Err(VMErrKind::PeripheralIOErr(0, self.address))
    }
}

/// A hook that always reads 42 and refuses writes, reporting what it was
/// handed.
struct EchoHook;

impl BFPeripheral for EchoHook {
    fn write(&mut self, value: u16) -> Result<(), VMErrKind> {
        Err(VMErrKind::PeripheralIOErr(value, 9))
    }

    fn read(&mut self) -> Result<u16, VMErrKind> {
        Ok(42)
    }
}

fn one_recorder_bus() -> PeripheralTape<TestDevice> {
    PeripheralTape::new(vec![TestDevice::recorder()], Vec::new(), Vec::new()).unwrap()
}

fn run_to_halt(vm: &mut BFVM<TestDevice>) -> Result<u32, VMErrKind> {
    let mut steps: u32 = 0;
    loop {
        match vm.next() {
            Ok(true) => steps += 1,
            Ok(false) => return Ok(steps),
            Err(e) => return Err(e),
        }
    }
}

fn written(vm: &BFVM<TestDevice>) -> &[u16] {
    &vm.peripherals().device(0).unwrap().written
}

#[test]
fn alphabet_membership() {
    for c in ['>', '<', '+', '-', '[', ']', '.', ',', '@', '^', '*', '~', '&', '#', '}', '{'] {
        assert!(is_bf_char(&c));
    }
    for c in ['a', ' ', '0', '!', '(', ')'] {
        assert!(!is_bf_char(&c));
    }
}

#[test]
fn rotate_moves_low_bit_to_top() {
    // cell = 3, rotated once: bit 0 wraps to bit 15
    let mut vm = BFVM::new("+++~.", one_recorder_bus(), 1, true).unwrap();
    run_to_halt(&mut vm).unwrap();
    assert_eq!(written(&vm), &[0x8001]);
}

#[test]
fn rotate_sixteen_times_round_trips() {
    let mut vm = BFVM::new("+++~~~~~~~~~~~~~~~~.", one_recorder_bus(), 1, true).unwrap();
    run_to_halt(&mut vm).unwrap();
    assert_eq!(written(&vm), &[3]);
}

#[test]
fn increment_then_decrement_round_trips() {
    let mut vm = BFVM::new("+-.", one_recorder_bus(), 1, true).unwrap();
    run_to_halt(&mut vm).unwrap();
    assert_eq!(written(&vm), &[0]);
}

#[test]
fn decrement_wraps_to_all_ones_and_back() {
    let mut vm = BFVM::new("-.+.", one_recorder_bus(), 1, true).unwrap();
    run_to_halt(&mut vm).unwrap();
    assert_eq!(written(&vm), &[0xFFFF, 0]);
}

#[test]
fn pointer_wraps_around() {
    // step back from 0 to 0xFFFF, mark the cell, step forward, read cell 0
    let mut vm = BFVM::new("<+>.<.", one_recorder_bus(), 1, true).unwrap();
    run_to_halt(&mut vm).unwrap();
    assert_eq!(written(&vm), &[0, 1]);
}

#[test]
fn unwritten_cell_reads_zero() {
    let mut vm = BFVM::new(".", one_recorder_bus(), 1, true).unwrap();
    run_to_halt(&mut vm).unwrap();
    assert_eq!(written(&vm), &[0]);
}

#[test]
fn unwritten_fresh_page_reads_zero() {
    // write 1 on page 0, jump to page 1 (cell value 1), read a fresh cell
    let mut vm = BFVM::new("+#.", one_recorder_bus(), 2, true).unwrap();
    run_to_halt(&mut vm).unwrap();
    assert_eq!(written(&vm), &[0]);
}

#[test]
fn read_after_write_returns_last_value() {
    let mut vm = BFVM::new("+++.", one_recorder_bus(), 1, true).unwrap();
    run_to_halt(&mut vm).unwrap();
    assert_eq!(written(&vm), &[3]);
}

#[test]
fn pointer_moves_keep_cells_apart() {
    let mut vm = BFVM::new(">+.<.", one_recorder_bus(), 1, true).unwrap();
    run_to_halt(&mut vm).unwrap();
    assert_eq!(written(&vm), &[1, 0]);
}

#[test]
fn pointer_jump_follows_cell_value() {
    // cell 0 = 2, jump the pointer there, increment cell 2, output it
    let mut vm = BFVM::new("++@+.", one_recorder_bus(), 1, true).unwrap();
    run_to_halt(&mut vm).unwrap();
    assert_eq!(written(&vm), &[1]);
}

#[test]
fn buffer_copies_in_and_out() {
    // buffer = 5, move right, restore from buffer; re-zero the buffer from
    // a fresh cell so the output addresses device 0
    let mut vm = BFVM::new("+++++^>*>^<.", one_recorder_bus(), 1, true).unwrap();
    run_to_halt(&mut vm).unwrap();
    assert_eq!(written(&vm), &[5]);
}

#[test]
fn nand_combines_cell_and_buffer() {
    // cell = 3, buffer = 3: NOT(3 AND 3) = 0xFFFC; re-zero the buffer from
    // a fresh cell so the output addresses device 0
    let mut vm = BFVM::new("+++^&>^<.", one_recorder_bus(), 1, true).unwrap();
    run_to_halt(&mut vm).unwrap();
    assert_eq!(written(&vm), &[0xFFFC]);
}

#[test]
fn unmatched_open_bracket_reports_its_position() {
    match BFVM::new("[", one_recorder_bus(), 1, true) {
        Err(e) => assert_eq!(e, VMErrKind::UnmatchedLoopParentheses(0)),
        Ok(_) => panic!("construction must fail"),
    }
}

#[test]
fn unmatched_close_bracket_reports_its_position() {
    match BFVM::new("]", one_recorder_bus(), 1, true) {
        Err(e) => assert_eq!(e, VMErrKind::UnmatchedLoopParentheses(0)),
        Ok(_) => panic!("construction must fail"),
    }
}

#[test]
fn last_unmatched_open_bracket_wins() {
    match BFVM::new("[[", one_recorder_bus(), 1, true) {
        Err(e) => assert_eq!(e, VMErrKind::UnmatchedLoopParentheses(1)),
        Ok(_) => panic!("construction must fail"),
    }
}

#[test]
fn balanced_brackets_construct() {
    assert!(BFVM::new("[]", one_recorder_bus(), 1, true).is_ok());
}

#[test]
fn countdown_loop_halts_after_ten_steps() {
    // three increments, one loop entry check, then three decrements each
    // followed by a loop-condition re-check (the last check exits)
    let mut vm = BFVM::new("+++[-]", one_recorder_bus(), 1, true).unwrap();
    let steps = run_to_halt(&mut vm).unwrap();
    assert_eq!(steps, 10);
}

#[test]
fn countdown_loop_zeroes_the_cell() {
    let mut vm = BFVM::new("+++[-].", one_recorder_bus(), 1, true).unwrap();
    run_to_halt(&mut vm).unwrap();
    assert_eq!(written(&vm), &[0]);
}

#[test]
fn loop_skipped_when_cell_is_zero() {
    // the body would emit; it must not run
    let mut vm = BFVM::new("[.].", one_recorder_bus(), 1, true).unwrap();
    run_to_halt(&mut vm).unwrap();
    assert_eq!(written(&vm), &[0]);
}

#[test]
fn overlapping_peripheral_addresses_refused() {
    let devices = vec![TestDevice::recorder(), TestDevice::recorder(), TestDevice::recorder()];
    let hooks = vec![(2u16, TestDevice::recorder())];
    match PeripheralTape::new(devices, hooks, Vec::new()) {
        Err(e) => assert_eq!(e, VMErrKind::OverlappingPeripheralAddresses(3, 2)),
        Ok(_) => panic!("construction must fail"),
    }
}

#[test]
fn device_count_may_reach_smallest_hook_address() {
    let devices = vec![TestDevice::recorder(), TestDevice::recorder()];
    let hooks = vec![(2u16, TestDevice::recorder())];
    assert!(PeripheralTape::new(devices, hooks, Vec::new()).is_ok());
}

#[test]
fn raw_filler_run_is_skipped_in_one_step() {
    // five unrecognized characters compress to one skip jump
    let mut vm = BFVM::new("?????+", one_recorder_bus(), 1, false).unwrap();
    let steps = run_to_halt(&mut vm).unwrap();
    assert_eq!(steps, 2);
}

#[test]
fn raw_filler_run_in_the_middle() {
    let mut vm = BFVM::new("+??+.", one_recorder_bus(), 1, false).unwrap();
    let steps = run_to_halt(&mut vm).unwrap();
    assert_eq!(steps, 4);
    assert_eq!(written(&vm), &[2]);
}

#[test]
fn raw_filler_run_to_the_end_halts_cleanly() {
    let mut vm = BFVM::new("+???", one_recorder_bus(), 1, false).unwrap();
    let steps = run_to_halt(&mut vm).unwrap();
    assert_eq!(steps, 2);
}

#[test]
fn sanitized_mode_drops_fillers() {
    let mut vm = BFVM::new("a+b+c.", one_recorder_bus(), 1, true).unwrap();
    let steps = run_to_halt(&mut vm).unwrap();
    assert_eq!(steps, 3);
    assert_eq!(written(&vm), &[2]);
}

#[test]
fn invalid_page_aborts_the_step() {
    let mut vm = BFVM::new("+", one_recorder_bus(), 0, true).unwrap();
    assert_eq!(vm.next(), Err(VMErrKind::InvalidPage(0, 0)));
}

#[test]
fn workspace_access_bypasses_the_page_limit() {
    // a deliberate behavioral choice: with a workspace selected, the page
    // limit (here zero pages) is never consulted
    let bus = one_recorder_bus();
    let mut vm = BFVM::new_with_workspaces("}+.", bus, 0, true, 1).unwrap();
    assert_eq!(run_to_halt(&mut vm), Ok(3));
    assert_eq!(written(&vm), &[1]);
}

#[test]
fn workspaces_are_separate_from_pages() {
    let bus = one_recorder_bus();
    let mut vm = BFVM::new_with_workspaces("+++}+.{.", bus, 1, true, 1).unwrap();
    run_to_halt(&mut vm).unwrap();
    assert_eq!(written(&vm), &[1, 3]);
}

#[test]
fn workspace_ring_threads_into_pages() {
    // with two workspaces, three advances land on the next ordinary page,
    // and three retreats come back to the marked cell
    let bus = one_recorder_bus();
    let mut vm = BFVM::new_with_workspaces("+++++}}}.{{{.", bus, 2, true, 2).unwrap();
    run_to_halt(&mut vm).unwrap();
    assert_eq!(written(&vm), &[0, 5]);
}

#[test]
fn unowned_peripheral_address_is_refused() {
    let bus = PeripheralTape::new(Vec::new(), Vec::new(), Vec::new()).unwrap();
    let mut vm: BFVM<TestDevice> = BFVM::new(".", bus, 1, true).unwrap();
    assert_eq!(vm.next(), Err(VMErrKind::InvalidPeripheralTapeAccess(0)));
}

#[test]
fn device_read_feeds_the_cell() {
    let bus = PeripheralTape::new(vec![TestDevice::reader(vec![7, 9])], Vec::new(), Vec::new())
        .unwrap();
    let mut vm = BFVM::new(",.", bus, 1, true).unwrap();
    run_to_halt(&mut vm).unwrap();
    assert_eq!(written(&vm), &[7]);
}

#[test]
fn device_errors_propagate_verbatim() {
    let bus = PeripheralTape::new(vec![TestDevice::reader(Vec::new())], Vec::new(), Vec::new())
        .unwrap();
    let mut vm = BFVM::new(",", bus, 1, true).unwrap();
    assert_eq!(vm.next(), Err(VMErrKind::PeripheralIOErr(0, 0)));
}

#[test]
fn native_write_hook_takes_the_addressed_value() {
    // buffer = 5 addresses the hook; its failure carries the cell value,
    // proving the hook (not a device) serviced the write
    let bus = PeripheralTape::new(
        Vec::new(),
        vec![(5u16, FailDevice { address: 77 })],
        Vec::new(),
    )
    .unwrap();
    let mut vm = BFVM::new("+++++^.", bus, 1, true).unwrap();
    let mut last = Ok(true);
    while last == Ok(true) {
        last = vm.next();
    }
    assert_eq!(last, Err(VMErrKind::PeripheralIOErr(5, 77)));
}

#[test]
fn native_read_hook_feeds_the_cell() {
    // a read hook at address 0 supplies 42; the failing write hook then
    // reports the cell value it was handed
    let bus = PeripheralTape::new(
        Vec::new(),
        vec![(0u16, EchoHook)],
        vec![(0u16, EchoHook)],
    )
    .unwrap();
    let mut vm: BFVM<EchoHook> = BFVM::new(",.", bus, 1, true).unwrap();
    assert_eq!(vm.next(), Ok(true));
    assert_eq!(vm.next(), Err(VMErrKind::PeripheralIOErr(42, 9)));
}

#[test]
fn run_for_executes_exactly_the_given_cycles() {
    let mut vm = BFVM::new("+++.", one_recorder_bus(), 1, true).unwrap();
    vm.run_for(2).unwrap();
    // two increments done, the output not yet reached
    assert_eq!(written(&vm), &[] as &[u16]);
    vm.run_for(100).unwrap();
    assert_eq!(written(&vm), &[3]);
}

#[test]
fn run_for_stops_cleanly_at_the_end() {
    let mut vm = BFVM::new("+", one_recorder_bus(), 1, true).unwrap();
    assert_eq!(vm.run_for(50), Ok(()));
    assert_eq!(vm.next(), Ok(false));
}

#[test]
fn run_for_propagates_errors() {
    let mut vm = BFVM::new("++", one_recorder_bus(), 0, true).unwrap();
    assert_eq!(vm.run_for(5), Err(VMErrKind::InvalidPage(0, 0)));
}

#[test]
fn halted_machine_keeps_reporting_halt() {
    let mut vm = BFVM::new("", one_recorder_bus(), 1, true).unwrap();
    assert_eq!(vm.next(), Ok(false));
    assert_eq!(vm.next(), Ok(false));
}
