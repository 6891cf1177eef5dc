use bfvm::data_tape::DataTape;
use bfvm::peripheral_tape::{BFPeripheral, PeripheralTape};
use bfvm::virtual_machine_errors::VMErrKind;

struct CountingDevice {
    written: Vec<u16>,
    next_value: u16,
}

impl BFPeripheral for CountingDevice {
    fn write(&mut self, value: u16) -> Result<(), VMErrKind> {
        self.written.push(value);
        Ok(())
    }

    fn read(&mut self) -> Result<u16, VMErrKind> {
        self.next_value += 1;
        Ok(self.next_value)
    }
}

fn counter() -> CountingDevice {
    CountingDevice { written: Vec::new(), next_value: 0 }
}

#[test]
fn registers_hold_what_was_set() {
    let mut tape = DataTape::new(0x10000);
    tape.set_pointer(0xBEEF);
    assert_eq!(tape.get_pointer(), 0xBEEF);
    tape.set_page(10);
    assert_eq!(tape.get_page(), 10);
    assert_eq!(tape.get_max_pages(), 0x10000);
}

#[test]
fn value_round_trips_through_a_page() {
    let mut tape = DataTape::new(0x10000);
    tape.set_pointer(0xBEEF);
    tape.set_value(0xDEAD).unwrap();
    assert_eq!(tape.get_value(), Ok(0xDEAD));
    tape.set_pointer(0xBEF0);
    assert_eq!(tape.get_value(), Ok(0));
}

#[test]
fn fresh_page_reads_zero_and_pages_stay_apart() {
    let mut tape = DataTape::new(0x10000);
    tape.set_value(0x1234).unwrap();
    tape.set_page(1);
    assert_eq!(tape.get_value(), Ok(0));
    tape.set_page(0);
    assert_eq!(tape.get_value(), Ok(0x1234));
}

#[test]
fn page_at_the_limit_is_refused() {
    let mut tape = DataTape::new(1);
    tape.set_page(1);
    assert_eq!(tape.get_value(), Err(VMErrKind::InvalidPage(1, 1)));
    assert_eq!(tape.set_value(5), Err(VMErrKind::InvalidPage(1, 1)));
}

#[test]
fn workspace_ring_advances_the_page_after_full_turn() {
    let mut tape = DataTape::new_with_workspaces(0x10000, 2);
    assert_eq!(tape.get_page(), 0);
    tape.next_workspace();
    tape.next_workspace();
    tape.next_workspace();
    assert_eq!(tape.get_page(), 1);
    tape.prev_workspace();
    tape.prev_workspace();
    tape.prev_workspace();
    assert_eq!(tape.get_page(), 0);
}

#[test]
fn workspace_cells_bypass_the_page_map() {
    let mut tape = DataTape::new_with_workspaces(1, 1);
    tape.set_value(3).unwrap();
    tape.next_workspace();
    assert_eq!(tape.get_value(), Ok(0));
    tape.set_value(9).unwrap();
    assert_eq!(tape.get_value(), Ok(9));
    tape.prev_workspace();
    assert_eq!(tape.get_value(), Ok(3));
}

#[test]
fn workspace_access_ignores_the_page_limit() {
    let mut tape = DataTape::new_with_workspaces(0, 1);
    tape.next_workspace();
    assert_eq!(tape.set_value(7), Ok(()));
    assert_eq!(tape.get_value(), Ok(7));
}

#[test]
fn bus_routes_writes_and_reads_to_devices() {
    let mut bus = PeripheralTape::new(vec![counter(), counter()], Vec::new(), Vec::new()).unwrap();
    bus.write(11, 0).unwrap();
    bus.write(22, 1).unwrap();
    assert_eq!(bus.read(1), Ok(1));
    assert_eq!(bus.device(0).unwrap().written, vec![11]);
    assert_eq!(bus.device(1).unwrap().written, vec![22]);
    assert!(bus.device(2).is_none());
}

#[test]
fn bus_refuses_unowned_addresses() {
    let mut bus = PeripheralTape::new(vec![counter()], Vec::new(), Vec::new()).unwrap();
    assert_eq!(bus.write(1, 7), Err(VMErrKind::InvalidPeripheralTapeAccess(7)));
    assert_eq!(bus.read(7), Err(VMErrKind::InvalidPeripheralTapeAccess(7)));
}

#[test]
fn bus_without_hooks_accepts_a_full_device_range() {
    let devices = vec![counter(), counter(), counter()];
    assert!(PeripheralTape::new(devices, Vec::new(), Vec::new()).is_ok());
}

#[test]
fn hook_on_one_side_still_counts_for_overlap() {
    let devices = vec![counter(), counter(), counter()];
    match PeripheralTape::new(devices, Vec::new(), vec![(1u16, counter())]) {
        Err(e) => assert_eq!(e, VMErrKind::OverlappingPeripheralAddresses(3, 1)),
        Ok(_) => panic!("construction must fail"),
    }
}
