use vstd::prelude::*;

use crate::virtual_machine_errors::VMErrKind;

verus! {

/// A peripheral device (or a processor-native hook): something the machine
/// can send a 16-bit value to or request one from. Implementations are
/// supplied by the embedder; nothing is assumed of their results, and an
/// error they return is propagated to the caller verbatim.
pub trait BFPeripheral {
    /// Send a value to the peripheral.
    fn write(&mut self, value: u16) -> Result<(), VMErrKind>;

    /// Read a value from the peripheral.
    fn read(&mut self) -> Result<u16, VMErrKind>;
}

/// The mathematical model of a [`PeripheralTape`]: the ordered devices
/// (addressed by their indices) and the two address-keyed native hook tables.
#[verifier::ext_equal]
pub struct BusView<P> {
    /// The externally supplied devices, owning addresses `0..devices.len()`.
    pub devices: Seq<P>,
    /// The native write hooks, each bound to one 16-bit address.
    pub write_hooks: Seq<(u16, P)>,
    /// The native read hooks, each bound to one 16-bit address.
    pub read_hooks: Seq<(u16, P)>,
}

/// The addresses of a hook table, in table order.
pub open spec fn hook_addrs<P>(hooks: Seq<(u16, P)>) -> Seq<u16> {
    hooks.map_values(|h: (u16, P)| h.0)
}

/// Whether some hook in the table is bound to `address`.
pub open spec fn has_hook<P>(hooks: Seq<(u16, P)>, address: u16) -> bool {
    exists|i: int| 0 <= i < hooks.len() && (#[trigger] hooks[i]).0 == address
}

/// The smallest address in `addrs`, or 65536 when there is none; the device
/// index range must stay below this.
pub open spec fn min_addr(addrs: Seq<u16>) -> u32
    decreases addrs.len(),
{
    if addrs.len() == 0 {
        0x10000u32
    } else {
        let rest = min_addr(addrs.drop_last());
        if (addrs.last() as u32) < rest {
            addrs.last() as u32
        } else {
            rest
        }
    }
}

/// The smallest native-hook address on the whole bus, over both directions.
pub open spec fn least_native_addr<P>(
    write_hooks: Seq<(u16, P)>,
    read_hooks: Seq<(u16, P)>,
) -> u32 {
    min_addr(hook_addrs(write_hooks) + hook_addrs(read_hooks))
}

impl<P> BusView<P> {
    /// Whether a write to `address` is routed somewhere: to a native write
    /// hook, or else to the device with that index.
    pub open spec fn owns_write(self, address: u16) -> bool {
        has_hook(self.write_hooks, address) || (address as int) < self.devices.len()
    }

    /// Whether a read from `address` is routed somewhere: to a native read
    /// hook, or else to the device with that index.
    pub open spec fn owns_read(self, address: u16) -> bool {
        has_hook(self.read_hooks, address) || (address as int) < self.devices.len()
    }
}

/// Two bus models with the same address layout: the same device count and
/// the same hook addresses in the same order. Servicing I/O mutates device
/// state, but never the layout.
pub open spec fn same_bus_layout<P>(a: BusView<P>, b: BusView<P>) -> bool {
    &&& a.devices.len() == b.devices.len()
    &&& hook_addrs(a.write_hooks) == hook_addrs(b.write_hooks)
    &&& hook_addrs(a.read_hooks) == hook_addrs(b.read_hooks)
}

/// An address-space multiplexer over peripherals: devices are contiguously
/// indexed from 0, native machine hooks sit at their own addresses, and
/// construction refuses a layout where the two overlap. Native hooks take
/// precedence in dispatch (the ranges cannot collide, but hooks are checked
/// first for a uniform order).
pub struct PeripheralTape<P: BFPeripheral> {
    peripherals: Vec<P>,
    native_write: Vec<(u16, P)>,
    native_read: Vec<(u16, P)>,
}

impl<P: BFPeripheral> View for PeripheralTape<P> {
    type V = BusView<P>;

    closed spec fn view(&self) -> BusView<P> {
        BusView {
            devices: self.peripherals@,
            write_hooks: self.native_write@,
            read_hooks: self.native_read@,
        }
    }
}

/// The smallest address among `v` and the hook addresses of `hooks`.
fn min_hook_addr<P: BFPeripheral>(hooks: &Vec<(u16, P)>, v: u32) -> (r: u32)
    requires
        v <= 0x10000,
    ensures
        r == if min_addr(hook_addrs(hooks@)) < v {
            min_addr(hook_addrs(hooks@))
        } else {
            v
        },
{
    let mut least = v;
    let mut i: usize = 0;
    while i < hooks.len()
        invariant
            i <= hooks@.len(),
            least == if min_addr(hook_addrs(hooks@).take(i as int)) < v {
                min_addr(hook_addrs(hooks@).take(i as int))
            } else {
                v
            },
        decreases hooks@.len() - i,
    {
        let a = hooks[i].0 as u32;
        proof {
            assert(hook_addrs(hooks@).take(i + 1).drop_last() =~= hook_addrs(hooks@).take(
                i as int,
            ));
            assert(hook_addrs(hooks@).take(i + 1).last() == hooks@[i as int].0);
        }
        if a < least {
            least = a;
        }
        i += 1;
    }
    proof {
        assert(hook_addrs(hooks@).take(hooks@.len() as int) =~= hook_addrs(hooks@));
    }
    least
}

impl<P: BFPeripheral> PeripheralTape<P> {
    /// Builds the bus from the ordered devices and the two native hook
    /// tables. Fails with `OverlappingPeripheralAddresses` (carrying the
    /// device count and the smallest hook address) exactly when the device
    /// index range would reach a native-hook address.
    pub fn new(
        peripherals: Vec<P>,
        native_write: Vec<(u16, P)>,
        native_read: Vec<(u16, P)>,
    ) -> (r: Result<PeripheralTape<P>, VMErrKind>)
        ensures
            ({
                let least = least_native_addr(native_write@, native_read@);
                if peripherals@.len() > least {
                    r == Err::<PeripheralTape<P>, VMErrKind>(
                        VMErrKind::OverlappingPeripheralAddresses(peripherals@.len() as usize, least),
                    )
                } else {
                    r matches Ok(t) && t@ == (BusView {
                        devices: peripherals@,
                        write_hooks: native_write@,
                        read_hooks: native_read@,
                    })
                }
            }),
    {
        let least_r = min_hook_addr(&native_read, 0x10000u32);
        let least = min_hook_addr(&native_write, least_r);
        proof {
            lemma_min_addr_bound(hook_addrs(native_read@));
            lemma_min_addr_bound(hook_addrs(native_write@));
            lemma_min_addr_concat(hook_addrs(native_write@), hook_addrs(native_read@));
        }
        if peripherals.len() as u64 > least as u64 {
            return Err(VMErrKind::OverlappingPeripheralAddresses(peripherals.len(), least));
        }
        Ok(PeripheralTape { peripherals, native_write, native_read })
    }

    /// Routes `value` to whatever owns `address`: a native write hook first,
    /// else the device with that index, propagating its result verbatim;
    /// with no owner the write fails with `InvalidPeripheralTapeAccess`.
    /// Whatever the outcome, the bus layout is unchanged.
    #[verifier::loop_isolation(false)]
    pub fn write(&mut self, value: u16, address: u16) -> (r: Result<(), VMErrKind>)
        ensures
            same_bus_layout(old(self)@, final(self)@),
            !old(self)@.owns_write(address) ==> r == Err::<(), VMErrKind>(
                VMErrKind::InvalidPeripheralTapeAccess(address),
            ) && final(self)@ == old(self)@,
    {
        let ghost pre = self@;
        let mut i: usize = 0;
        while i < self.native_write.len()
            invariant
                i <= self.native_write@.len(),
                self@ == pre,
                forall|j: int| 0 <= j < i ==> (#[trigger] self.native_write@[j]).0 != address,
            decreases self.native_write@.len() - i,
        {
            if self.native_write[i].0 == address {
                proof {
                    assert(pre.write_hooks[i as int].0 == address);
                    assert(has_hook(pre.write_hooks, address));
                }
                let hook = &mut self.native_write[i].1;
                let res = hook.write(value);
                proof {
                    assert(self.native_write@.len() == pre.write_hooks.len());
                    assert(forall|j: int|
                        0 <= j < pre.write_hooks.len() ==> (#[trigger] self.native_write@[j]).0
                            == pre.write_hooks[j].0);
                    assert(hook_addrs(self@.write_hooks) =~= hook_addrs(pre.write_hooks));
                }
                return res;
            }
            i += 1;
        }
        if (address as usize) < self.peripherals.len() {
            let dev = &mut self.peripherals[address as usize];
            return dev.write(value);
        }
        Err(VMErrKind::InvalidPeripheralTapeAccess(address))
    }

    /// Requests a value from whatever owns `address`: a native read hook
    /// first, else the device with that index, propagating its result
    /// verbatim; with no owner the read fails with
    /// `InvalidPeripheralTapeAccess`. Whatever the outcome, the bus layout is
    /// unchanged.
    #[verifier::loop_isolation(false)]
    pub fn read(&mut self, address: u16) -> (r: Result<u16, VMErrKind>)
        ensures
            same_bus_layout(old(self)@, final(self)@),
            !old(self)@.owns_read(address) ==> r == Err::<u16, VMErrKind>(
                VMErrKind::InvalidPeripheralTapeAccess(address),
            ) && final(self)@ == old(self)@,
    {
        let ghost pre = self@;
        let mut i: usize = 0;
        while i < self.native_read.len()
            invariant
                i <= self.native_read@.len(),
                self@ == pre,
                forall|j: int| 0 <= j < i ==> (#[trigger] self.native_read@[j]).0 != address,
            decreases self.native_read@.len() - i,
        {
            if self.native_read[i].0 == address {
                proof {
                    assert(pre.read_hooks[i as int].0 == address);
                    assert(has_hook(pre.read_hooks, address));
                }
                let hook = &mut self.native_read[i].1;
                let res = hook.read();
                proof {
                    assert(self.native_read@.len() == pre.read_hooks.len());
                    assert(forall|j: int|
                        0 <= j < pre.read_hooks.len() ==> (#[trigger] self.native_read@[j]).0
                            == pre.read_hooks[j].0);
                    assert(hook_addrs(self@.read_hooks) =~= hook_addrs(pre.read_hooks));
                }
                return res;
            }
            i += 1;
        }
        if (address as usize) < self.peripherals.len() {
            let dev = &mut self.peripherals[address as usize];
            return dev.read();
        }
        Err(VMErrKind::InvalidPeripheralTapeAccess(address))
    }

    /// Borrows the device at `index`, or nothing when the index is past the
    /// device range; lets an embedder inspect a device it handed over.
    pub fn device(&self, index: usize) -> (r: Option<&P>)
        ensures
            match r {
                Some(p) => index < self@.devices.len() && *p == self@.devices[index as int],
                None => index >= self@.devices.len(),
            },
    {
        if index < self.peripherals.len() {
            Some(&self.peripherals[index])
        } else {
            None
        }
    }
}

/// A hook address fits in 16 bits, so the minimum never exceeds 65536.
proof fn lemma_min_addr_bound(a: Seq<u16>)
    ensures
        min_addr(a) <= 0x10000,
    decreases a.len(),
{
    if a.len() > 0 {
        lemma_min_addr_bound(a.drop_last());
    }
}

/// The minimum over a concatenation splits into a minimum of minima.
proof fn lemma_min_addr_concat(a: Seq<u16>, b: Seq<u16>)
    ensures
        min_addr(a + b) == if min_addr(a) < min_addr(b) {
            min_addr(a)
        } else {
            min_addr(b)
        },
    decreases b.len(),
{
    if b.len() == 0 {
        assert(a + b =~= a);
    } else {
        assert((a + b).drop_last() =~= a + b.drop_last());
        assert((a + b).last() == b.last());
        lemma_min_addr_concat(a, b.drop_last());
    }
}

} // verus!
