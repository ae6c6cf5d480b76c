//! Memory-mapped devices: the bus that routes addresses to devices, and the
//! memory that puts the bus in front of a linear memory.
use crate::devices::Device;
use crate::memory::{Addressable, LinearMemory, MemoryModel};
use vstd::prelude::*;
use vstd::string::*;

verus! {

/// A device as the bus holds it.
struct Attached {
    device: Box<dyn Device>,
}

impl Attached {
    /// The slot of the bus that holds `device`, boxed as a device of any kind.
    fn hold<D: Device + 'static>(device: D) -> (attached: Attached)
        ensures
            attached == (Attached { device: Box::new(device) }),
    {
        Attached { device: Box::new(device) }
    }
}

/// The address ranges `[a.0, a.1)` and `[b.0, b.1)` have an address in common.
pub open spec fn regions_overlap(a: (u16, u16, usize), b: (u16, u16, usize)) -> bool {
    a.0 < a.1 && b.0 < b.1 && a.0 < b.1 && b.0 < a.1
}

/// No two regions of the table have an address in common.
pub open spec fn regions_apart(table: Seq<(u16, u16, usize)>) -> bool {
    forall|i: int, j: int| 0 <= i < j < table.len() ==> !regions_overlap(table[i], table[j])
}

/// Some region of the table has an address in common with `[start, end)`.
pub open spec fn overlaps_regions(table: Seq<(u16, u16, usize)>, start: u16, end: u16) -> bool {
    exists|i: int|
        0 <= i < table.len() && regions_overlap((start, end, 0usize), #[trigger] table[i])
}

/// In a table whose regions are apart no address lies in two regions.
pub proof fn lemma_regions_share_no_address(
    table: Seq<(u16, u16, usize)>,
    i: int,
    j: int,
    address: u16,
)
    requires
        regions_apart(table),
        0 <= i < table.len(),
        0 <= j < table.len(),
        i != j,
        table[i].0 <= address < table[i].1,
    ensures
        !(table[j].0 <= address < table[j].1),
{
    if i < j {
        assert(!regions_overlap(table[i], table[j]));
    } else {
        assert(!regions_overlap(table[j], table[i]));
    }
}

/// The device and the offset that serve `address`, going by the first
/// region from position `from` on that holds the address.
pub open spec fn route_from(table: Seq<(u16, u16, usize)>, address: u16, from: int) -> Option<
    (usize, u16),
>
    decreases table.len() - from,
{
    if from < 0 || from >= table.len() {
        None
    } else if table[from].0 <= address < table[from].1 {
        Some((table[from].2, (address - table[from].0) as u16))
    } else {
        route_from(table, address, from + 1)
    }
}

/// The text of the error for a region that ends beyond the address space.
pub open spec fn overflow_text() -> Seq<char> {
    "Memory region overflow"@
}

/// The text of the error for a region that overlaps a registered one.
pub open spec fn overlap_text() -> Seq<char> {
    "Memory region overlaps with existing device"@
}

/// The devices of a machine and the address range of each.
pub struct DeviceBus {
    mmap: Vec<(u16, u16, usize)>,
    devices: Vec<Attached>,
}

impl DeviceBus {
    /// The regions as `(start, end, device)`, in the order of registration;
    /// a region holds the addresses from `start` up to, not including, `end`.
    pub closed spec fn regions(&self) -> Seq<(u16, u16, usize)> {
        self.mmap@
    }

    /// The number of registered devices.
    pub closed spec fn device_count(&self) -> nat {
        self.devices@.len()
    }

    /// Every region belongs to the device registered with it, and no two
    /// regions have an address in common.
    pub open spec fn wf(&self) -> bool {
        &&& self.regions().len() == self.device_count()
        &&& forall|i: int| 0 <= i < self.regions().len() ==> (#[trigger] self.regions()[i]).2 == i
        &&& regions_apart(self.regions())
    }

    /// The device and the offset that serve `address`, if a region holds it.
    pub open spec fn route(&self, address: u16) -> Option<(usize, u16)> {
        route_from(self.regions(), address, 0)
    }

    /// A bus without devices.
    pub fn new() -> (bus: Self)
        ensures
            bus.wf(),
            bus.regions() == Seq::<(u16, u16, usize)>::empty(),
    {
        Self { mmap: Vec::new(), devices: Vec::new() }
    }

    /// Reserves the `size` addresses from `start_addr` on for `device`.
    /// Fails if the region would end beyond the address space, or if it has
    /// an address in common with a registered region.
    pub fn register_device<D: Device + 'static>(
        &mut self,
        device: D,
        start_addr: u16,
        size: u16,
    ) -> (r: Result<(), String>)
        requires
            old(self).wf(),
        ensures
            final(self).wf(),
            regions_apart(final(self).regions()),
            start_addr + size > u16::MAX ==> r is Err && r->Err_0@ == overflow_text(),
            start_addr + size <= u16::MAX && overlaps_regions(
                old(self).regions(),
                start_addr,
                (start_addr + size) as u16,
            ) ==> r is Err && r->Err_0@ == overlap_text(),
            start_addr + size <= u16::MAX && !overlaps_regions(
                old(self).regions(),
                start_addr,
                (start_addr + size) as u16,
            ) ==> r is Ok,
            final(self).regions() == if r is Ok {
                old(self).regions().push(
                    (start_addr, (start_addr + size) as u16, old(self).regions().len() as usize),
                )
            } else {
                old(self).regions()
            },
    {
        let end_addr = match start_addr.checked_add(size) {
            Some(end_addr) => end_addr,
            None => {
                return Err(String::from_str("Memory region overflow"));
            },
        };
        let mut i: usize = 0;
        while i < self.mmap.len()
            invariant
                i <= self.mmap@.len(),
                *self == *old(self),
                self.wf(),
                end_addr == start_addr + size,
                forall|j: int|
                    0 <= j < i ==> !regions_overlap(
                        (start_addr, end_addr, 0usize),
                        #[trigger] self.mmap@[j],
                    ),
            decreases self.mmap@.len() - i,
        {
            let (existing_start, existing_end, _) = self.mmap[i];
            if start_addr < end_addr && existing_start < existing_end && start_addr < existing_end
                && existing_start < end_addr {
                assert(regions_overlap((start_addr, end_addr, 0usize), self.mmap@[i as int]));
                return Err(String::from_str("Memory region overlaps with existing device"));
            }
            i += 1;
        }
        let dev_idx = self.devices.len();
        self.devices.push(Attached::hold(device));
        self.mmap.push((start_addr, end_addr, dev_idx));
        assert forall|i: int, j: int| 0 <= i < j < self.regions().len() implies !regions_overlap(
            self.regions()[i],
            self.regions()[j],
        ) by {
            if j < old(self).regions().len() {
                assert(!regions_overlap(old(self).regions()[i], old(self).regions()[j]));
            } else {
                assert(!regions_overlap((start_addr, end_addr, 0usize), old(self).regions()[i]));
            }
        }
        Ok(())
    }

    /// The device that serves `address` and the offset of the address in
    /// the region of that device.
    pub fn find_service(&self, address: u16) -> (found: Option<(usize, u16)>)
        ensures
            found == self.route(address),
    {
        let mut i: usize = 0;
        while i < self.mmap.len()
            invariant
                i <= self.mmap@.len(),
                self.route(address) == route_from(self.regions(), address, i as int),
            decreases self.mmap@.len() - i,
        {
            let (start, end, device) = self.mmap[i];
            if address >= start && address < end {
                return Some((device, address - start));
            }
            i += 1;
        }
        None
    }

    /// Reads the byte that the device serving `address` answers; `None` if
    /// no device serves the address.
    pub fn read(&self, address: u16) -> (got: Option<u8>)
        requires
            self.wf(),
        ensures
            got is Some <==> self.route(address) is Some,
    {
        proof {
            self.lemma_route_in_bounds(address, 0);
        }
        if let Some((device, offset)) = self.find_service(address) {
            return Some(self.devices[device].device.read(offset as usize));
        }
        None
    }

    /// Hands `value` to the device serving `address`; `false`, and nothing
    /// done, if no device serves the address.
    pub fn write(&mut self, address: u16, value: u8) -> (ok: bool)
        requires
            old(self).wf(),
        ensures
            final(self).wf(),
            ok <==> old(self).route(address) is Some,
            final(self).regions() == old(self).regions(),
            !ok ==> *final(self) == *old(self),
    {
        proof {
            self.lemma_route_in_bounds(address, 0);
        }
        if let Some((device, offset)) = self.find_service(address) {
            self.devices[device].device.write(offset as usize, value);
            return true;
        }
        false
    }

    /// A route names a registered device and an offset inside its region.
    pub proof fn lemma_route_in_bounds(&self, address: u16, from: int)
        requires
            self.wf(),
            0 <= from,
        ensures
            route_from(self.regions(), address, from) matches Some((device, offset)) ==> {
                &&& device < self.device_count()
                &&& self.regions()[device as int].0 + offset == address
                &&& address < self.regions()[device as int].1
            },
        decreases self.regions().len() - from,
    {
        if from < self.regions().len() {
            let region = self.regions()[from];
            if !(region.0 <= address < region.1) {
                self.lemma_route_in_bounds(address, from + 1);
            }
        }
    }
}

/// A linear memory with a device bus in front of it: an address that a
/// device serves goes to the device, every other address to the memory.
pub struct MemoryWithDevices {
    linear_memory: LinearMemory,
    device_bus: DeviceBus,
}

impl MemoryWithDevices {
    /// The linear memory behind the bus.
    pub closed spec fn linear(&self) -> &LinearMemory {
        &self.linear_memory
    }

    /// The device bus.
    pub closed spec fn bus(&self) -> &DeviceBus {
        &self.device_bus
    }

    /// `memory` without any device in front of it.
    pub fn new(memory: LinearMemory) -> (composed: Self)
        requires
            memory.wf(),
        ensures
            composed.wf(),
            *composed.linear() == memory,
            composed.bus().regions() == Seq::<(u16, u16, usize)>::empty(),
    {
        Self { linear_memory: memory, device_bus: DeviceBus::new() }
    }

    /// Reserves the `size` addresses from `start_addr` on for `device`, as
    /// the bus does.
    pub fn register_device<D: Device + 'static>(
        &mut self,
        device: D,
        start_addr: u16,
        size: u16,
    ) -> (r: Result<(), String>)
        requires
            old(self).wf(),
        ensures
            final(self).wf(),
            regions_apart(final(self).bus().regions()),
            *final(self).linear() == *old(self).linear(),
            start_addr + size > u16::MAX ==> r is Err && r->Err_0@ == overflow_text(),
            start_addr + size <= u16::MAX && overlaps_regions(
                old(self).bus().regions(),
                start_addr,
                (start_addr + size) as u16,
            ) ==> r is Err && r->Err_0@ == overlap_text(),
            start_addr + size <= u16::MAX && !overlaps_regions(
                old(self).bus().regions(),
                start_addr,
                (start_addr + size) as u16,
            ) ==> r is Ok,
            final(self).bus().regions() == if r is Ok {
                old(self).bus().regions().push(
                    (
                        start_addr,
                        (start_addr + size) as u16,
                        old(self).bus().regions().len() as usize,
                    ),
                )
            } else {
                old(self).bus().regions()
            },
    {
        self.device_bus.register_device(device, start_addr, size)
    }
}

impl MemoryModel for MemoryWithDevices {
    open spec fn wf(&self) -> bool {
        self.linear().wf() && self.bus().wf()
    }

    /// A device answers some byte; the linear memory answers what it holds.
    open spec fn reads(&self, addr: u16, got: Option<u8>) -> bool {
        if self.bus().route(addr) is Some {
            got is Some
        } else {
            self.linear().reads(addr, got)
        }
    }

    /// A device accepts every write and the linear memory stays as it is;
    /// a write that no device serves is a write to the linear memory.
    open spec fn writes(&self, addr: u16, value: u8, after: &Self, ok: bool) -> bool {
        &&& after.bus().regions() == self.bus().regions()
        &&& if self.bus().route(addr) is Some {
            ok && *after.linear() == *self.linear()
        } else {
            *after.bus() == *self.bus() && self.linear().writes(addr, value, after.linear(), ok)
        }
    }
}

impl Addressable for MemoryWithDevices {
    fn read(&self, addr: u16) -> (got: Option<u8>) {
        if let Some(value) = self.device_bus.read(addr) {
            Some(value)
        } else {
            self.linear_memory.read(addr)
        }
    }

    fn write(&mut self, addr: u16, value: u8) -> (ok: bool) {
        if self.device_bus.write(addr, value) {
            true
        } else {
            self.linear_memory.write(addr, value)
        }
    }
}

} // verus!
