use vstd::prelude::*;

verus! {

/// PCI configuration space: enable bit of a configuration address.
pub const PCI_ENABLE: u32 = 0x8000_0000;
/// Bit 0 of a base address register: the register names an I/O port range.
pub const PCI_IO_SPACE_INDICATOR: u32 = 0x1;
/// Mask of the I/O port number in a base address register.
pub const PCI_IO_BASE_MASK: u32 = 0xfffe;
/// Buses, devices per bus and functions per device of the PCI configuration space.
pub const PCI_BUS_COUNT: u32 = 256;
pub const PCI_DEV_COUNT: u32 = 32;
pub const PCI_FUNC_COUNT: u32 = 8;
/// Dwords of a function's configuration header that are read.
pub const PCI_CONFIG_DWORDS: usize = 64;
/// Dword of the class code, and offset of the bus-master base address register.
pub const PCI_CLASS_DWORD_INDEX: usize = 2;
pub const PCI_BUS_MASTER_DWORD_OFFSET: usize = 8;
/// Offset of the command register, and the value that enables bus mastering.
pub const PCI_COMMAND_REGISTER_OFFSET: u32 = 0x04;
pub const PCI_BUS_MASTER_ENABLE: u8 = 0x7;
/// Class dword of an IDE controller, and the mask that selects it.
pub const PCI_IDE_CLASS_MASK: u32 = 0x0101_0000;
pub const PCI_IDE_CLASS_VALUE: u32 = 0x0101_0000;

/// One entry of a bus-master DMA table: a physical region to transfer.
#[derive(Clone, Copy, Debug)]
pub struct PhysicalRegionDescriptor {
    base_address: u32,
    byte_count: u16,
    flags: u16,
}

impl PhysicalRegionDescriptor {
    /// End-of-table bit of `flags`.
    pub const EOT: u16 = 0x8000;

    pub closed spec fn spec_base_address(&self) -> u32 {
        self.base_address
    }

    pub closed spec fn spec_byte_count(&self) -> u16 {
        self.byte_count
    }

    pub closed spec fn spec_flags(&self) -> u16 {
        self.flags
    }

    /// An empty descriptor: address 0, no bytes, not the last entry.
    pub fn new() -> (r: Self)
        ensures
            r.spec_base_address() == 0,
            r.spec_byte_count() == 0,
            r.spec_flags() == 0,
    {
        Self { base_address: 0, byte_count: 0, flags: 0 }
    }

    /// Sets the region's physical address; bit 0 is cleared (the region is word aligned).
    pub fn set_base_address(&mut self, phy_base_addr: u32)
        ensures
            final(self).spec_base_address() == phy_base_addr & !0x1u32,
            final(self).spec_base_address() % 2 == 0,
            final(self).spec_base_address() == phy_base_addr - phy_base_addr % 2,
            final(self).spec_byte_count() == old(self).spec_byte_count(),
            final(self).spec_flags() == old(self).spec_flags(),
    {
        assert((phy_base_addr & !0x1u32) % 2 == 0 && (phy_base_addr & !0x1u32) == phy_base_addr
            - phy_base_addr % 2) by (bit_vector);
        self.base_address = phy_base_addr & !0x1;
    }

    /// Sets the number of bytes to transfer; bit 0 is cleared (an even count).
    pub fn set_byte_count(&mut self, bytes: u16)
        ensures
            final(self).spec_byte_count() == bytes & !0x1u16,
            final(self).spec_byte_count() == bytes - bytes % 2,
            final(self).spec_base_address() == old(self).spec_base_address(),
            final(self).spec_flags() == old(self).spec_flags(),
    {
        assert((bytes & !0x1u16) == bytes - bytes % 2) by (bit_vector);
        self.byte_count = bytes & !0x1;
    }

    /// Marks the descriptor as the last of its table, or clears that mark.
    pub fn set_end_of_table(&mut self, eot: bool)
        ensures
            final(self).spec_flags() == (if eot { old(self).spec_flags() | Self::EOT } else {
                old(self).spec_flags() & !Self::EOT
            }),
            (final(self).spec_flags() & Self::EOT != 0) == eot,
            final(self).spec_flags() & !Self::EOT == old(self).spec_flags() & !Self::EOT,
            final(self).spec_base_address() == old(self).spec_base_address(),
            final(self).spec_byte_count() == old(self).spec_byte_count(),
    {
        let f = self.flags;
        assert(((f | 0x8000u16) & 0x8000u16 != 0) && ((f & !0x8000u16) & 0x8000u16 == 0)
            && ((f | 0x8000u16) & !0x8000u16 == f & !0x8000u16) && ((f & !0x8000u16)
            & !0x8000u16 == f & !0x8000u16)) by (bit_vector);
        if eot {
            self.flags = self.flags | Self::EOT;
        } else {
            self.flags = self.flags & !Self::EOT;
        }
    }

    pub fn base_address(&self) -> (r: u32)
        ensures
            r == self.spec_base_address(),
    {
        self.base_address
    }

    pub fn byte_count(&self) -> (r: u16)
        ensures
            r == self.spec_byte_count(),
    {
        self.byte_count
    }

    /// The descriptor is the last of its table.
    pub fn is_end_of_table(&self) -> (r: bool)
        ensures
            r == (self.spec_flags() & Self::EOT != 0),
    {
        self.flags & Self::EOT != 0
    }
}

/// The table of physical regions that a bus-master DMA transfer walks.
pub struct PRDTable {
    descriptors: Vec<PhysicalRegionDescriptor>,
}

impl View for PRDTable {
    type V = Seq<PhysicalRegionDescriptor>;

    closed spec fn view(&self) -> Seq<PhysicalRegionDescriptor> {
        self.descriptors@
    }
}

/// Base of the kernel's virtual window.
pub const KERNEL_BASE: usize = 0xc000_0000;

impl PRDTable {
    /// Number of descriptors in a table.
    pub const NSIZE: usize = 10;

    /// A table always has `NSIZE` descriptors.
    #[verifier::type_invariant]
    spec fn has_nsize(self) -> bool {
        self.descriptors@.len() == Self::NSIZE
    }

    /// Number of descriptors: always `NSIZE`.
    pub fn len(&self) -> (r: usize)
        ensures
            r == self@.len(),
            r == Self::NSIZE,
    {
        proof { use_type_invariant(self); }
        self.descriptors.len()
    }

    /// A table of `NSIZE` empty descriptors.
    pub fn new() -> (r: Self)
        ensures
            r@.len() == Self::NSIZE,
            forall|i: int|
                0 <= i < Self::NSIZE ==> (#[trigger] r@[i]).spec_base_address() == 0
                    && r@[i].spec_byte_count() == 0 && r@[i].spec_flags() == 0,
    {
        let mut descriptors: Vec<PhysicalRegionDescriptor> = Vec::new();
        let mut i: usize = 0;
        while i < Self::NSIZE
            invariant
                i <= Self::NSIZE,
                descriptors@.len() == i,
                forall|j: int|
                    0 <= j < i ==> (#[trigger] descriptors@[j]).spec_base_address() == 0
                        && descriptors@[j].spec_byte_count() == 0
                        && descriptors@[j].spec_flags() == 0,
            decreases Self::NSIZE - i,
        {
            descriptors.push(PhysicalRegionDescriptor::new());
            i = i + 1;
        }
        PRDTable { descriptors }
    }

    /// Stores `prd` at `index`, with its end-of-table mark set to `eot`.
    pub fn set_physical_region_descriptor(
        &mut self,
        index: usize,
        prd: PhysicalRegionDescriptor,
        eot: bool,
    )
        requires
            index < Self::NSIZE,
        ensures
            old(self)@.len() == Self::NSIZE,
            final(self)@.len() == Self::NSIZE,
            forall|i: int|
                0 <= i < old(self)@.len() && i != index ==> #[trigger] final(self)@[i] == old(
                    self,
                )@[i],
            final(self)@[index as int].spec_base_address() == prd.spec_base_address(),
            final(self)@[index as int].spec_byte_count() == prd.spec_byte_count(),
            final(self)@[index as int].spec_flags() == (if eot {
                prd.spec_flags() | PhysicalRegionDescriptor::EOT
            } else {
                prd.spec_flags() & !PhysicalRegionDescriptor::EOT
            }),
    {
        proof { use_type_invariant(&*self); }
        let mut prd = prd;
        prd.set_end_of_table(eot);
        let mut d: Vec<PhysicalRegionDescriptor> = Vec::new();
        let mut i: usize = 0;
        while i < Self::NSIZE
            invariant
                i <= Self::NSIZE,
                self.descriptors@.len() == Self::NSIZE,
                d@.len() == i,
                forall|j: int| 0 <= j < i ==> #[trigger] d@[j] == (if j == index { prd } else { self.descriptors@[j] }),
            decreases Self::NSIZE - i,
        {
            if i == index {
                d.push(prd);
            } else {
                d.push(self.descriptors[i]);
            }
            i = i + 1;
        }
        *self = PRDTable { descriptors: d };
    }

    /// The address the controller is given for this table when it lies at kernel
    /// address `table_addr`: the address less `KERNEL_BASE` (wrapping), kept to 32 bits.
    pub fn prd_table_base_address(&self, table_addr: usize) -> (r: u32)
        ensures
            r == table_addr.wrapping_sub(KERNEL_BASE) as u32,
    {
        table_addr.wrapping_sub(KERNEL_BASE) as u32
    }

    /// The descriptor at `index`.
    pub fn descriptor(&self, index: usize) -> (r: &PhysicalRegionDescriptor)
        requires
            index < Self::NSIZE,
        ensures
            self@.len() == Self::NSIZE,
            *r == self@[index as int],
    {
        proof { use_type_invariant(self); }
        &self.descriptors[index]
    }
}

/// Start/stop bit of the bus-master command register.
#[derive(Debug, Clone, Copy, PartialEq, Eq, Structural)]
pub enum DMAStart {
    Start,
    Stop,
}

impl DMAStart {
    pub open spec fn spec_bits(self) -> u8 {
        match self {
            DMAStart::Start => 0x01,
            DMAStart::Stop => 0x00,
        }
    }

    /// The command register bits of this value.
    pub fn bits(self) -> (r: u8)
        ensures
            r == self.spec_bits(),
    {
        match self {
            DMAStart::Start => 0x01,
            DMAStart::Stop => 0x00,
        }
    }
}

/// Direction bit of the bus-master command register.
#[derive(Debug, Clone, Copy, PartialEq, Eq, Structural)]
pub enum DMAType {
    Read,
    Write,
}

impl DMAType {
    pub open spec fn spec_bits(self) -> u8 {
        match self {
            DMAType::Read => 0x08,
            DMAType::Write => 0x00,
        }
    }

    /// The command register bits of this value.
    pub fn bits(self) -> (r: u8)
        ensures
            r == self.spec_bits(),
    {
        match self {
            DMAType::Read => 0x08,
            DMAType::Write => 0x00,
        }
    }
}

/// The I/O ports of the IDE bus-master DMA controller.
pub struct DMA {
    command: u16,
    status: u16,
    prdtr: u16,
}

impl DMA {
    /// Status bit: a transfer is active.
    pub const ACTIVE: u8 = 0x01;
    /// Status bit: the transfer failed.
    pub const ERROR: u8 = 0x02;
    /// Status bit: the controller raised an interrupt.
    pub const INTERRUPT: u8 = 0x04;

    pub closed spec fn spec_command_port(&self) -> u16 {
        self.command
    }

    pub closed spec fn spec_status_port(&self) -> u16 {
        self.status
    }

    pub closed spec fn spec_prdtr_port(&self) -> u16 {
        self.prdtr
    }

    /// The ports of a controller not yet found on the PCI bus: all 0.
    pub fn unconfigured() -> (r: Self)
        ensures
            r.spec_command_port() == 0,
            r.spec_status_port() == 0,
            r.spec_prdtr_port() == 0,
    {
        DMA { command: 0, status: 0, prdtr: 0 }
    }

    /// The ports named by a bus-master base address register, which must name an I/O
    /// port range (memory-mapped I/O is not supported): command at the base, status at
    /// base + 2, table pointer at base + 4.
    pub fn from_bus_master_base(bus_master_base: u32) -> (r: Self)
        requires
            bus_master_base & PCI_IO_SPACE_INDICATOR != 0,
            (bus_master_base & PCI_IO_BASE_MASK) + 4 <= u16::MAX,
        ensures
            r.spec_command_port() == bus_master_base & PCI_IO_BASE_MASK,
            r.spec_status_port() == (bus_master_base & PCI_IO_BASE_MASK) + 2,
            r.spec_prdtr_port() == (bus_master_base & PCI_IO_BASE_MASK) + 4,
    {
        let masked = bus_master_base & PCI_IO_BASE_MASK;
        let port_addr = masked as u16;
        DMA { command: port_addr, status: port_addr + 2, prdtr: port_addr + 4 }
    }

    pub fn command_port(&self) -> (r: u16)
        ensures
            r == self.spec_command_port(),
    {
        self.command
    }

    pub fn status_port(&self) -> (r: u16)
        ensures
            r == self.spec_status_port(),
    {
        self.status
    }

    pub fn prdtr_port(&self) -> (r: u16)
        ensures
            r == self.spec_prdtr_port(),
    {
        self.prdtr
    }

    /// A status byte reports a failed transfer.
    pub fn is_error(status: u8) -> (r: bool)
        ensures
            r == (status & Self::ERROR == Self::ERROR),
    {
        status & Self::ERROR == Self::ERROR
    }

    /// The command byte that starts a transfer in direction `dma_type`.
    pub fn start_command(dma_type: DMAType) -> (r: u8)
        ensures
            r == dma_type.spec_bits() | DMAStart::Start.spec_bits(),
    {
        dma_type.bits() | DMAStart::Start.bits()
    }

    /// The byte written to the status register to acknowledge an interrupt and an error.
    pub fn reset_status() -> (r: u8)
        ensures
            r == Self::INTERRUPT | Self::ERROR,
    {
        Self::INTERRUPT | Self::ERROR
    }

    /// The configuration-space address of register `offset` of `bus:dev.func`.
    pub fn pci_config_address(bus: u32, dev: u32, func: u32, offset: u32) -> (r: u32)
        ensures
            r == PCI_ENABLE | (bus << 16u32) | (dev << 11u32) | (func << 8u32) | offset,
    {
        PCI_ENABLE | (bus << 16) | (dev << 11) | (func << 8) | offset
    }

    /// A class dword read from a function names an IDE controller (all ones is what an
    /// absent function reads as, and names nothing).
    pub fn is_ide_class(class_dword: u32) -> (r: bool)
        ensures
            r == (class_dword != u32::MAX && class_dword & PCI_IDE_CLASS_MASK == PCI_IDE_CLASS_VALUE),
    {
        class_dword != u32::MAX && class_dword & PCI_IDE_CLASS_MASK == PCI_IDE_CLASS_VALUE
    }

    /// The PCI function probed after `bus:dev.func` when looking for the controller:
    /// functions, then devices, then buses in increasing order; `None` after the last.
    pub fn next_pci_function(bus: u32, dev: u32, func: u32) -> (r: Option<(u32, u32, u32)>)
        requires
            bus < PCI_BUS_COUNT,
            dev < PCI_DEV_COUNT,
            func < PCI_FUNC_COUNT,
        ensures
            r == (if func + 1 < PCI_FUNC_COUNT {
                Some((bus, dev, (func + 1) as u32))
            } else if dev + 1 < PCI_DEV_COUNT {
                Some((bus, (dev + 1) as u32, 0u32))
            } else if bus + 1 < PCI_BUS_COUNT {
                Some(((bus + 1) as u32, 0u32, 0u32))
            } else {
                None::<(u32, u32, u32)>
            }),
    {
        if func + 1 < PCI_FUNC_COUNT {
            Some((bus, dev, func + 1))
        } else if dev + 1 < PCI_DEV_COUNT {
            Some((bus, dev + 1, 0))
        } else if bus + 1 < PCI_BUS_COUNT {
            Some((bus + 1, 0, 0))
        } else {
            None
        }
    }
}

} // verus!
