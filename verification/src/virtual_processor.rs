//! The machine that runs what the assembler gives out. Only its memory for
//! the program is kept here.
use vstd::prelude::*;

verus! {

/// A processor with its registers and its memories.
pub struct VirtualProcessor {
    pub name: String,
    /// The clock in cycles for each second.
    pub clock_speed: i32,
    pub num_registers: i32,
    /// The width of a register in bits.
    pub registers_size: i32,
    registers: Vec<Vec<u8>>,
    /// The number of bytes of memory for data.
    pub ram_size: i32,
    ram_data: Vec<u8>,
    /// The number of bytes of memory for the program.
    pub rom_size: i32,
    rom_data: Vec<u8>,
}

impl VirtualProcessor {
    /// The program that the processor holds.
    pub closed spec fn rom(&self) -> Seq<u8> {
        self.rom_data@
    }

    /// The data that the processor holds.
    pub closed spec fn ram(&self) -> Seq<u8> {
        self.ram_data@
    }

    /// The registers, each with its bytes.
    pub closed spec fn registers(&self) -> Seq<Vec<u8>> {
        self.registers@
    }

    /// The settings of the processor: its name, its clock, the number and the
    /// width of its registers, and the sizes of its two memories.
    pub closed spec fn settings(&self) -> (Seq<char>, i32, i32, i32, i32, i32) {
        (
            self.name@,
            self.clock_speed,
            self.num_registers,
            self.registers_size,
            self.ram_size,
            self.rom_size,
        )
    }

    /// A processor without a program.
    pub fn new(name: String, num_registers: i32, registers_size: i32) -> (made: VirtualProcessor)
        ensures
            made.settings() == (name@, 0i32, num_registers, registers_size, 0i32, 0i32),
            made.registers().len() == 0,
            made.rom().len() == 0,
            made.ram().len() == 0,
    {
        VirtualProcessor {
            name,
            clock_speed: 0,
            num_registers,
            registers_size,
            registers: Vec::new(),
            ram_size: 0,
            ram_data: Vec::new(),
            rom_size: 0,
            rom_data: Vec::new(),
        }
    }

    /// Replaces the program. Nothing else changes.
    pub fn set_rom(&mut self, data: Vec<u8>)
        ensures
            final(self).rom() == data@,
            final(self).ram() == old(self).ram(),
            final(self).registers() == old(self).registers(),
            final(self).settings() == old(self).settings(),
    {
        self.rom_data = data;
    }

    /// The program that the processor holds.
    pub fn get_rom(&self) -> (data: &Vec<u8>)
        ensures
            data@ == self.rom(),
    {
        &self.rom_data
    }
}

} // verus!
