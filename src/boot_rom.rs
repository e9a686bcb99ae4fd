use vstd::prelude::*;

verus! {

/// The optional boot program that is mapped over the start of the address
/// space until the running program unmaps it.
pub struct BootRom {
    boot_rom: Vec<u8>,
    is_active: bool,
}

impl BootRom {
    /// The bytes of the boot program.
    pub closed spec fn bytes(&self) -> Seq<u8> {
        self.boot_rom@
    }

    /// Whether the boot program is still mapped.
    pub closed spec fn active(&self) -> bool {
        self.is_active
    }

    /// Wraps the given boot program; it starts out mapped.
    pub fn new(data: Vec<u8>) -> (r: Self)
        ensures
            r.bytes() == data@,
            r.active(),
    {
        Self { boot_rom: data, is_active: true }
    }

    /// The byte at `address`, or 0xFF past the end of the program.
    pub fn read(&self, address: u16) -> (r: u8)
        ensures
            (address as int) < self.bytes().len() ==> r == self.bytes()[address as int],
            (address as int) >= self.bytes().len() ==> r == 0xff,
    {
        if (address as usize) < self.boot_rom.len() {
            self.boot_rom[address as usize]
        } else {
            0xff
        }
    }

    pub fn is_active(&self) -> (r: bool)
        ensures
            r == self.active(),
    {
        self.is_active
    }

    /// Unmaps the boot program for good.
    pub fn deactivate(&mut self)
        ensures
            !final(self).active(),
            final(self).bytes() == old(self).bytes(),
    {
        self.is_active = false;
    }
}

} // verus!
