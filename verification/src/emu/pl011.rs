//! Emulated console: the guest's view of the PL011.
//!
//! A 16-byte ring is shared with the physical console: reads of the
//! data register drain the ring, reads of the flag register pull one
//! byte from the physical console into the ring and report whether
//! input is pending, and writes to the data register are forwarded
//! to the physical console.

use vstd::prelude::*;

use crate::emu::fifo::Fifo;
use crate::err::RvmError;
use crate::err::RvmResult;
use crate::uart::Pl011Uart;

verus! {

/// Data register offset.
pub const PL011_DR: usize = 0x00;

/// Flag register offset.
pub const PL011_FR: usize = 0x18;

/// Flag register: no input pending.
pub const FR_INPUT_EMPTY: u32 = 0x10;

/// Ring capacity shared with the physical console.
pub const UART_FIFO_CAPACITY: usize = 16;

pub struct Pl011 {
    pub base_vaddr: usize,
    pub fifo: Fifo<UART_FIFO_CAPACITY>,
}

impl Pl011 {
    /// The offsets a read is served at.
    pub open spec fn spec_read_ok(self, off: int) -> bool {
        off == PL011_DR || off == PL011_FR
    }

    /// The value a read returns: the oldest buffered byte (or zero)
    /// at the data register; at the flag register, zero when input
    /// is or becomes pending, the input-empty flag otherwise.
    pub open spec fn spec_read_value(self, off: int, uart: crate::uart::Pl011Uart) -> u32 {
        if off == PL011_DR {
            if self.fifo.view().len() == 0 {
                0u32
            } else {
                self.fifo.view()[0] as u32
            }
        } else {
            if self.fifo.view().len() < UART_FIFO_CAPACITY as int && uart.rx@.len() > 0 {
                0u32
            } else if self.fifo.view().len() == 0 {
                FR_INPUT_EMPTY
            } else {
                0u32
            }
        }
    }

    pub open spec fn wf(self) -> bool {
        &&& self.fifo.wf()
        &&& self.base_vaddr + 0x1000 <= usize::MAX
    }

    pub fn new(base_vaddr: usize) -> (r: Pl011)
        requires
            base_vaddr + 0x1000 <= usize::MAX,
        ensures
            r.wf(),
            r.base_vaddr == base_vaddr,
            r.fifo.view() == Seq::<u8>::empty(),
    {
        Pl011 { base_vaddr, fifo: Fifo::new() }
    }

    /// The claimed guest-physical window.
    pub fn mem_range(&self) -> (r: (usize, usize))
        requires
            self.wf(),
        ensures
            r.0 == self.base_vaddr,
            r.1 == self.base_vaddr + 0x1000,
    {
        (self.base_vaddr, self.base_vaddr + 0x1000)
    }

    /// Reads. The data register yields the oldest buffered byte (or
    /// zero). The flag register first pulls one byte from the
    /// physical console when the ring has room, then reports whether
    /// input is pending. Any other offset is refused; the exit
    /// handler's caller treats that as fatal.
    pub fn read(&mut self, addr: usize, _access_size: u8, uart: &mut Pl011Uart) -> (r: RvmResult<
        u32,
    >)
        requires
            old(self).wf(),
            old(self).base_vaddr <= addr,
            addr - old(self).base_vaddr < 0x1000,
        ensures
            final(self).wf(),
            final(self).base_vaddr == old(self).base_vaddr,
            r is Ok <==> old(self).spec_read_ok(addr - old(self).base_vaddr),
            r is Ok ==> r == RvmResult::<u32>::Ok(
                old(self).spec_read_value(addr - old(self).base_vaddr, *old(uart)),
            ),
            ({
                let off = addr - old(self).base_vaddr;
                if off == PL011_DR {
                    &&& *final(uart) == *old(uart)
                    &&& (if old(self).fifo.view().len() == 0 {
                        r == RvmResult::<u32>::Ok(0) && final(self).fifo.view() == old(self).fifo.view()
                    } else {
                        r == RvmResult::<u32>::Ok(old(self).fifo.view()[0] as u32) && final(self).fifo.view() == old(self).fifo.view().subrange(
                            1,
                            old(self).fifo.view().len() as int,
                        )
                    })
                } else if off == PL011_FR {
                    if old(self).fifo.view().len() < UART_FIFO_CAPACITY as int && old(uart).rx@.len() > 0 {
                        &&& final(self).fifo.view() == old(self).fifo.view().push(
                            old(uart).rx@[0],
                        )
                        &&& final(uart).rx@ == old(uart).rx@.subrange(1, old(uart).rx@.len() as int)
                        &&& final(uart).tx@ == old(uart).tx@
                        &&& r == RvmResult::<u32>::Ok(0)
                    } else {
                        &&& final(self).fifo.view() == old(self).fifo.view()
                        &&& *final(uart) == *old(uart)
                        &&& r == RvmResult::<u32>::Ok(
                            if old(self).fifo.view().len() == 0 {
                                FR_INPUT_EMPTY
                            } else {
                                0u32
                            },
                        )
                    }
                } else {
                    r == RvmResult::<u32>::Err(RvmError::Unsupported) && final(self).fifo.view()
                        == old(self).fifo.view() && *final(uart) == *old(uart)
                }
            }),
    {
        let off = addr - self.base_vaddr;
        if off == PL011_DR {
            if self.fifo.is_empty() {
                Ok(0)
            } else {
                let b = self.fifo.pop();
                Ok(b as u32)
            }
        } else if off == PL011_FR {
            if !self.fifo.is_full() {
                match crate::uart::console_getchar(uart) {
                    Some(b) => {
                        self.fifo.push(b);
                    },
                    None => {},
                }
            }
            if self.fifo.is_empty() {
                Ok(FR_INPUT_EMPTY)
            } else {
                Ok(0)
            }
        } else {
            Err(RvmError::Unsupported)
        }
    }

    /// Writes. The data register forwards the byte to the physical
    /// console; every other offset drops the write.
    pub fn write(&mut self, addr: usize, val: u32, _access_size: u8, uart: &mut Pl011Uart) -> (r:
        RvmResult<()>)
        requires
            old(self).wf(),
            old(self).base_vaddr <= addr,
            addr - old(self).base_vaddr < 0x1000,
        ensures
            final(self).wf(),
            *final(self) == *old(self),
            r is Ok,
            addr - old(self).base_vaddr == PL011_DR ==> final(uart).tx@ == old(uart).tx@.push(
                val as u8,
            ) && *final(uart) == (Pl011Uart { tx: final(uart).tx, ..*old(uart) }),
            addr - old(self).base_vaddr != PL011_DR ==> *final(uart) == *old(uart),
    {
        let off = addr - self.base_vaddr;
        if off == PL011_DR {
            crate::uart::console_putchar(uart, val as u8);
        }
        Ok(())
    }
}

} // verus!
