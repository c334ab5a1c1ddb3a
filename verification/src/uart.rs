//! PL011 UART driver state.
//!
//! The console is modelled by the byte streams it carries: `tx` is
//! everything the driver has written to the data register, oldest
//! first, and `rx` holds the bytes the receive FIFO has delivered
//! and the driver has not read yet. The volatile register accesses
//! (and the wait on the transmit-FIFO-full flag before each send)
//! are performed by the embedder.

use vstd::prelude::*;

verus! {

/// Interrupt line of the console.
pub const UART_IRQ_NUM: usize = 33;

pub struct Pl011Uart {
    /// Base of the memory-mapped register block.
    pub base_vaddr: usize,
    /// Bytes written out through the data register, oldest first.
    pub tx: Vec<u8>,
    /// Bytes received and not yet consumed, oldest first.
    pub rx: Vec<u8>,
    /// Interrupt-clear value programmed by `init` (ICR).
    pub icr: u32,
    /// FIFO interrupt level programmed by `init` (IFLS).
    pub ifls: u32,
    /// Interrupt mask programmed by `init` (IMSC).
    pub imsc: u32,
    /// Control value programmed by `init` (CR).
    pub cr: u32,
}

impl Pl011Uart {
    pub fn new(base_vaddr: usize) -> (r: Pl011Uart)
        ensures
            r.base_vaddr == base_vaddr,
            r.tx@.len() == 0,
            r.rx@.len() == 0,
    {
        Pl011Uart { base_vaddr, tx: Vec::new(), rx: Vec::new(), icr: 0, ifls: 0, imsc: 0, cr: 0 }
    }

    /// Program the console: clear all interrupts (ICR), take
    /// interrupts at the lowest FIFO levels (IFLS), unmask the
    /// receive interrupt (IMSC bit 4), and enable the UART with
    /// transmit and receive (CR bits 0, 8, 9).
    pub fn init(&mut self)
        ensures
            final(self).icr == 0x3ff,
            final(self).ifls == 0,
            final(self).imsc == 0x10,
            final(self).cr == 0x301,
            final(self).tx@ == old(self).tx@,
            final(self).rx@ == old(self).rx@,
            final(self).base_vaddr == old(self).base_vaddr,
    {
        self.icr = 0x3ff;
        self.ifls = 0;
        self.imsc = 1u32 << 4;
        self.cr = (1u32 << 0) | (1u32 << 8) | (1u32 << 9);
        proof {
            assert(1u32 << 4 == 0x10u32 && (1u32 << 0) | (1u32 << 8) | (1u32 << 9) == 0x301u32)
                by (bit_vector);
        }
    }

    /// Send one byte: once the transmit FIFO has room, write it to
    /// the data register.
    pub fn putchar(&mut self, c: u8)
        ensures
            final(self).tx@ == old(self).tx@.push(c),
            *final(self) == (Pl011Uart { tx: final(self).tx, ..*old(self) }),
    {
        self.tx.push(c);
    }

    /// Poll for one received byte: the oldest pending byte, or
    /// nothing when the receive FIFO is empty.
    pub fn getchar(&mut self) -> (r: Option<u8>)
        ensures
            old(self).rx@.len() == 0 ==> r is None && *final(self) == *old(self),
            old(self).rx@.len() > 0 ==> r == Some(old(self).rx@[0]) && final(self).rx@ == old(
                self,
            ).rx@.subrange(1, old(self).rx@.len() as int) && *final(self) == (Pl011Uart {
                rx: final(self).rx,
                ..*old(self)
            }),
    {
        if self.rx.len() > 0 {
            let b = self.rx.remove(0);
            Some(b)
        } else {
            None
        }
    }
}

/// Write one byte to the console.
pub fn console_putchar(uart: &mut Pl011Uart, c: u8)
    ensures
        final(uart).tx@ == old(uart).tx@.push(c),
        *final(uart) == (Pl011Uart { tx: final(uart).tx, ..*old(uart) }),
{
    uart.putchar(c);
}

/// Read one byte from the console, if one is pending.
pub fn console_getchar(uart: &mut Pl011Uart) -> (r: Option<u8>)
    ensures
        old(uart).rx@.len() == 0 ==> r is None && *final(uart) == *old(uart),
        old(uart).rx@.len() > 0 ==> r == Some(old(uart).rx@[0]) && final(uart).rx@ == old(
            uart,
        ).rx@.subrange(1, old(uart).rx@.len() as int) && *final(uart) == (Pl011Uart {
            rx: final(uart).rx,
            ..*old(uart)
        }),
{
    uart.getchar()
}

/// Program the console.
pub fn init(uart: &mut Pl011Uart)
    ensures
        final(uart).icr == 0x3ff,
        final(uart).ifls == 0,
        final(uart).imsc == 0x10,
        final(uart).cr == 0x301,
        final(uart).tx@ == old(uart).tx@,
        final(uart).rx@ == old(uart).rx@,
{
    uart.init();
}

} // verus!
