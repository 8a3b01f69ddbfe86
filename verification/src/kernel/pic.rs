use vstd::prelude::*;

verus! {

/// Which of the two chained interrupt controllers serves an IRQ line, and the line's
/// bit in that controller's mask: lines 0 to 7 are the master's, 8 to 15 the slave's.
pub open spec fn irq_bit(irq: u8) -> (bool, u8) {
    if irq < 8 {
        (true, irq)
    } else {
        (false, (irq - 8) as u8)
    }
}

/// The mask to write to unmask `irq`: the controller (`true` for the master) and the
/// new mask, read from `master_mask` or `slave_mask` with the line's bit cleared.
pub fn enable_irq(irq: u8, master_mask: u8, slave_mask: u8) -> (ret: (bool, u8))
    requires
        irq < 16,
    ensures
        ret.0 == irq_bit(irq).0,
        ret.1 == (if ret.0 { master_mask } else { slave_mask }) & !(1u8 << irq_bit(irq).1),
{
    if irq < 8 {
        (true, master_mask & !(1u8 << irq))
    } else {
        (false, slave_mask & !(1u8 << (irq - 8)))
    }
}

/// The mask to write to mask `irq`: as `enable_irq`, with the line's bit set.
pub fn disable_irq(irq: u8, master_mask: u8, slave_mask: u8) -> (ret: (bool, u8))
    requires
        irq < 16,
    ensures
        ret.0 == irq_bit(irq).0,
        ret.1 == (if ret.0 { master_mask } else { slave_mask }) | (1u8 << irq_bit(irq).1),
{
    if irq < 8 {
        (true, master_mask | (1u8 << irq))
    } else {
        (false, slave_mask | (1u8 << (irq - 8)))
    }
}

/// The controllers that take an end-of-interrupt for `irq`: (master, slave). The
/// master always does; the slave too for its own lines.
pub fn send_eoi(irq: u8) -> (ret: (bool, bool))
    ensures
        ret == (true, irq >= 8),
{
    if irq < 8 {
        (true, false)
    } else {
        (true, true)
    }
}

/// A 16-bit register pair read from both controllers: the slave's byte high, the
/// master's low.
pub fn combine(slave: u8, master: u8) -> (ret: u16)
    ensures
        ret == slave as u16 * 256 + master as u16,
{
    let r = (slave as u16) << 8u16 | master as u16;
    assert((slave as u16) << 8u16 | master as u16 == slave as u16 * 256 + master as u16) by (bit_vector);
    r
}

/// The initialisation command (0x10, with 0x01 to announce a fourth word) and the
/// data bytes that set the controllers up, in the order written after it to both: vector offsets 0x20 and 0x28, the cascade
/// wiring (4 for the master, 2 for the slave), and 8086 mode; each pair is
/// (master, slave).
pub fn initialization_words() -> (ret: (u8, (u8, u8), (u8, u8), (u8, u8)))
    ensures
        ret == (0x11u8, (0x20u8, 0x28u8), (4u8, 2u8), (1u8, 1u8)),
{
    (0x11, (0x20, 0x28), (4, 2), (1, 1))
}

/// Unmasking a line and masking it again gives the controller's mask back when the
/// line was masked to begin with; masking after unmasking likewise.
pub proof fn lemma_enable_disable(mask: u8, bit: u8)
    requires
        bit < 8,
    ensures
        (mask & (1u8 << bit)) != 0 ==> ((mask & !(1u8 << bit)) | (1u8 << bit)) == mask,
        (mask & (1u8 << bit)) == 0 ==> ((mask | (1u8 << bit)) & !(1u8 << bit)) == mask,
{
    assert(((mask & (1u8 << bit)) != 0 ==> ((mask & !(1u8 << bit)) | (1u8 << bit)) == mask) && ((mask & (1u8 << bit))
        == 0 ==> ((mask | (1u8 << bit)) & !(1u8 << bit)) == mask)) by (bit_vector)
        requires
            bit < 8,
    ;
}

} // verus!
