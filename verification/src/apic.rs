//! Local APIC programming: where a register lives in xAPIC (memory mapped)
//! and x2APIC (MSR) mode, the interrupt command words, the error status
//! decoding and the register writes of the local APIC setup.

use vstd::prelude::*;
use vstd::string::*;

verus! {

pub const IA32_APIC_BASE_MSR: u32 = 0x1B;
pub const X2APIC_MSR_BASE: u32 = 0x800;
pub const X2APIC_MSR_ICR: u32 = 0x830;
pub const X2APIC_ESR_MSR: u32 = 0x828;

pub const APIC_REG_TPR: u32 = 0x80;
pub const APIC_REG_EOI: u32 = 0xB0;
pub const APIC_REG_SVR: u32 = 0xF0;
pub const APIC_REG_ESR: u32 = 0x280;
pub const APIC_REG_ICR_LOW: u32 = 0x300;
pub const APIC_REG_ICR_HIGH: u32 = 0x310;
/// The local vector table register that receives APIC errors.
pub const APIC_REG_LVT_ERROR: u32 = 0x370;

pub const ICR_FIXED: u64 = 0x000;
pub const ICR_INIT: u64 = 0x500;
pub const ICR_STARTUP: u64 = 0x600;
pub const ICR_ASSERT: u64 = 0x4000;
pub const ICR_LEVEL_ASSERT: u64 = 0x4000;
pub const ICR_DEST_ALL_EXC_SELF: u64 = 0xC0000;

pub const XAPIC_BASE_ADDR: u64 = 0xFEE00000;

pub const SPURIOUS_VECTOR: u8 = 0xFF;
pub const ERROR_VECTOR: u8 = 0xFE;

/// Offset of the `i`-th local vector table register.
pub open spec fn lvt_reg(i: int) -> u32 {
    (0x320 + 0x10 * i) as u32
}

/// One register write.
#[derive(Debug, Clone, Copy, PartialEq, Eq)]
pub enum ApicWrite {
    /// Write `value` to model-specific register `msr` (x2APIC mode).
    Msr { msr: u32, value: u64 },
    /// Store `value` at physical address `addr` (xAPIC mode).
    Mmio { addr: u64, value: u32 },
}

/// One register read.
#[derive(Debug, Clone, Copy, PartialEq, Eq)]
pub enum ApicRead {
    /// Read model-specific register `msr`, keeping the low 32 bits.
    Msr(u32),
    /// Load the 32-bit value at physical address `addr`.
    Mmio(u64),
    /// No register: the value is 0.
    Zero,
}

/// The write of `value` to the register at `reg_offset`.
pub open spec fn apic_write(x2apic: bool, reg_offset: u32, value: u32) -> ApicWrite {
    if x2apic {
        ApicWrite::Msr { msr: (X2APIC_MSR_BASE + reg_offset / 16) as u32, value: value as u64 }
    } else {
        ApicWrite::Mmio { addr: (XAPIC_BASE_ADDR + reg_offset) as u64, value }
    }
}

/// x2APIC mode is on (bit 10 of the APIC base MSR).
pub fn is_x2apic_active(base_msr: u64) -> (r: bool)
    ensures
        r == (base_msr & 0x400 != 0),
{
    (base_msr & 0x400u64) != 0
}

/// The write of `value` to the register at `reg_offset`; x2APIC mode has no
/// high half of the interrupt command register, so that write is dropped.
pub fn write_apic(x2apic: bool, reg_offset: u32, value: u32) -> (r: Option<ApicWrite>)
    ensures
        x2apic && reg_offset == APIC_REG_ICR_HIGH ==> r is None,
        !(x2apic && reg_offset == APIC_REG_ICR_HIGH) ==> r == Some(apic_write(x2apic, reg_offset, value)),
{
    if x2apic {
        if reg_offset == APIC_REG_ICR_HIGH {
            return None;
        }
        assert(reg_offset >> 4u32 == reg_offset / 16) by (bit_vector);
        Some(ApicWrite::Msr { msr: X2APIC_MSR_BASE + (reg_offset >> 4), value: value as u64 })
    } else {
        Some(ApicWrite::Mmio { addr: XAPIC_BASE_ADDR + reg_offset as u64, value })
    }
}

/// The read of the register at `reg_offset`; in x2APIC mode the high half
/// of the interrupt command register reads as 0.
pub fn read_apic(x2apic: bool, reg_offset: u32) -> (r: ApicRead)
    ensures
        r == if x2apic {
            if reg_offset == APIC_REG_ICR_HIGH {
                ApicRead::Zero
            } else {
                ApicRead::Msr((X2APIC_MSR_BASE + reg_offset / 16) as u32)
            }
        } else {
            ApicRead::Mmio((XAPIC_BASE_ADDR + reg_offset) as u64)
        },
{
    if x2apic {
        if reg_offset == APIC_REG_ICR_HIGH {
            return ApicRead::Zero;
        }
        assert(reg_offset >> 4u32 == reg_offset / 16) by (bit_vector);
        ApicRead::Msr(X2APIC_MSR_BASE + (reg_offset >> 4))
    } else {
        ApicRead::Mmio(XAPIC_BASE_ADDR + reg_offset as u64)
    }
}

/// Reading the error status: write 0 to latch it, then read it.
pub fn read_esr(x2apic: bool) -> (r: (ApicWrite, ApicRead))
    ensures
        x2apic ==> r == (ApicWrite::Msr { msr: X2APIC_ESR_MSR, value: 0 }, ApicRead::Msr(X2APIC_ESR_MSR)),
        !x2apic ==> r == (ApicWrite::Mmio { addr: (XAPIC_BASE_ADDR + APIC_REG_ESR) as u64, value: 0 }, ApicRead::Mmio((XAPIC_BASE_ADDR + APIC_REG_ESR) as u64)),
{
    if x2apic {
        (ApicWrite::Msr { msr: X2APIC_ESR_MSR, value: 0 }, ApicRead::Msr(X2APIC_ESR_MSR))
    } else {
        let addr = XAPIC_BASE_ADDR + APIC_REG_ESR as u64;
        (ApicWrite::Mmio { addr, value: 0 }, ApicRead::Mmio(addr))
    }
}

/// An error that the error status register reports.
#[derive(Debug, Clone, Copy, PartialEq, Eq)]
pub enum ApicError {
    /// Bit 7.
    IllegalVectorSend,
    /// Bit 6.
    IllegalVectorReceive,
    /// Bit 5.
    SendIllegalVector,
    /// Bit 3.
    ReceiveAcceptError,
    /// Bit 2.
    SendAcceptError,
}

/// Text logged for an APIC error.
pub open spec fn apic_error_text(e: ApicError) -> Seq<char> {
    match e {
        ApicError::IllegalVectorSend => "Illegal Vector (Send)"@,
        ApicError::IllegalVectorReceive => "Illegal Vector (Receive)"@,
        ApicError::SendIllegalVector => "Send Illegal Vector"@,
        ApicError::ReceiveAcceptError => "Receive Accept Error"@,
        ApicError::SendAcceptError => "Send Accept Error"@,
    }
}

/// The text logged for each error, letter by letter.
pub proof fn lemma_apic_error_texts()
    ensures
        apic_error_text(ApicError::IllegalVectorSend) == seq!['I', 'l', 'l', 'e', 'g', 'a', 'l', ' ', 'V', 'e', 'c', 't', 'o', 'r', ' ', '(', 'S', 'e', 'n', 'd', ')'],
        apic_error_text(ApicError::IllegalVectorReceive) == seq!['I', 'l', 'l', 'e', 'g', 'a', 'l', ' ', 'V', 'e', 'c', 't', 'o', 'r', ' ', '(', 'R', 'e', 'c', 'e', 'i', 'v', 'e', ')'],
        apic_error_text(ApicError::SendIllegalVector) == seq!['S', 'e', 'n', 'd', ' ', 'I', 'l', 'l', 'e', 'g', 'a', 'l', ' ', 'V', 'e', 'c', 't', 'o', 'r'],
        apic_error_text(ApicError::ReceiveAcceptError) == seq!['R', 'e', 'c', 'e', 'i', 'v', 'e', ' ', 'A', 'c', 'c', 'e', 'p', 't', ' ', 'E', 'r', 'r', 'o', 'r'],
        apic_error_text(ApicError::SendAcceptError) == seq!['S', 'e', 'n', 'd', ' ', 'A', 'c', 'c', 'e', 'p', 't', ' ', 'E', 'r', 'r', 'o', 'r'],
{
    reveal_strlit("Illegal Vector (Send)");
    assert(seq!['I', 'l', 'l', 'e', 'g', 'a', 'l', ' ', 'V', 'e', 'c', 't', 'o', 'r', ' ', '(', 'S', 'e', 'n', 'd', ')'] =~= "Illegal Vector (Send)"@);
    reveal_strlit("Illegal Vector (Receive)");
    assert(seq!['I', 'l', 'l', 'e', 'g', 'a', 'l', ' ', 'V', 'e', 'c', 't', 'o', 'r', ' ', '(', 'R', 'e', 'c', 'e', 'i', 'v', 'e', ')'] =~= "Illegal Vector (Receive)"@);
    reveal_strlit("Send Illegal Vector");
    assert(seq!['S', 'e', 'n', 'd', ' ', 'I', 'l', 'l', 'e', 'g', 'a', 'l', ' ', 'V', 'e', 'c', 't', 'o', 'r'] =~= "Send Illegal Vector"@);
    reveal_strlit("Receive Accept Error");
    assert(seq!['R', 'e', 'c', 'e', 'i', 'v', 'e', ' ', 'A', 'c', 'c', 'e', 'p', 't', ' ', 'E', 'r', 'r', 'o', 'r'] =~= "Receive Accept Error"@);
    reveal_strlit("Send Accept Error");
    assert(seq!['S', 'e', 'n', 'd', ' ', 'A', 'c', 'c', 'e', 'p', 't', ' ', 'E', 'r', 'r', 'o', 'r'] =~= "Send Accept Error"@);
}

impl ApicError {
    /// Text logged for the error.
    pub fn message(&self) -> (r: &'static str)
        ensures
            r@ == apic_error_text(*self),
    {
        match self {
            ApicError::IllegalVectorSend => "Illegal Vector (Send)",
            ApicError::IllegalVectorReceive => "Illegal Vector (Receive)",
            ApicError::SendIllegalVector => "Send Illegal Vector",
            ApicError::ReceiveAcceptError => "Receive Accept Error",
            ApicError::SendAcceptError => "Send Accept Error",
        }
    }
}

/// The errors an error status reports, in the order they are logged:
/// bits 7, 6, 5, 3 and 2.
pub open spec fn esr_errors(esr: u32) -> Seq<ApicError> {
    (if esr & 0x80 != 0 { seq![ApicError::IllegalVectorSend] } else { seq![] })
    + (if esr & 0x40 != 0 { seq![ApicError::IllegalVectorReceive] } else { seq![] })
    + (if esr & 0x20 != 0 { seq![ApicError::SendIllegalVector] } else { seq![] })
    + (if esr & 0x08 != 0 { seq![ApicError::ReceiveAcceptError] } else { seq![] })
    + (if esr & 0x04 != 0 { seq![ApicError::SendAcceptError] } else { seq![] })
}

/// A list of at most one error holds `y` exactly when it is that error.
proof fn lemma_at_most_one(flag: bool, x: ApicError, y: ApicError)
    ensures
        (if flag { seq![x] } else { Seq::<ApicError>::empty() }).contains(y) <==> (flag && x == y),
{
    if flag {
        assert(seq![x][0] == x);
    }
}

/// Five lists joined hold `x` exactly when one of them does.
proof fn lemma_contains5(a: Seq<ApicError>, b: Seq<ApicError>, c: Seq<ApicError>, d: Seq<ApicError>, e: Seq<ApicError>, x: ApicError)
    ensures
        (a + b + c + d + e).contains(x) <==> (a.contains(x) || b.contains(x) || c.contains(x) || d.contains(x) || e.contains(x)),
{
    let s = a + b + c + d + e;
    if s.contains(x) {
        let k = choose|k: int| 0 <= k < s.len() && s[k] == x;
        if k < a.len() {
            assert(a[k] == x);
        } else if k < a.len() + b.len() {
            assert(b[k - a.len()] == x);
        } else if k < a.len() + b.len() + c.len() {
            assert(c[k - a.len() - b.len()] == x);
        } else if k < a.len() + b.len() + c.len() + d.len() {
            assert(d[k - a.len() - b.len() - c.len()] == x);
        } else {
            assert(e[k - a.len() - b.len() - c.len() - d.len()] == x);
        }
    }
    if a.contains(x) {
        let k = choose|k: int| 0 <= k < a.len() && a[k] == x;
        assert(s[k] == x);
    }
    if b.contains(x) {
        let k = choose|k: int| 0 <= k < b.len() && b[k] == x;
        assert(s[a.len() + k] == x);
    }
    if c.contains(x) {
        let k = choose|k: int| 0 <= k < c.len() && c[k] == x;
        assert(s[a.len() + b.len() + k] == x);
    }
    if d.contains(x) {
        let k = choose|k: int| 0 <= k < d.len() && d[k] == x;
        assert(s[a.len() + b.len() + c.len() + k] == x);
    }
    if e.contains(x) {
        let k = choose|k: int| 0 <= k < e.len() && e[k] == x;
        assert(s[a.len() + b.len() + c.len() + d.len() + k] == x);
    }
}

/// Bit of the error status register that reports an error.
pub open spec fn esr_bit(e: ApicError) -> nat {
    match e {
        ApicError::IllegalVectorSend => 7,
        ApicError::IllegalVectorReceive => 6,
        ApicError::SendIllegalVector => 5,
        ApicError::ReceiveAcceptError => 3,
        ApicError::SendAcceptError => 2,
    }
}

proof fn lemma_esr_order(a: Seq<ApicError>, b: Seq<ApicError>, c: Seq<ApicError>, d: Seq<ApicError>, e: Seq<ApicError>)
    requires
        a.len() <= 1 && (a.len() == 1 ==> esr_bit(a[0]) == 7),
        b.len() <= 1 && (b.len() == 1 ==> esr_bit(b[0]) == 6),
        c.len() <= 1 && (c.len() == 1 ==> esr_bit(c[0]) == 5),
        d.len() <= 1 && (d.len() == 1 ==> esr_bit(d[0]) == 3),
        e.len() <= 1 && (e.len() == 1 ==> esr_bit(e[0]) == 2),
    ensures
        forall|i: int, j: int|
            0 <= i < j < (a + b + c + d + e).len() ==> esr_bit(#[trigger] (a + b + c + d + e)[i]) > esr_bit(
                #[trigger] (a + b + c + d + e)[j],
            ),
{
    let s = a + b + c + d + e;
    let la = a.len() as int;
    let lb = la + b.len();
    let lc = lb + c.len();
    let ld = lc + d.len();
    assert forall|k: int| 0 <= k < s.len() implies esr_bit(#[trigger] s[k]) == (if k < la {
        7nat
    } else if k < lb {
        6nat
    } else if k < lc {
        5nat
    } else if k < ld {
        3nat
    } else {
        2nat
    }) by {
        if k < la {
            assert(s[k] == a[k]);
        } else if k < lb {
            assert(s[k] == b[k - la]);
        } else if k < lc {
            assert(s[k] == c[k - lb]);
        } else if k < ld {
            assert(s[k] == d[k - lc]);
        } else {
            assert(s[k] == e[k - ld]);
        }
    }
}

/// Each error of the error status register comes from its own bit: the
/// illegal vector sent from bit 7, received from bit 6, the illegal vector
/// send from bit 5, the receive accept error from bit 3 and the send accept
/// error from bit 2; nothing else is listed.
pub proof fn lemma_esr_bits(esr: u32)
    ensures
        esr_errors(esr).contains(ApicError::IllegalVectorSend) <==> (esr / 128) % 2 == 1,
        esr_errors(esr).contains(ApicError::IllegalVectorReceive) <==> (esr / 64) % 2 == 1,
        esr_errors(esr).contains(ApicError::SendIllegalVector) <==> (esr / 32) % 2 == 1,
        esr_errors(esr).contains(ApicError::ReceiveAcceptError) <==> (esr / 8) % 2 == 1,
        esr_errors(esr).contains(ApicError::SendAcceptError) <==> (esr / 4) % 2 == 1,
        esr_errors(esr).len() == (esr / 128) % 2 + (esr / 64) % 2 + (esr / 32) % 2 + (esr / 8) % 2 + (esr / 4) % 2,
        forall|i: int, j: int|
            0 <= i < j < esr_errors(esr).len() ==> esr_bit(#[trigger] esr_errors(esr)[i]) > esr_bit(#[trigger] esr_errors(esr)[j]),
{
    assert((esr & 0x80 != 0) <==> (esr / 128) % 2 == 1) by (bit_vector);
    assert((esr & 0x40 != 0) <==> (esr / 64) % 2 == 1) by (bit_vector);
    assert((esr & 0x20 != 0) <==> (esr / 32) % 2 == 1) by (bit_vector);
    assert((esr & 0x08 != 0) <==> (esr / 8) % 2 == 1) by (bit_vector);
    assert((esr & 0x04 != 0) <==> (esr / 4) % 2 == 1) by (bit_vector);
    let a = if esr & 0x80 != 0 { seq![ApicError::IllegalVectorSend] } else { Seq::<ApicError>::empty() };
    let b = if esr & 0x40 != 0 { seq![ApicError::IllegalVectorReceive] } else { Seq::<ApicError>::empty() };
    let c = if esr & 0x20 != 0 { seq![ApicError::SendIllegalVector] } else { Seq::<ApicError>::empty() };
    let d = if esr & 0x08 != 0 { seq![ApicError::ReceiveAcceptError] } else { Seq::<ApicError>::empty() };
    let e = if esr & 0x04 != 0 { seq![ApicError::SendAcceptError] } else { Seq::<ApicError>::empty() };
    assert(esr_errors(esr) =~= a + b + c + d + e);
    lemma_esr_order(a, b, c, d, e);
    lemma_at_most_one(esr & 0x80 != 0, ApicError::IllegalVectorSend, ApicError::IllegalVectorSend);
    lemma_at_most_one(esr & 0x80 != 0, ApicError::IllegalVectorSend, ApicError::IllegalVectorReceive);
    lemma_at_most_one(esr & 0x80 != 0, ApicError::IllegalVectorSend, ApicError::SendIllegalVector);
    lemma_at_most_one(esr & 0x80 != 0, ApicError::IllegalVectorSend, ApicError::ReceiveAcceptError);
    lemma_at_most_one(esr & 0x80 != 0, ApicError::IllegalVectorSend, ApicError::SendAcceptError);
    lemma_at_most_one(esr & 0x40 != 0, ApicError::IllegalVectorReceive, ApicError::IllegalVectorSend);
    lemma_at_most_one(esr & 0x40 != 0, ApicError::IllegalVectorReceive, ApicError::IllegalVectorReceive);
    lemma_at_most_one(esr & 0x40 != 0, ApicError::IllegalVectorReceive, ApicError::SendIllegalVector);
    lemma_at_most_one(esr & 0x40 != 0, ApicError::IllegalVectorReceive, ApicError::ReceiveAcceptError);
    lemma_at_most_one(esr & 0x40 != 0, ApicError::IllegalVectorReceive, ApicError::SendAcceptError);
    lemma_at_most_one(esr & 0x20 != 0, ApicError::SendIllegalVector, ApicError::IllegalVectorSend);
    lemma_at_most_one(esr & 0x20 != 0, ApicError::SendIllegalVector, ApicError::IllegalVectorReceive);
    lemma_at_most_one(esr & 0x20 != 0, ApicError::SendIllegalVector, ApicError::SendIllegalVector);
    lemma_at_most_one(esr & 0x20 != 0, ApicError::SendIllegalVector, ApicError::ReceiveAcceptError);
    lemma_at_most_one(esr & 0x20 != 0, ApicError::SendIllegalVector, ApicError::SendAcceptError);
    lemma_at_most_one(esr & 0x08 != 0, ApicError::ReceiveAcceptError, ApicError::IllegalVectorSend);
    lemma_at_most_one(esr & 0x08 != 0, ApicError::ReceiveAcceptError, ApicError::IllegalVectorReceive);
    lemma_at_most_one(esr & 0x08 != 0, ApicError::ReceiveAcceptError, ApicError::SendIllegalVector);
    lemma_at_most_one(esr & 0x08 != 0, ApicError::ReceiveAcceptError, ApicError::ReceiveAcceptError);
    lemma_at_most_one(esr & 0x08 != 0, ApicError::ReceiveAcceptError, ApicError::SendAcceptError);
    lemma_at_most_one(esr & 0x04 != 0, ApicError::SendAcceptError, ApicError::IllegalVectorSend);
    lemma_at_most_one(esr & 0x04 != 0, ApicError::SendAcceptError, ApicError::IllegalVectorReceive);
    lemma_at_most_one(esr & 0x04 != 0, ApicError::SendAcceptError, ApicError::SendIllegalVector);
    lemma_at_most_one(esr & 0x04 != 0, ApicError::SendAcceptError, ApicError::ReceiveAcceptError);
    lemma_at_most_one(esr & 0x04 != 0, ApicError::SendAcceptError, ApicError::SendAcceptError);
    lemma_contains5(a, b, c, d, e, ApicError::IllegalVectorSend);
    lemma_contains5(a, b, c, d, e, ApicError::IllegalVectorReceive);
    lemma_contains5(a, b, c, d, e, ApicError::SendIllegalVector);
    lemma_contains5(a, b, c, d, e, ApicError::ReceiveAcceptError);
    lemma_contains5(a, b, c, d, e, ApicError::SendAcceptError);
}

/// The errors to log for the error status `esr`.
pub fn log_apic_error(esr: u32) -> (r: Vec<ApicError>)
    ensures
        r@ == esr_errors(esr),
{
    let mut r: Vec<ApicError> = Vec::new();
    if esr == 0 {
        assert(esr & 0x80 == 0 && esr & 0x40 == 0 && esr & 0x20 == 0 && esr & 0x08 == 0 && esr & 0x04 == 0) by (bit_vector)
            requires
                esr == 0u32,
        ;
        assert(r@ =~= esr_errors(esr));
        return r;
    }
    if esr & 0x80u32 != 0 {
        r.push(ApicError::IllegalVectorSend);
    }
    if esr & 0x40u32 != 0 {
        r.push(ApicError::IllegalVectorReceive);
    }
    if esr & 0x20u32 != 0 {
        r.push(ApicError::SendIllegalVector);
    }
    if esr & 0x08u32 != 0 {
        r.push(ApicError::ReceiveAcceptError);
    }
    if esr & 0x04u32 != 0 {
        r.push(ApicError::SendAcceptError);
    }
    assert(r@ =~= esr_errors(esr));
    r
}

/// End of interrupt.
pub fn send_eoi(x2apic: bool) -> (r: Option<ApicWrite>)
    ensures
        r == Some(apic_write(x2apic, APIC_REG_EOI, 0)),
{
    write_apic(x2apic, APIC_REG_EOI, 0)
}

/// Writes that send the interrupt command `cmd` to the processor with APIC
/// id `apic_id`: one 64-bit MSR write in x2APIC mode; in xAPIC mode the
/// destination (in bits 24..=31 of the high half) and then the low half.
pub open spec fn ipi_writes(x2apic: bool, apic_id: u32, cmd: u64) -> Seq<ApicWrite> {
    if x2apic {
        seq![ApicWrite::Msr { msr: X2APIC_MSR_ICR, value: (apic_id as u64 * 0x1_0000_0000 + cmd) as u64 }]
    } else {
        seq![
            apic_write(false, APIC_REG_ICR_HIGH, ((apic_id as nat * 0x100_0000) % 0x1_0000_0000) as u32),
            apic_write(false, APIC_REG_ICR_LOW, (cmd % 0x1_0000_0000) as u32),
        ]
    }
}

fn ipi(x2apic: bool, apic_id: u32, cmd: u64) -> (r: Vec<ApicWrite>)
    requires
        cmd < 0x1_0000_0000,
    ensures
        r@ == ipi_writes(x2apic, apic_id, cmd),
{
    let mut r: Vec<ApicWrite> = Vec::new();
    if x2apic {
        let v = ((apic_id as u64) << 32u64) | cmd;
        assert(v == apic_id as u64 * 0x1_0000_0000 + cmd) by (bit_vector)
            requires
                v == ((apic_id as u64) << 32u64) | cmd,
                cmd < 0x1_0000_0000u64,
        ;
        r.push(ApicWrite::Msr { msr: X2APIC_MSR_ICR, value: v });
    } else {
        let high = apic_id << 24u32;
        assert(high == ((apic_id as nat * 0x100_0000) % 0x1_0000_0000) as u32) by (bit_vector)
            requires
                high == apic_id << 24u32,
        ;
        let low = cmd as u32;
        assert(low == (cmd % 0x1_0000_0000) as u32) by (bit_vector)
            requires
                low == cmd as u32,
        ;
        match write_apic(false, APIC_REG_ICR_HIGH, high) {
            Some(w) => r.push(w),
            None => {},
        }
        match write_apic(false, APIC_REG_ICR_LOW, low) {
            Some(w) => r.push(w),
            None => {},
        }
    }
    assert(r@ =~= ipi_writes(x2apic, apic_id, cmd));
    r
}

/// A fixed interrupt with vector `vector` to processor `apic_id`.
pub fn send_fixed_ipi(x2apic: bool, apic_id: u32, vector: u8) -> (r: Vec<ApicWrite>)
    ensures
        r@ == ipi_writes(x2apic, apic_id, (ICR_FIXED | ICR_ASSERT | vector as u64)),
{
    let cmd = ICR_FIXED | ICR_ASSERT | (vector as u64);
    assert(cmd < 0x1_0000_0000) by (bit_vector)
        requires
            cmd == 0x000u64 | 0x4000u64 | (vector as u64),
    ;
    ipi(x2apic, apic_id, cmd)
}

/// An INIT interrupt to processor `apic_id`.
pub fn send_init_ipi(x2apic: bool, apic_id: u32) -> (r: Vec<ApicWrite>)
    ensures
        r@ == ipi_writes(x2apic, apic_id, (ICR_INIT | ICR_ASSERT)),
{
    let cmd = ICR_INIT | ICR_ASSERT;
    assert(cmd < 0x1_0000_0000) by (bit_vector)
        requires
            cmd == 0x500u64 | 0x4000u64,
    ;
    ipi(x2apic, apic_id, cmd)
}

/// A start-up interrupt with start page `vector` to processor `apic_id`.
pub fn send_sipi(x2apic: bool, apic_id: u32, vector: u8) -> (r: Vec<ApicWrite>)
    ensures
        r@ == ipi_writes(x2apic, apic_id, (ICR_STARTUP | vector as u64)),
{
    let cmd = ICR_STARTUP | (vector as u64);
    assert(cmd < 0x1_0000_0000) by (bit_vector)
        requires
            cmd == 0x600u64 | (vector as u64),
    ;
    ipi(x2apic, apic_id, cmd)
}

/// An interrupt to every processor but this one, with the delivery mode
/// bits `mode_flags` and vector `vector`. In xAPIC mode the sender then waits
/// until the command register no longer reports the delivery as pending.
pub fn broadcast_ipi_exc_self(x2apic: bool, mode_flags: u64, vector: u8) -> (r: Vec<ApicWrite>)
    ensures
        x2apic ==> r@ == seq![ApicWrite::Msr { msr: X2APIC_MSR_ICR, value: ICR_DEST_ALL_EXC_SELF | mode_flags | vector as u64 }],
        !x2apic ==> r@ == seq![
            apic_write(false, APIC_REG_ICR_HIGH, 0),
            apic_write(false, APIC_REG_ICR_LOW, ((ICR_DEST_ALL_EXC_SELF | mode_flags | vector as u64) % 0x1_0000_0000) as u32),
        ],
{
    let cmd = ICR_DEST_ALL_EXC_SELF | mode_flags | (vector as u64);
    let mut r: Vec<ApicWrite> = Vec::new();
    if x2apic {
        r.push(ApicWrite::Msr { msr: X2APIC_MSR_ICR, value: cmd });
    } else {
        let low = cmd as u32;
        assert(low == (cmd % 0x1_0000_0000) as u32) by (bit_vector)
            requires
                low == cmd as u32,
        ;
        r.push(ApicWrite::Mmio { addr: XAPIC_BASE_ADDR + APIC_REG_ICR_HIGH as u64, value: 0 });
        r.push(ApicWrite::Mmio { addr: XAPIC_BASE_ADDR + APIC_REG_ICR_LOW as u64, value: low });
    }
    assert(x2apic ==> r@ =~= seq![ApicWrite::Msr { msr: X2APIC_MSR_ICR, value: cmd }]);
    assert(!x2apic ==> r@ =~= seq![
        apic_write(false, APIC_REG_ICR_HIGH, 0),
        apic_write(false, APIC_REG_ICR_LOW, (cmd % 0x1_0000_0000) as u32),
    ]);
    r
}

/// An INIT interrupt to every processor but this one.
pub fn broadcast_init_ipi_exc_self(x2apic: bool) -> (r: Vec<ApicWrite>)
    ensures
        x2apic ==> r@ == seq![ApicWrite::Msr { msr: X2APIC_MSR_ICR, value: ICR_DEST_ALL_EXC_SELF | (ICR_INIT | ICR_LEVEL_ASSERT) | 0u64 }],
        !x2apic ==> r@ == seq![
            apic_write(false, APIC_REG_ICR_HIGH, 0),
            apic_write(false, APIC_REG_ICR_LOW, ((ICR_DEST_ALL_EXC_SELF | (ICR_INIT | ICR_LEVEL_ASSERT) | 0u64) % 0x1_0000_0000) as u32),
        ],
{
    let delivery_mode = ICR_INIT | ICR_LEVEL_ASSERT;
    broadcast_ipi_exc_self(x2apic, delivery_mode, 0)
}

/// The interrupt command is still being delivered (bit 12 of the low half).
pub fn icr_delivery_pending(icr_low: u32) -> (r: bool)
    ensures
        r == (icr_low & 0x1000 != 0),
{
    (icr_low & 0x1000u32) != 0
}

/// APIC base MSR value that enables the APIC (bit 11), and x2APIC mode
/// (bit 10) when the processor supports it.
pub fn apic_base_enabled(base_msr: u64, x2_supported: bool) -> (r: u64)
    ensures
        r == if x2_supported {
            base_msr | 0x800 | 0x400
        } else {
            base_msr | 0x800
        },
{
    let mut base = base_msr | 0x800u64;
    if x2_supported {
        base = base | 0x400u64;
    }
    base
}

/// A local vector table entry with its mask bit (16) set.
pub fn masked_lvt(value: u32) -> (r: u32)
    ensures
        r == value | 0x10000,
{
    value | 0x10000u32
}

/// Register writes of the local APIC setup, given the values the six local
/// vector table registers held: clear the error status twice, mask every
/// local vector table entry, accept all priorities, enable the APIC with the
/// spurious vector, and route APIC errors to the error vector.
pub open spec fn init_writes(x2apic: bool, lvt: Seq<u32>) -> Seq<ApicWrite> {
    seq![
        apic_write(x2apic, APIC_REG_ESR, 0),
        apic_write(x2apic, APIC_REG_ESR, 0),
        apic_write(x2apic, lvt_reg(0), lvt[0] | 0x10000),
        apic_write(x2apic, lvt_reg(1), lvt[1] | 0x10000),
        apic_write(x2apic, lvt_reg(2), lvt[2] | 0x10000),
        apic_write(x2apic, lvt_reg(3), lvt[3] | 0x10000),
        apic_write(x2apic, lvt_reg(4), lvt[4] | 0x10000),
        apic_write(x2apic, lvt_reg(5), lvt[5] | 0x10000),
        apic_write(x2apic, APIC_REG_TPR, 0),
        apic_write(x2apic, APIC_REG_SVR, 0x100 | SPURIOUS_VECTOR as u32),
        apic_write(x2apic, APIC_REG_LVT_ERROR, ERROR_VECTOR as u32),
    ]
}

/// The register writes of the local APIC setup.
pub fn init_local_apic(x2apic: bool, lvt: &[u32; 6]) -> (r: Vec<ApicWrite>)
    ensures
        r@ == init_writes(x2apic, lvt@),
{
    let mut r: Vec<ApicWrite> = Vec::new();
    let lvt_regs: [u32; 6] = [0x320, 0x330, 0x340, 0x350, 0x360, 0x370];
    match write_apic(x2apic, APIC_REG_ESR, 0) {
        Some(w) => r.push(w),
        None => {},
    }
    match write_apic(x2apic, APIC_REG_ESR, 0) {
        Some(w) => r.push(w),
        None => {},
    }
    let mut i: usize = 0;
    while i < 6
        invariant
            i <= 6,
            lvt_regs@ == seq![0x320u32, 0x330, 0x340, 0x350, 0x360, 0x370],
            r@.len() == 2 + i,
            forall|k: int| 0 <= k < 2 + i ==> #[trigger] r@[k] == init_writes(x2apic, lvt@)[k],
        decreases 6 - i,
    {
        assert(lvt_regs@[i as int] == lvt_reg(i as int));
        match write_apic(x2apic, lvt_regs[i], masked_lvt(lvt[i])) {
            Some(w) => r.push(w),
            None => {},
        }
        i += 1;
    }
    match write_apic(x2apic, APIC_REG_TPR, 0) {
        Some(w) => r.push(w),
        None => {},
    }
    match write_apic(x2apic, APIC_REG_SVR, 0x100u32 | (SPURIOUS_VECTOR as u32)) {
        Some(w) => r.push(w),
        None => {},
    }
    match write_apic(x2apic, APIC_REG_LVT_ERROR, ERROR_VECTOR as u32) {
        Some(w) => r.push(w),
        None => {},
    }
    assert(r@ =~= init_writes(x2apic, lvt@));
    r
}

} // verus!
