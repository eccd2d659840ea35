use kernel_core::apic::{
    apic_base_enabled, broadcast_init_ipi_exc_self, icr_delivery_pending, init_local_apic,
    is_x2apic_active, log_apic_error, masked_lvt, read_apic, read_esr, send_eoi, send_fixed_ipi,
    send_init_ipi, send_sipi, write_apic, ApicError, ApicRead, ApicWrite,
};

#[test]
fn apic_register_locations() {
    assert!(is_x2apic_active(0x400));
    assert!(!is_x2apic_active(0x800));
    assert_eq!(write_apic(true, 0xB0, 0), Some(ApicWrite::Msr { msr: 0x80B, value: 0 }));
    assert_eq!(write_apic(true, 0x310, 5), None);
    assert_eq!(write_apic(false, 0x310, 5), Some(ApicWrite::Mmio { addr: 0xFEE00310, value: 5 }));
    assert_eq!(read_apic(true, 0x310), ApicRead::Zero);
    assert_eq!(read_apic(true, 0x300), ApicRead::Msr(0x830));
    assert_eq!(read_apic(false, 0x80), ApicRead::Mmio(0xFEE00080));
    assert_eq!(send_eoi(false), Some(ApicWrite::Mmio { addr: 0xFEE000B0, value: 0 }));
}

#[test]
fn apic_error_status() {
    assert_eq!(log_apic_error(0), vec![]);
    assert_eq!(
        log_apic_error(0xEC),
        vec![
            ApicError::IllegalVectorSend,
            ApicError::IllegalVectorReceive,
            ApicError::SendIllegalVector,
            ApicError::ReceiveAcceptError,
            ApicError::SendAcceptError
        ]
    );
    assert_eq!(log_apic_error(0x13), vec![]);
    assert_eq!(log_apic_error(0x40), vec![ApicError::IllegalVectorReceive]);
    assert_eq!(ApicError::SendAcceptError.message(), "Send Accept Error");
    assert_eq!(
        read_esr(true),
        (ApicWrite::Msr { msr: 0x828, value: 0 }, ApicRead::Msr(0x828))
    );
}

#[test]
fn apic_interprocessor_interrupts() {
    assert_eq!(send_fixed_ipi(true, 3, 0x40), vec![ApicWrite::Msr { msr: 0x830, value: (3u64 << 32) | 0x4040 }]);
    assert_eq!(
        send_fixed_ipi(false, 3, 0x40),
        vec![
            ApicWrite::Mmio { addr: 0xFEE00310, value: 3 << 24 },
            ApicWrite::Mmio { addr: 0xFEE00300, value: 0x4040 }
        ]
    );
    assert_eq!(send_init_ipi(true, 1), vec![ApicWrite::Msr { msr: 0x830, value: (1u64 << 32) | 0x4500 }]);
    assert_eq!(
        send_sipi(false, 0x1FF, 0x08),
        vec![
            ApicWrite::Mmio { addr: 0xFEE00310, value: 0xFF00_0000 },
            ApicWrite::Mmio { addr: 0xFEE00300, value: 0x608 }
        ]
    );
    assert_eq!(broadcast_init_ipi_exc_self(true), vec![ApicWrite::Msr { msr: 0x830, value: 0xC4500 }]);
    assert_eq!(
        broadcast_init_ipi_exc_self(false),
        vec![
            ApicWrite::Mmio { addr: 0xFEE00310, value: 0 },
            ApicWrite::Mmio { addr: 0xFEE00300, value: 0xC4500 }
        ]
    );
    assert!(icr_delivery_pending(0x1000));
    assert!(!icr_delivery_pending(0x0FFF));
}

#[test]
fn apic_setup() {
    assert_eq!(apic_base_enabled(0xFEE00000, false), 0xFEE00800);
    assert_eq!(apic_base_enabled(0xFEE00000, true), 0xFEE00C00);
    assert_eq!(masked_lvt(0x20), 0x10020);
    let w = init_local_apic(true, &[0, 1, 2, 3, 4, 5]);
    assert_eq!(w.len(), 11);
    assert_eq!(w[0], ApicWrite::Msr { msr: 0x828, value: 0 });
    assert_eq!(w[2], ApicWrite::Msr { msr: 0x832, value: 0x10000 });
    assert_eq!(w[7], ApicWrite::Msr { msr: 0x837, value: 0x10005 });
    assert_eq!(w[8], ApicWrite::Msr { msr: 0x808, value: 0 });
    assert_eq!(w[9], ApicWrite::Msr { msr: 0x80F, value: 0x1FF });
    assert_eq!(w[10], ApicWrite::Msr { msr: 0x837, value: 0xFE });
    let x = init_local_apic(false, &[7; 6]);
    assert_eq!(x[9], ApicWrite::Mmio { addr: 0xFEE000F0, value: 0x1FF });
}
