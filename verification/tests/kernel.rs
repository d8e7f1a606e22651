use cardboard::mem::{MemoryData, MemoryDescriptor, MemoryEntry, MemoryManager};
use cardboard::syscall::{AccessSize, BCRegistryEntryInfoType, KernelMessage, SystemCall, SystemCallStatus};

#[test]
fn status_as_result_is_ok_only_on_success() {
    assert_eq!(SystemCallStatus::Success.as_result(), Ok(()));
    assert_eq!(
        SystemCallStatus::InvalidRequest.as_result(),
        Err(SystemCallStatus::InvalidRequest)
    );
    assert_eq!(
        SystemCallStatus::MalformedData.as_result(),
        Err(SystemCallStatus::MalformedData)
    );
    assert_eq!(
        SystemCallStatus::UnknownRequest.as_result(),
        Err(SystemCallStatus::UnknownRequest)
    );
    assert_eq!(SystemCallStatus::NotFound.as_result(), Err(SystemCallStatus::NotFound));
}

#[test]
fn status_register_encoding_round_trips() {
    let all = [
        SystemCallStatus::Success,
        SystemCallStatus::InvalidRequest,
        SystemCallStatus::MalformedData,
        SystemCallStatus::UnknownRequest,
        SystemCallStatus::NotFound,
    ];
    for (i, s) in all.iter().enumerate() {
        assert_eq!(s.as_raw(), i as u64);
        assert_eq!(SystemCallStatus::from_raw(i as u64), Some(*s));
    }
    assert_eq!(SystemCallStatus::from_raw(5), None);
    assert_eq!(SystemCallStatus::from_raw(u64::MAX), None);
}

#[test]
fn system_call_register_encoding_round_trips() {
    let all = [
        SystemCall::KPrint,
        SystemCall::ReceiveMessage,
        SystemCall::SendMessage,
        SystemCall::Exit,
        SystemCall::Skip,
        SystemCall::RegisterProvider,
        SystemCall::GetProvidingProcess,
        SystemCall::PortIn,
        SystemCall::PortOut,
        SystemCall::RegisterIRQHandler,
        SystemCall::Allocate,
        SystemCall::Free,
        SystemCall::Ack,
        SystemCall::GetRegistryEntryInfo,
    ];
    for (i, c) in all.iter().enumerate() {
        assert_eq!(c.as_raw(), i as u64);
        assert_eq!(SystemCall::from_raw(i as u64), Some(*c));
    }
    assert_eq!(SystemCall::from_raw(14), None);
}

#[test]
fn access_size_and_registry_query_encodings() {
    assert_eq!(AccessSize::Byte.as_raw(), 0);
    assert_eq!(AccessSize::Word.as_raw(), 1);
    assert_eq!(AccessSize::DWord.as_raw(), 2);
    assert_eq!(AccessSize::from_raw(2), Some(AccessSize::DWord));
    assert_eq!(AccessSize::from_raw(3), None);
    assert_eq!(BCRegistryEntryInfoType::Parent.as_raw(), 0);
    assert_eq!(BCRegistryEntryInfoType::PropertyNamed.as_raw(), 1);
    assert_eq!(
        BCRegistryEntryInfoType::from_raw(1),
        Some(BCRegistryEntryInfoType::PropertyNamed)
    );
    assert_eq!(BCRegistryEntryInfoType::from_raw(2), None);
}

#[test]
fn syscall_message_new_keeps_fields() {
    let m = cardboard::syscall::Message::new(3, 9, b"payload");
    assert_eq!(m.id, 3);
    assert_eq!(m.proc_id, 9);
    assert_eq!(m.data, b"payload");
}

#[test]
fn userspace_message_new_keeps_fields() {
    let m = cardboard::msg::Message::new(0, 12, b"ping");
    assert_eq!(m.id, 0);
    assert_eq!(m.pid, 12);
    assert_eq!(m.data, b"ping");
}

#[test]
fn kernel_message_carries_irq_line() {
    let m = KernelMessage::IRQFired(7);
    assert_eq!(m, KernelMessage::IRQFired(7));
    assert_ne!(m, KernelMessage::IRQFired(8));
    let u = cardboard::msg::KernelMessage::IRQFired(7);
    assert!(matches!(u, cardboard::msg::KernelMessage::IRQFired(7)));
}

#[test]
fn conventional_memory_is_usable() {
    let mm = MemoryManager::new();
    let desc = MemoryDescriptor { ty: 7, phys_start: 0x10_0000, page_count: 4 };
    assert_eq!(
        mm.mem_type_from_desc(&desc),
        Some(MemoryEntry::Usable(MemoryData { base: 0x10_0000, length: 0x4000 }))
    );
}

#[test]
fn tables_memory_is_reclaimable_after_parsing() {
    let mm = MemoryManager::new();
    let desc = MemoryDescriptor { ty: 9, phys_start: 0x8000, page_count: 1 };
    assert_eq!(
        mm.mem_type_from_desc(&desc),
        Some(MemoryEntry::ACPIReclaimable(MemoryData { base: 0x8000, length: 0x1000 }))
    );
}

#[test]
fn other_memory_types_are_dropped() {
    let mm = MemoryManager::new();
    for ty in [0u32, 3, 4, 5, 6, 8, 10] {
        let desc = MemoryDescriptor { ty, phys_start: 0, page_count: 1 };
        assert_eq!(mm.mem_type_from_desc(&desc), None);
    }
}

#[test]
fn loader_memory_without_kept_region_is_reclaimable() {
    let mm = MemoryManager::new();
    for ty in [1u32, 2] {
        let desc = MemoryDescriptor { ty, phys_start: 0x2000, page_count: 2 };
        assert_eq!(
            mm.mem_type_from_desc(&desc),
            Some(MemoryEntry::BootLoaderReclaimable(MemoryData { base: 0x2000, length: 0x2000 }))
        );
    }
}

#[test]
fn loader_memory_is_trimmed_past_a_kept_region() {
    let mut mm = MemoryManager::new();
    mm.allocate((0x5000, 0x1000));
    let desc = MemoryDescriptor { ty: 1, phys_start: 0x4000, page_count: 4 };
    // The kept region tops out at 0x6000; the part above it stays
    // reclaimable, trimmed by the kept region's size.
    assert_eq!(
        mm.mem_type_from_desc(&desc),
        Some(MemoryEntry::BootLoaderReclaimable(MemoryData { base: 0x5000, length: 0x3000 }))
    );
}

#[test]
fn loader_memory_under_a_kept_region_top_is_dropped() {
    let mut mm = MemoryManager::new();
    mm.allocate((0x4000, 0x4000));
    let desc = MemoryDescriptor { ty: 2, phys_start: 0x4000, page_count: 4 };
    assert_eq!(mm.mem_type_from_desc(&desc), None);
}

#[test]
fn first_kept_region_in_order_decides() {
    let mut mm = MemoryManager::new();
    mm.allocate((0x9000, 0x1000));
    mm.allocate((0x4000, 0x4000));
    // Both cover the start address; the first recorded one is used, and the
    // descriptor tops out past it.
    let desc = MemoryDescriptor { ty: 1, phys_start: 0x4000, page_count: 8 };
    assert_eq!(
        mm.mem_type_from_desc(&desc),
        Some(MemoryEntry::BootLoaderReclaimable(MemoryData { base: 0x5000, length: 0x7000 }))
    );
}
