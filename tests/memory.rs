use mini_tokio::memory::{
    FixedSizePagedMemory, FlatMemory, Memory, Mode, PermissionMemory, Protected, ProtectedMemory,
    Translated,
};

#[test]
fn test_read_write() {
    let mut mem = FlatMemory {
        memory: vec![0; 1024],
    };

    // Test write
    assert_eq!(mem.write(0, 42), true);

    // Test read
    assert_eq!(mem.read(0), Some(42));

    // Test invalid address
    assert_eq!(mem.read(2000), None);
}

#[test]
fn test_handle_mode() {
    let mut protected_mem = ProtectedMemory {
        flat_memory: FlatMemory {
            memory: vec![0; 1024],
        },
        current_mode: Mode::Kernel,
    };

    let kernel_result = protected_mem.handle_mode(|_| "Kernel", |_| "User");
    assert_eq!(kernel_result, "Kernel");

    protected_mem.set_mode(Mode::User);

    let user_result = protected_mem.handle_mode(|_| "Kernel", |_| "User");
    assert_eq!(user_result, "User");
}

#[test]
fn test_read_write_protected_memory() {
    let mut protected_mem = ProtectedMemory {
        flat_memory: FlatMemory {
            memory: vec![0; 1024],
        },
        current_mode: Mode::Kernel,
    };

    // Test write in kernel mode
    assert_eq!(protected_mem.write(0, 42), true);

    // Test read in kernel mode
    assert_eq!(protected_mem.read(0), Some(42));

    // Test write in user mode
    protected_mem.set_mode(Mode::User);
    assert_eq!(protected_mem.write(0, 43), true);

    // Test read in user mode
    assert_eq!(protected_mem.read(0), Some(43));
}

#[test]
fn test_fixed_size_paged_memory() {
    let mut paged_mem = FixedSizePagedMemory::new(1024, 4);

    // Test write and read in kernel mode
    assert_eq!(paged_mem.write(16, 42), true);
    assert_eq!(paged_mem.read(16), Some(42));

    // Test write and read in user mode with valid address
    paged_mem.set_page(1);
    assert_eq!(paged_mem.read(0), Some(42));
}

#[test]
fn flat_memory_rejects_write_past_end() {
    let mut mem = FlatMemory { memory: vec![7; 4] };
    assert!(!mem.write(4, 1));
    assert_eq!(mem.memory, vec![7, 7, 7, 7]);
    assert!(mem.is_valid(3));
    assert!(!mem.is_valid(4));
    assert_eq!(mem.read(3), Some(7));
}

#[test]
fn handle_mode_runs_action_on_the_memory() {
    let mut mem = ProtectedMemory {
        flat_memory: FlatMemory { memory: vec![0; 8] },
        current_mode: Mode::User,
    };
    let ok = mem.handle_mode(|m| m.write(1, 10), |m| m.write(2, 20));
    assert!(ok);
    assert_eq!(mem.read(1), Some(0));
    assert_eq!(mem.read(2), Some(20));
}

#[test]
fn protected_memory_permits_and_maps_identically() {
    let mem = ProtectedMemory {
        flat_memory: FlatMemory { memory: vec![0; 8] },
        current_mode: Mode::Kernel,
    };
    assert!(mem.can_read(100));
    assert!(mem.can_write(100));
    assert!(mem.can_execute(100));
    assert_eq!(mem.translate(5), Some(5));
    assert_eq!(mem.read(8), None);
}

#[test]
fn paged_memory_kernel_writes_are_physical() {
    let mut mem = FixedSizePagedMemory::new(64, 3);
    assert!(mem.set_page(2));
    assert_eq!(mem.translate(5), Some(21));
    assert!(mem.write(5, 9));
    // the write went to physical address 5, the read to 21
    assert_eq!(mem.read(5), Some(0));
    assert!(mem.set_page(0));
    assert_eq!(mem.read(5), Some(9));
}

#[test]
fn paged_memory_set_page_out_of_range() {
    let mut mem = FixedSizePagedMemory::new(64, 2);
    assert!(mem.set_page(3));
    assert!(!mem.set_page(4));
    assert_eq!(mem.translate(1), Some(13));
}

#[test]
fn paged_memory_beyond_address_space() {
    let mut mem = FixedSizePagedMemory::new(16, 31);
    assert!(mem.set_page(2));
    assert_eq!(mem.translate(0), None);
    assert_eq!(mem.read(0), None);
    assert!(mem.write(0, 1));
    assert!(mem.set_page(1));
    assert_eq!(mem.translate(5), Some(0x8000_0005));
    assert_eq!(mem.read(5), None);
}
