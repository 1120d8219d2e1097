use fluxnet::allocator::UmemAllocator;
use fluxnet::builder::FluxBuilder;
use fluxnet::config::{poll_step, PollStep, Poller};
use fluxnet::error::FluxError;
use fluxnet::layout::UmemLayout;
use fluxnet::sim::{inject_packet, read_tx_packet};

#[test]
fn test_layout_arithmetic() {
    let layout = UmemLayout::new(2048, 16);
    assert_eq!(layout.size(), 2048 * 16);

    // addr -> idx on valid, aligned and unaligned addresses.
    assert_eq!(layout.addr_to_idx(0), Some(0));
    assert_eq!(layout.addr_to_idx(2048), Some(1));
    assert_eq!(layout.addr_to_idx(2049), Some(1));
    assert_eq!(layout.addr_to_idx(2048 * 16), None);

    // idx -> addr on valid and out-of-range indices.
    assert_eq!(layout.idx_to_addr(0), Some(0));
    assert_eq!(layout.idx_to_addr(15), Some(15 * 2048));
    assert_eq!(layout.idx_to_addr(16), None);

    // Round trip both ways.
    for i in 0..16u32 {
        let addr = layout.idx_to_addr(i).unwrap();
        assert_eq!(layout.addr_to_idx(addr), Some(i));
    }
}

#[test]
fn test_allocator_fifo() {
    let layout = UmemLayout::new(2048, 4);
    let mut alloc = UmemAllocator::new(layout);
    assert_eq!(alloc.available(), 4);
    assert_eq!(alloc.allocate(), Some(0));
    assert_eq!(alloc.allocate(), Some(2048));
    assert_eq!(alloc.available(), 2);
    alloc.release(0);
    assert_eq!(alloc.allocate(), Some(4096));
    assert_eq!(alloc.allocate(), Some(6144));
    // The released frame comes back last: first in, first out.
    assert_eq!(alloc.allocate(), Some(0));
    assert_eq!(alloc.allocate(), None);
}

#[test]
fn test_poll_step_strategies() {
    // Busy never pauses.
    assert_eq!(poll_step(Poller::Busy, 0, 1000), PollStep::Continue);
    assert_eq!(poll_step(Poller::Busy, 5, 0), PollStep::Continue);
    // Wait sleeps on every empty cycle.
    assert_eq!(poll_step(Poller::Wait, 0, 0), PollStep::Sleep);
    assert_eq!(poll_step(Poller::Wait, 3, 0), PollStep::Continue);
    // Adaptive yields within the spin window, sleeps beyond it.
    assert_eq!(poll_step(Poller::Adaptive, 2, 0), PollStep::Continue);
    assert_eq!(poll_step(Poller::Adaptive, 0, 50), PollStep::YieldNow);
    assert_eq!(poll_step(Poller::Adaptive, 0, 51), PollStep::Sleep);
}

#[test]
fn test_builder_rejects_bad_configuration() {
    // A frame count that is not a power of two is refused.
    let r = FluxBuilder::new("eth0").umem_pages(15).build_raw();
    assert!(matches!(r, Err(FluxError::InvalidConfiguration(_))));
    // A zero frame count is refused.
    let r = FluxBuilder::new("eth0").umem_pages(0).build_raw();
    assert!(matches!(r, Err(FluxError::InvalidConfiguration(_))));
    // The defaults are accepted.
    assert!(FluxBuilder::new("eth0").build_raw().is_ok());
}

#[test]
fn test_builder_records_configuration() {
    let raw = FluxBuilder::new("eth0")
        .queue_id(3)
        .bind_flags(2)
        .umem_pages(16)
        .poller(Poller::Busy)
        .batch_size(8)
        .build_raw()
        .expect("valid configuration");
    assert_eq!(raw.state.queue_id, 3);
    assert_eq!(raw.state.if_index, 1);
    assert_eq!(raw.state.fill.len(), 16);
    assert_eq!(raw.state.umem.len(), 2048 * 16);
}

#[test]
fn test_sim_inject_errors() {
    let mut raw = FluxBuilder::new("eth0")
        .umem_pages(16)
        .build_raw()
        .expect("valid configuration");
    // No frame on FILL yet: injection is refused.
    assert!(inject_packet(&mut raw.state, &[1, 2, 3]).is_err());
    // Nothing on TX: reading is refused.
    assert!(read_tx_packet(&mut raw.state).is_err());
    // A packet larger than a frame is refused.
    let engine = fluxnet::engine::FluxEngine::new(raw, 4);
    let mut state = engine.socket.state;
    let too_big = vec![0u8; 2049];
    assert!(inject_packet(&mut state, &too_big).is_err());
    // A frame-sized packet is accepted once FILL is seeded.
    let fits = vec![0u8; 2048];
    assert!(inject_packet(&mut state, &fits).is_ok());
}

#[test]
fn test_error_messages() {
    assert!(!FluxError::RingCorruption.message().is_empty());
    assert!(!FluxError::PermissionDenied.message().is_empty());
    assert!(!FluxError::InterfaceNotSupported.message().is_empty());
    assert!(!FluxError::Io(9).message().is_empty());
    assert!(!FluxError::InvalidConfiguration(String::new()).message().is_empty());
}
