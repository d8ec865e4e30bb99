use axdriver::dma::{dma_region, DmaError, DmaInfo, DmaLedger, PAGE_SIZE};

#[test]
fn dma_alloc_refuses_invalid_sizes_and_free_refuses_unknown() {
    let mut l = DmaLedger::new(0);
    assert_eq!(l.dma_alloc_coherent(0), Err(DmaError::InvalidSize));
    assert_eq!(l.dma_alloc_coherent(usize::MAX), Err(DmaError::InvalidSize));
    assert_eq!(l.dma_free_coherent(0x4000, 1), Err(DmaError::NotAllocated));
    assert_eq!(l.live_count(), 0);
    assert_eq!(PAGE_SIZE, 4096);
}

#[test]
fn dma_alloc_from_platform_and_free() {
    // The page allocator indexes pages from the 1 GiB boundary below the
    // region, so the region starts on such a boundary.
    let window: usize = 1 << 30;
    let region: &'static mut [u8] = Box::leak(vec![0u8; window + (16 << 20)].into_boxed_slice());
    let base = region.as_ptr() as usize;
    let start = (base + window - 1) / window * window;
    axalloc::global_init(start, 8 << 20);

    let mut l = DmaLedger::new(0x1000);
    let a = l.dma_alloc_coherent(2).unwrap();
    assert_eq!(a.size, 2 * PAGE_SIZE);
    assert_eq!(a.dma_addr + 0x1000, a.cpu_addr);
    assert_eq!(a.cpu_addr % PAGE_SIZE, 0);
    assert!(a.cpu_addr >= start);
    assert!(l.is_live(a.cpu_addr));

    let b = l.dma_alloc_coherent(1).unwrap();
    assert!(b.cpu_addr + PAGE_SIZE <= a.cpu_addr || a.cpu_addr + 2 * PAGE_SIZE <= b.cpu_addr);
    assert_eq!(l.live_count(), 2);

    assert_eq!(l.dma_free_coherent(a.cpu_addr, 1), Err(DmaError::NotAllocated));
    assert_eq!(l.dma_free_coherent(a.cpu_addr, 2), Ok(()));
    assert_eq!(l.dma_free_coherent(a.cpu_addr, 2), Err(DmaError::NotAllocated));
    assert_eq!(l.live_count(), 1);
    assert_eq!(l.dma_free_coherent(b.cpu_addr, 1), Ok(()));
    assert_eq!(l.live_count(), 0);

    let c = l.dma_alloc_coherent(2).unwrap();
    assert_eq!(l.dma_free_coherent(c.cpu_addr, 2), Ok(()));
    assert_eq!(l.live_count(), 0);
}

#[test]
fn dma_region_from_allocator_answer() {
    assert_eq!(dma_region(None, 2, 0x1000), Err(DmaError::NoMemory));
    assert_eq!(dma_region(Some(0x800), 2, 0x1000), Err(DmaError::NoMemory));
    assert_eq!(
        dma_region(Some(0x5000), 2, 0x1000),
        Ok(DmaInfo { dma_addr: 0x4000, cpu_addr: 0x5000, size: 0x2000 })
    );
}
