use concurrent_pool::{Builder, ClearString, Config, Entry, NoHook, Pool, Prc};

#[test]
fn accounting_splits_capacity() {
    // in_use + available == capacity, and available_noalloc <= allocated
    // <= capacity, at every quiescent point of an arbitrary little history.
    let mut pool: Pool<u32> = Pool::new(3, 8);
    let check = |p: &Pool<u32>| {
        assert_eq!(p.in_use() + p.available(), p.capacity());
        assert!(p.available_noalloc() <= p.allocated());
        assert!(p.allocated() <= p.capacity());
    };
    check(&pool);
    let a = pool.pull().unwrap();
    check(&pool);
    let b = pool.pull().unwrap();
    check(&pool);
    a.release(&mut pool);
    check(&pool);
    let c = pool.pull().unwrap();
    check(&pool);
    b.release(&mut pool);
    c.release(&mut pool);
    check(&pool);
}

#[test]
fn zero_capacity_pool_always_exhausted() {
    let mut pool: Pool<u32> = Pool::new(0, 0);
    assert_eq!(pool.available(), 0);
    assert!(pool.pull().is_none());
    assert!(pool.pull_owned().is_none());
    assert!(pool.pull_with(|x: u32| x).is_none());
    assert!(pool.is_empty());
}

#[test]
fn capacity_one_allocates_then_exhausts() {
    let mut pool: Pool<u32> = Pool::new(0, 1);
    assert_eq!(pool.allocated(), 0);
    let first = pool.pull().unwrap();
    assert_eq!(pool.allocated(), 1);
    assert!(pool.pull().is_none());
    first.release(&mut pool);
    assert!(pool.pull().is_some());
}

#[test]
fn construct_pull_release_pull_again() {
    let mut pool: Pool<u64> = Pool::new(10, 10);
    let item = pool.pull().unwrap();
    assert_eq!(*item.get(&pool), 0);
    item.release(&mut pool);
    assert_eq!(pool.available(), 10);
    let item2 = pool.pull().unwrap();
    assert_eq!(*item2.get(&pool), 0);
}

#[test]
fn clone_keeps_the_cell_out() {
    let mut pool: Pool<u32> = Pool::with_capacity(1);
    let a = pool.pull().unwrap();
    let b = a.duplicate(&mut pool);
    a.release(&mut pool);
    assert_eq!(pool.available(), 0);
    b.release(&mut pool);
    assert_eq!(pool.available(), 1);
}

#[test]
fn clone_then_release_is_a_round_trip() {
    let mut pool: Pool<String> = Pool::with_capacity(4);
    let h = pool
        .pull_with(|mut s: String| {
            s.push_str("kept");
            s
        })
        .unwrap();
    let in_use = pool.in_use();
    let allocated = pool.allocated();
    let queued = pool.available_noalloc();
    let twin = h.duplicate(&mut pool);
    twin.release(&mut pool);
    assert_eq!(pool.in_use(), in_use);
    assert_eq!(pool.allocated(), allocated);
    assert_eq!(pool.available_noalloc(), queued);
    assert_eq!(h.get(&pool).as_str(), "kept");
}

#[test]
fn on_demand_allocation() {
    let mut pool: Pool<u32> = Pool::new(2, 5);
    assert_eq!(pool.allocated(), 2);
    let a = pool.pull().unwrap();
    let b = pool.pull().unwrap();
    assert_eq!(pool.allocated(), 2);
    let c = pool.pull().unwrap();
    assert_eq!(pool.allocated(), 3);
    let d = pool.pull().unwrap();
    let e = pool.pull().unwrap();
    assert_eq!(pool.allocated(), 5);
    assert!(pool.pull().is_none());
    a.release(&mut pool);
    b.release(&mut pool);
    c.release(&mut pool);
    d.release(&mut pool);
    e.release(&mut pool);
}

#[test]
fn clear_hook_resets_payload() {
    let mut config: Config<ClearString> = Config::default();
    config.capacity = 2;
    config.clear_func = Some(ClearString);
    let mut pool: Pool<String, ClearString> = Pool::with_config(config);
    let item = pool
        .pull_with(|mut s: String| {
            s.push_str("hello");
            s
        })
        .unwrap();
    assert_eq!(item.get(&pool).as_str(), "hello");
    item.release(&mut pool);
    let item2 = pool.pull().unwrap();
    assert_eq!(item2.get(&pool).as_str(), "");
}

#[test]
fn no_hook_keeps_payload() {
    let mut pool: Pool<String> = Pool::with_capacity(1);
    let item = pool
        .pull_with(|mut s: String| {
            s.push_str("sticky");
            s
        })
        .unwrap();
    item.release(&mut pool);
    let item2 = pool.pull().unwrap();
    assert_eq!(item2.get(&pool).as_str(), "sticky");
}

#[test]
fn auto_reclaim_streak_fires_once() {
    let mut builder: Builder = Builder::new();
    let mut pool: Pool<u32> = builder
        .capacity(5)
        .prealloc(2)
        .enable_auto_reclaim()
        .fastpull_threshold_for_reclaim(3)
        .idle_threshold_for_fastpull(2)
        .build();
    let handles: Vec<_> = (0..5).map(|_| pool.pull().unwrap()).collect();
    assert_eq!(pool.allocated(), 5);
    for h in handles {
        h.release(&mut pool);
    }
    assert_eq!(pool.available_noalloc(), 5);
    let _s1 = pool.pull().unwrap();
    let _s2 = pool.pull().unwrap();
    assert_eq!(pool.allocated(), 5);
    let _s3 = pool.pull().unwrap();
    assert_eq!(pool.allocated(), 4);
}

#[test]
fn auto_reclaim_with_default_thresholds() {
    // With capacity 5 the zero-valued thresholds resolve to an idle
    // threshold of one and a streak threshold of two, so the second
    // surplus-pull already reclaims one cell.
    let mut builder: Builder = Builder::new();
    let mut pool: Pool<u32> = builder.capacity(5).prealloc(2).enable_auto_reclaim().build();
    let handles: Vec<_> = (0..5).map(|_| pool.pull().unwrap()).collect();
    for h in handles {
        h.release(&mut pool);
    }
    let _s1 = pool.pull().unwrap();
    assert_eq!(pool.allocated(), 5);
    let _s2 = pool.pull().unwrap();
    assert_eq!(pool.allocated(), 4);
}

#[test]
fn free_queue_is_first_in_first_out() {
    let mut pool: Pool<u32> = Pool::with_capacity(2);
    let a = pool.pull_with(|_x: u32| 1u32).unwrap();
    let b = pool.pull_with(|_x: u32| 2u32).unwrap();
    a.release(&mut pool);
    b.release(&mut pool);
    let first = pool.pull().unwrap();
    assert_eq!(*first.get(&pool), 1);
    let second = pool.pull().unwrap();
    assert_eq!(*second.get(&pool), 2);
}

#[test]
fn get_mut_refuses_shared_cells() {
    let mut pool: Pool<u32> = Pool::with_capacity(1);
    let a = pool.pull().unwrap();
    let b = a.duplicate(&mut pool);
    assert!(a.get_mut(&mut pool).is_none());
    b.release(&mut pool);
    assert!(a.get_mut(&mut pool).is_some());
    *a.get_mut_unchecked(&mut pool) = 7;
    assert_eq!(*a.get(&pool), 7);
}

#[test]
fn owned_and_borrowed_handles_share_cells() {
    let mut pool: Pool<u32> = Pool::with_capacity(1);
    let owned = pool.pull_owned_with(|_x: u32| 9u32).unwrap();
    let twin = owned.duplicate(&mut pool);
    owned.release(&mut pool);
    assert_eq!(pool.available(), 0);
    assert_eq!(*twin.get(&pool), 9);
    twin.release(&mut pool);
    assert_eq!(pool.available(), 1);
}

#[test]
fn builder_defaults_match_config_defaults() {
    let mut builder: Builder = Builder::new();
    let pool: Pool<u8> = builder.build();
    assert_eq!(pool.capacity(), 1024);
    assert_eq!(pool.allocated(), 0);
    assert_eq!(pool.available_noalloc(), 0);
    assert_eq!(pool.available(), 1024);
}

#[test]
fn prc_counts_move_as_stated() {
    let mut zero: Prc<u32> = Prc::new_zero(5);
    assert_eq!(zero.ref_count(), 0);
    assert_eq!(zero.inc_ref(), 0);
    assert_eq!(zero.ref_count(), 1);
    assert_eq!(zero.dec_ref(), 1);
    assert_eq!(zero.ref_count(), 0);
    assert_eq!(zero.into_data(), 5);
    let one: Prc<u32> = Prc::new(6);
    assert_eq!(one.ref_count(), 1);
    assert_eq!(*one.borrow_data(), 6);
}

#[test]
fn prc_get_mut_checks_the_count() {
    let mut cell: Prc<u32> = Prc::new(3);
    *Prc::get_mut(&mut cell).unwrap() = 4;
    assert_eq!(*cell.borrow_data(), 4);
    *Prc::get_mut_unchecked(&mut cell) = 5;
    assert_eq!(*cell.borrow_data(), 5);
    cell.inc_ref();
    assert!(Prc::get_mut(&mut cell).is_none());
    cell.dec_ref();
    assert!(Prc::get_mut(&mut cell).is_some());
}

#[test]
fn half_prealloc_constructor() {
    let pool: Pool<u32> = Pool::with_capacity_half_prealloc(10);
    assert_eq!(pool.capacity(), 10);
    assert_eq!(pool.available_noalloc(), 5);
    assert_eq!(pool.available(), 10);
}

#[test]
fn is_empty_tracks_availability() {
    let mut pool: Pool<u32, NoHook> = Pool::with_capacity(2);
    assert!(!pool.is_empty());
    let a = pool.pull().unwrap();
    assert!(!pool.is_empty());
    let b = pool.pull().unwrap();
    assert!(pool.is_empty());
    a.release(&mut pool);
    assert!(!pool.is_empty());
    b.release(&mut pool);
}

#[test]
fn entry_type_is_exported() {
    let mut pool: Pool<u32> = Pool::with_capacity(1);
    let e: Entry = pool.pull().unwrap();
    e.release(&mut pool);
}
