use concurrent_pool::{Builder, ClearString, Pool};

#[test]
fn build_pool() {
    let mut builder: Builder = Builder::new();
    let pool: Pool<usize> = builder.capacity(10).prealloc(5).build();
    assert_eq!(pool.capacity(), 10);
}

#[test]
fn build_with_clear_func() {
    let mut builder: Builder<ClearString> = Builder::new();
    builder.clear_func(ClearString);
    builder.capacity(2);
    let mut pool: Pool<String, ClearString> = builder.build();
    let item1 = pool
        .pull_with(|mut s: String| {
            s.push_str("hello");
            s
        })
        .unwrap();
    assert_eq!(item1.get(&pool).as_str(), "hello");
    let item2 = pool
        .pull_with(|mut s: String| {
            s.push_str("world");
            s
        })
        .unwrap();
    assert_eq!(item2.get(&pool).as_str(), "world");

    assert_eq!(pool.available(), 0);
    item1.release(&mut pool);
    assert_eq!(pool.available(), 1);
    let item3 = pool.pull().unwrap();
    assert_eq!(item3.get(&pool).as_str(), "");
}

#[test]
fn build_with_auto_reclaim() {
    let mut builder: Builder = Builder::new();
    let mut pool: Pool<usize> = builder
        .capacity(5)
        .prealloc(2)
        .enable_auto_reclaim()
        .fastpull_threshold_for_reclaim(3)
        .idle_threshold_for_fastpull(2)
        .build();
    assert_eq!(pool.capacity(), 5);
    assert_eq!(pool.allocated(), 2);
    let item1 = pool.pull().unwrap();
    let item2 = pool.pull().unwrap();
    let item3 = pool.pull().unwrap();
    let item4 = pool.pull().unwrap();
    let item5 = pool.pull().unwrap();
    assert_eq!(pool.available(), 0);
    item1.release(&mut pool);
    item2.release(&mut pool);
    item3.release(&mut pool);
    item4.release(&mut pool);
    item5.release(&mut pool);
    assert_eq!(pool.allocated(), 5);

    // first surplus-pull
    let _item1 = pool.pull().unwrap();
    // second surplus-pull
    let _item2 = pool.pull().unwrap();
    assert_eq!(pool.allocated(), 5);
    // third surplus-pull, which triggers one reclaim step
    let _item3 = pool.pull().unwrap();
    assert_eq!(pool.allocated(), 4);
}
