use concurrent_pool::Pool;

#[derive(Debug)]
struct BigStruct {
    _slice: [u8; 2048],
    _heap: Vec<u8>,
    str: String,
}

impl Default for BigStruct {
    fn default() -> Self {
        Self {
            _slice: [0; 2048],
            _heap: vec![0; 2048],
            str: "Hello".to_string(),
        }
    }
}

#[test]
fn pool_with_big_struct() {
    let pool = Pool::<BigStruct>::with_capacity(10);
    assert_eq!(pool.capacity(), 10);
}

#[test]
fn pool_with_many_big_struct() {
    let pool = Pool::<BigStruct>::with_capacity(100000);
    assert_eq!(pool.capacity(), 100000);
}

#[test]
fn pool_with_zero_capacity() {
    let _pool = Pool::<BigStruct>::with_capacity(0);
}

#[test]
fn single_thread_pull_recycle() {
    let mut pool = Pool::<BigStruct>::with_capacity(2);
    let item1 = pool.pull().unwrap();
    {
        let item1_mut = item1.get_mut(&mut pool).unwrap();
        item1_mut.str.push_str(" World");
        assert_eq!(item1_mut.str.as_str(), "Hello World");
    }

    let item2 = pool.pull().unwrap();
    assert_eq!(item2.get(&pool).str.as_str(), "Hello");

    item1.release(&mut pool);
    // recycled item1
    let item3 = pool.pull().unwrap();
    assert_eq!(item3.get(&pool).str.as_str(), "Hello World");
}

#[test]
fn owned_handles_hand_off() {
    // Owned handles can be collected, carried away from the pull site, and
    // released later; the counts are conserved once all of them are back.
    let mut pool = Pool::<BigStruct>::with_capacity(100);
    let mut carried = Vec::new();
    for counter in 0..100usize {
        let item = pool
            .pull_owned_with(|mut b: BigStruct| {
                b.str = counter.to_string();
                b
            })
            .unwrap();
        carried.push(item);
    }
    assert_eq!(pool.in_use(), 100);
    let mut expected = 0usize;
    for item in carried.drain(..) {
        assert_eq!(item.get(&pool).str.as_str(), expected.to_string().as_str());
        item.release(&mut pool);
        expected += 1;
    }
    assert_eq!(pool.in_use(), 0);
    assert!(pool.allocated() <= pool.capacity());
}
