use butterfly_core::hash::hash_password;
use butterfly_core::hash::HasherPool;
use butterfly_core::ApiError;

fn bytes64(seed: u8) -> Vec<u8> {
    let mut v = vec![0u8; 64];
    for i in 0..64 {
        v[i] = seed.wrapping_add(i as u8);
    }
    v
}

#[test]
fn pool_admits_up_to_its_capacity() {
    // the pool never over-subscribes: with two buffers, the third
    // concurrent acquisition is refused
    let mut pool = HasherPool::new(2);
    assert_eq!(pool.try_acquire(), Some(0));
    assert_eq!(pool.try_acquire(), Some(1));
    assert_eq!(pool.try_acquire(), None);
    pool.release(0);
    assert_eq!(pool.try_acquire(), Some(0));
}

#[test]
fn single_buffer_refuses_second_request() {
    // with one buffer, a second request while the first computation holds
    // it observes the exhaustion signal, and the first completes unharmed
    let mut pool = HasherPool::new(1);
    let slot = pool.try_acquire().unwrap();
    assert_eq!(slot, 0);
    assert_eq!(pool.try_acquire(), None);
    let d = pool.hash_acquired(slot, &bytes64(1), &bytes64(2));
    assert_eq!(d.len(), 64);
    pool.release(slot);
    // once released, the next request gets the buffer again
    assert_eq!(pool.try_acquire(), Some(0));
}

#[test]
fn exhausted_pool_reports_resource_exhausted() {
    let mut pool = HasherPool::new(1);
    let _slot = pool.try_acquire().unwrap();
    let r = hash_password(&mut pool, &bytes64(1), &bytes64(2));
    assert_eq!(r, Err(ApiError::ResourceExhausted));
}

#[test]
fn digest_is_deterministic_and_not_the_input() {
    let mut pool = HasherPool::new(1);
    let pwd = bytes64(10);
    let salt = bytes64(20);
    let d1 = hash_password(&mut pool, &pwd, &salt).unwrap();
    let d2 = hash_password(&mut pool, &pwd, &salt).unwrap();
    assert_eq!(d1.len(), 64);
    // the same password and salt always give the same digest
    assert_eq!(d1, d2);
    // the digest is a real hash, not the password or salt handed back
    assert_ne!(d1, pwd);
    assert_ne!(d1, salt);
    // a different salt changes the digest
    let d3 = hash_password(&mut pool, &pwd, &bytes64(21)).unwrap();
    assert_ne!(d1, d3);
}
