use std::sync::Arc;

use phatnoise::stringpool::StringPool;

#[test]
fn test_string_pool() {
    let mut pool = StringPool::new();
    let new = pool.get("brand new");
    let old = pool.get("brand new");

    assert!(Arc::ptr_eq(&new, &old));
}

#[test]
fn test_string_pool_values() {
    let mut pool = StringPool::new();
    let a = pool.get("alpha");
    let b = pool.get("beta");
    let a2 = pool.get("alpha");

    assert_eq!(&*a, "alpha");
    assert_eq!(&*b, "beta");
    assert!(Arc::ptr_eq(&a, &a2));
    assert!(!Arc::ptr_eq(&a, &b));
}
