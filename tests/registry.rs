use koke::context::Context;

#[test]
fn test_context_key_uuid() {
    let mut ctx = Context::new();
    let key1 = "component1";
    let key2 = "component2";

    let uuid1_first = ctx.key_uuid(key1);
    let uuid2_first = ctx.key_uuid(key2);
    let uuid1_second = ctx.key_uuid(key1);

    assert_eq!(uuid1_first, uuid1_second, "UUIDs for the same key should be equal");
    assert_ne!(uuid1_first, uuid2_first, "UUIDs for different keys should not be equal");
}

#[test]
fn identity_stable_within_cycle() {
    let mut ctx = Context::new();
    let (first, first_new) = ctx.key_uuid_with_flag("a");
    let (second, second_new) = ctx.key_uuid_with_flag("a");
    assert!(first_new);
    assert!(!second_new);
    assert_eq!(first, second);
    assert_eq!(ctx.uuid_map.len(), 1);
    assert_eq!(ctx.current_cycle_keys.len(), 2);
}

#[test]
fn eviction_after_untouched_cycle() {
    let mut ctx = Context::new();
    let first = ctx.key_uuid("a");
    ctx.remove_unused_keys();
    assert_eq!(ctx.uuid_map.len(), 1);
    // second cycle: "a" is not resolved
    ctx.remove_unused_keys();
    assert_eq!(ctx.uuid_map.len(), 0);
    let (third, is_new) = ctx.key_uuid_with_flag("a");
    assert!(is_new);
    assert_ne!(first, third);
}

#[test]
fn touched_key_keeps_its_token() {
    let mut ctx = Context::new();
    let a = ctx.key_uuid("a");
    let _b = ctx.key_uuid("b");
    ctx.remove_unused_keys();
    let (a2, is_new) = ctx.key_uuid_with_flag("a");
    assert!(!is_new);
    assert_eq!(a, a2);
    ctx.remove_unused_keys();
    assert_eq!(ctx.uuid_map.len(), 1);
    assert_eq!(ctx.uuid_map[0].key, "a");
    assert!(ctx.current_cycle_keys.is_empty());
}

#[test]
fn sweep_of_empty_registry() {
    let mut ctx = Context::new();
    ctx.remove_unused_keys();
    assert!(ctx.uuid_map.is_empty());
    assert!(ctx.current_cycle_keys.is_empty());
}
