use redis_module::cluster_message::{
    get_callbacks, register_callback, send_status_to_result, ClusterMessageCallbacks,
};
use redis_module::{Context, RedisError, REDISMODULE_OK};

#[test]
fn register_receiver_records_callback() {
    let mut ctx = Context::new();
    assert_eq!(ctx.register_cluster_message_receiver(42, 7), Ok(()));
    let callbacks = get_callbacks(&ctx);
    assert_eq!(callbacks.get(42), Some(7));
    assert_eq!(callbacks.get(43), None);
}

#[test]
fn register_receiver_overwrites_earlier_receiver() {
    let mut ctx = Context::new();
    assert_eq!(ctx.register_cluster_message_receiver(42, 7), Ok(()));
    assert_eq!(ctx.register_cluster_message_receiver(42, 9), Ok(()));
    assert_eq!(get_callbacks(&ctx).get(42), Some(9));
}

#[test]
fn register_receiver_keeps_other_types() {
    let mut ctx = Context::new();
    assert_eq!(ctx.register_cluster_message_receiver(0, 1), Ok(()));
    assert_eq!(ctx.register_cluster_message_receiver(255, 2), Ok(()));
    let callbacks = get_callbacks(&ctx);
    assert_eq!(callbacks.get(0), Some(1));
    assert_eq!(callbacks.get(255), Some(2));
    assert_eq!(callbacks.get(100), None);
}

#[test]
fn empty_table_has_no_receivers() {
    let callbacks = ClusterMessageCallbacks::new();
    assert_eq!(callbacks.get(0), None);
    assert_eq!(callbacks.get(42), None);
    assert_eq!(callbacks.get(255), None);
}

#[test]
fn register_callback_fills_standalone_table() {
    let mut callbacks = ClusterMessageCallbacks::new();
    assert_eq!(register_callback(&mut callbacks, 5, 11), Ok(()));
    assert_eq!(callbacks.get(5), Some(11));
}

#[test]
fn send_to_node_marshals_inputs() {
    let ctx = Context::new();
    let m = ctx
        .send_cluster_message(Some(b"node123"), 42, b"Hello, node!")
        .unwrap();
    assert_eq!(m.target_id, Some(b"node123".to_vec()));
    assert_eq!(m.message_type, 42);
    assert_eq!(m.payload, b"Hello, node!".to_vec());
    assert_eq!(m.payload_len(), 12);
}

#[test]
fn broadcast_has_no_target() {
    let ctx = Context::new();
    let m = ctx
        .send_cluster_message(None, 7, b"Hello, everyone!")
        .unwrap();
    assert_eq!(m.target_id, None);
    assert_eq!(m.message_type, 7);
    assert_eq!(m.payload, b"Hello, everyone!".to_vec());
}

#[test]
fn nul_in_target_is_rejected() {
    let ctx = Context::new();
    let r = ctx.send_cluster_message(Some(b"no\0de"), 42, b"payload");
    assert_eq!(r, Err(RedisError::InvalidTargetId));
    assert_eq!(
        RedisError::InvalidTargetId.message(),
        "Invalid target_id: contains null byte"
    );
}

#[test]
fn nul_in_payload_is_allowed() {
    let ctx = Context::new();
    let m = ctx.send_cluster_message(None, 1, b"a\0b").unwrap();
    assert_eq!(m.payload, b"a\0b".to_vec());
    assert_eq!(m.payload_len(), 3);
}

#[test]
fn empty_payload_is_allowed() {
    let ctx = Context::new();
    let m = ctx.send_cluster_message(Some(b"n1"), 3, b"").unwrap();
    assert_eq!(m.payload, Vec::<u8>::new());
    assert_eq!(m.payload_len(), 0);
}

#[test]
fn send_status_maps_to_result() {
    assert_eq!(send_status_to_result(REDISMODULE_OK), Ok(()));
    assert_eq!(send_status_to_result(1), Err(RedisError::SendFailed));
    assert_eq!(send_status_to_result(-1), Err(RedisError::SendFailed));
    assert_eq!(
        RedisError::SendFailed.message(),
        "Failed to send cluster message"
    );
}
