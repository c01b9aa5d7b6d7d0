use redis_module::command_filter::{
    get_filter_registry, CommandFilterContext, CommandFilterRegistry,
};
use redis_module::{Context, RedisError};

fn sample_command() -> CommandFilterContext {
    CommandFilterContext::new(
        vec![b"SET".to_vec(), b"key".to_vec(), b"value".to_vec()],
        77,
    )
}

#[test]
fn filter_context_counts_and_gets_arguments() {
    let fctx = sample_command();
    assert_eq!(fctx.args_count(), 3);
    assert_eq!(fctx.arg_get(0), Some(&b"SET".to_vec()));
    assert_eq!(fctx.arg_get(2), Some(&b"value".to_vec()));
    assert_eq!(fctx.arg_get(3), None);
    assert_eq!(fctx.get_client_id(), 77);
}

#[test]
fn arg_insert_shifts_later_arguments() {
    let mut fctx = sample_command();
    assert_eq!(fctx.arg_insert(1, b"extra"), Ok(()));
    assert_eq!(fctx.args_count(), 4);
    assert_eq!(
        fctx.args(),
        &vec![
            b"SET".to_vec(),
            b"extra".to_vec(),
            b"key".to_vec(),
            b"value".to_vec(),
        ]
    );
}

#[test]
fn arg_insert_at_end_appends() {
    let mut fctx = sample_command();
    assert_eq!(fctx.arg_insert(3, b"EX"), Ok(()));
    assert_eq!(fctx.arg_get(3), Some(&b"EX".to_vec()));
}

#[test]
fn arg_insert_past_end_fails_and_changes_nothing() {
    let mut fctx = sample_command();
    assert_eq!(fctx.arg_insert(4, b"late"), Err(RedisError::ArgInsertFailed));
    assert_eq!(fctx.args_count(), 3);
    assert_eq!(fctx.arg_get(2), Some(&b"value".to_vec()));
    assert_eq!(
        RedisError::ArgInsertFailed.message(),
        "Failed to insert argument"
    );
}

#[test]
fn arg_replace_swaps_one_argument() {
    let mut fctx = sample_command();
    assert_eq!(fctx.arg_replace(1, b"filtered:key"), Ok(()));
    assert_eq!(fctx.args_count(), 3);
    assert_eq!(fctx.arg_get(1), Some(&b"filtered:key".to_vec()));
    assert_eq!(fctx.arg_get(0), Some(&b"SET".to_vec()));
}

#[test]
fn arg_replace_out_of_bounds_fails() {
    let mut fctx = sample_command();
    assert_eq!(fctx.arg_replace(3, b"x"), Err(RedisError::ArgReplaceFailed));
    assert_eq!(fctx.args_count(), 3);
    assert_eq!(
        RedisError::ArgReplaceFailed.message(),
        "Failed to replace argument"
    );
}

#[test]
fn arg_delete_shifts_later_arguments() {
    let mut fctx = sample_command();
    assert_eq!(fctx.arg_delete(1), Ok(()));
    assert_eq!(fctx.args_count(), 2);
    assert_eq!(fctx.args(), &vec![b"SET".to_vec(), b"value".to_vec()]);
}

#[test]
fn arg_delete_out_of_bounds_fails() {
    let mut fctx = sample_command();
    assert_eq!(fctx.arg_delete(3), Err(RedisError::ArgDeleteFailed));
    assert_eq!(fctx.args_count(), 3);
    assert_eq!(
        RedisError::ArgDeleteFailed.message(),
        "Failed to delete argument"
    );
}

#[test]
fn empty_command_rejects_every_edit_position_but_zero() {
    let mut fctx = CommandFilterContext::new(Vec::new(), 1);
    assert_eq!(fctx.args_count(), 0);
    assert_eq!(fctx.arg_get(0), None);
    assert_eq!(fctx.arg_replace(0, b"x"), Err(RedisError::ArgReplaceFailed));
    assert_eq!(fctx.arg_delete(0), Err(RedisError::ArgDeleteFailed));
    assert_eq!(fctx.arg_insert(0, b"PING"), Ok(()));
    assert_eq!(fctx.arg_get(0), Some(&b"PING".to_vec()));
}

#[test]
fn register_filter_hands_the_handle_back() {
    let mut ctx = Context::new();
    let handle = ctx.register_command_filter(0x1000, 5);
    assert_eq!(handle, 0x1000);
    let registry = get_filter_registry(&ctx);
    assert_eq!(registry.get(0x1000), Some(5));
    assert_eq!(registry.get(0x2000), None);
}

#[test]
fn callbacks_run_in_registration_order() {
    let mut ctx = Context::new();
    ctx.register_command_filter(30, 3);
    ctx.register_command_filter(10, 1);
    ctx.register_command_filter(20, 2);
    assert_eq!(get_filter_registry(&ctx).callbacks(), vec![3, 1, 2]);
}

#[test]
fn reregistering_a_handle_keeps_its_place() {
    let mut ctx = Context::new();
    ctx.register_command_filter(10, 1);
    ctx.register_command_filter(20, 2);
    ctx.register_command_filter(10, 9);
    let registry = get_filter_registry(&ctx);
    assert_eq!(registry.callbacks(), vec![9, 2]);
    assert_eq!(registry.get(10), Some(9));
}

#[test]
fn unregister_removes_exactly_one_filter() {
    let mut ctx = Context::new();
    ctx.register_command_filter(10, 1);
    ctx.register_command_filter(20, 2);
    assert_eq!(ctx.unregister_command_filter(10), Ok(()));
    let registry = get_filter_registry(&ctx);
    assert_eq!(registry.get(10), None);
    assert_eq!(registry.get(20), Some(2));
    assert_eq!(registry.callbacks(), vec![2]);
}

#[test]
fn unregister_unknown_handle_fails() {
    let mut ctx = Context::new();
    ctx.register_command_filter(10, 1);
    assert_eq!(
        ctx.unregister_command_filter(99),
        Err(RedisError::FilterNotRegistered)
    );
    assert_eq!(get_filter_registry(&ctx).get(10), Some(1));
    assert_eq!(
        RedisError::FilterNotRegistered.message(),
        "Failed to unregister command filter, filter may not exist"
    );
}

#[test]
fn standalone_registry_inserts_and_removes() {
    let mut registry = CommandFilterRegistry::new();
    assert_eq!(registry.callbacks(), Vec::<u64>::new());
    registry.insert(1, 100);
    registry.insert(2, 200);
    assert!(registry.remove(1));
    assert!(!registry.remove(1));
    assert_eq!(registry.get(1), None);
    assert_eq!(registry.get(2), Some(200));
}

#[test]
fn filters_and_receivers_do_not_disturb_each_other() {
    let mut ctx = Context::new();
    assert_eq!(ctx.register_cluster_message_receiver(42, 7), Ok(()));
    ctx.register_command_filter(10, 1);
    assert_eq!(ctx.unregister_command_filter(10), Ok(()));
    assert_eq!(
        redis_module::cluster_message::get_callbacks(&ctx).get(42),
        Some(7)
    );
}
