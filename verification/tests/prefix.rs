use thesis::message::client_message::MessageId;
use thesis::prefix::Prefix;
use thesis::sync_provider::local_sync_provider::LocalSyncProvider;

#[test]
fn new_prefix_commits_nothing() {
    let prefix = Prefix::<3>::new(7);
    assert_eq!(prefix.id, 7);
    assert_eq!(prefix.states, [MessageId(0); 3]);
}

#[test]
fn merge_takes_the_lower_marks() {
    let a = Prefix::<3> { id: 1, states: [MessageId(5), MessageId(2), MessageId(9)] };
    let b = Prefix::<3> { id: 1, states: [MessageId(3), MessageId(4), MessageId(9)] };
    let merged = a.merge(&b).unwrap();
    assert_eq!(merged.id, 1);
    assert_eq!(merged.states, [MessageId(3), MessageId(2), MessageId(9)]);
    let other = Prefix::<3> { id: 2, states: [MessageId(0); 3] };
    assert!(a.merge(&other).is_none());
}

#[test]
fn delta_counts_new_messages() {
    let a = Prefix::<2> { id: 1, states: [MessageId(5), MessageId(2)] };
    let b = Prefix::<2> { id: 2, states: [MessageId(8), MessageId(2)] };
    assert!(a.is_dominated_by(&b));
    assert!(!b.is_dominated_by(&a));
    assert!(a.is_dominated_by(&a));
    let delta = a.delta_to(&b);
    assert_eq!(delta.states, [MessageId(3), MessageId(0)]);
}

#[test]
fn local_provider_ticks() {
    let mut provider = LocalSyncProvider::<2>::new();
    let first = provider.tick();
    assert_eq!(first.id, 1);
    assert_eq!(first.states, [MessageId(0), MessageId(0)]);
    provider.report(1, MessageId(7));
    provider.report(0, MessageId(3));
    let second = provider.tick();
    assert_eq!(second.id, 2);
    assert_eq!(second.states, [MessageId(3), MessageId(7)]);
}

#[test]
fn message_ids_add_and_subtract() {
    assert_eq!(MessageId(3) + MessageId(4), MessageId(7));
    assert_eq!(MessageId(9) - MessageId(4), MessageId(5));
    assert_eq!(MessageId(0) + MessageId(u32::MAX), MessageId(u32::MAX));
    assert_eq!(MessageId(5) - MessageId(5), MessageId(0));
    assert_eq!(MessageId::default(), MessageId(0));
}
