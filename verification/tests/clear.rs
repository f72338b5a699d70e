use nano9::clear::{clear_one, clear_screen, ClearAction, ClearCache, ClearState, Clearable, DrawCounter, handle_overflow};

#[test]
fn test0() {
    let mut counter = DrawCounter::new(0);
    assert_eq!(counter.increment(), 0);
    assert_eq!(counter.increment(), 1);
    assert_eq!(counter.get(), 2);
}

#[test]
fn counter_marks_overflow_and_resets() {
    let mut counter = DrawCounter::new(usize::MAX);
    assert_eq!(counter.increment(), usize::MAX);
    assert!(!counter.overflowed());
    assert_eq!(counter.increment(), 0);
    assert!(counter.overflowed());
    let mut items = vec![Clearable::new(3, &mut counter)];
    assert_eq!(items[0].draw_count, 1);
    handle_overflow(&mut counter, &mut items);
    assert_eq!(items[0].draw_count, 0);
    assert!(!counter.overflowed());
    assert_eq!(DrawCounter::default().get(), 1);
}

#[test]
fn hidden_state_counts_down() {
    let mut s = ClearState::Hidden { time_to_live: 2 };
    assert_eq!(s.decrement_ttl(), Some(2));
    assert_eq!(s.decrement_ttl(), Some(1));
    assert_eq!(s.decrement_ttl(), Some(0));
    assert_eq!(s, ClearState::Hidden { time_to_live: 0 });
    let mut v = ClearState::Visible;
    assert_eq!(v.decrement_ttl(), None);
}

#[test]
fn cached_thing_lives_its_time_then_despawns() {
    let mut counter = DrawCounter::default();
    let mut cache = ClearCache::new();
    let mut c = Clearable::new(2, &mut counter).with_hash(77);
    assert_eq!(clear_one(&mut c, &mut cache, 5), ClearAction::Hide);
    assert!(c.is_cached());
    assert_eq!(clear_one(&mut c, &mut cache, 5), ClearAction::Keep);
    assert_eq!(clear_one(&mut c, &mut cache, 5), ClearAction::Keep);
    assert_eq!(clear_one(&mut c, &mut cache, 5), ClearAction::Despawn);
    // The cache still has it until it is taken or removed.
    assert_eq!(cache.take(77), Some(5));
    assert_eq!(cache.take(77), None);
}

#[test]
fn uncacheable_things_despawn_at_once() {
    let mut counter = DrawCounter::default();
    let mut cache = ClearCache::new();
    let mut no_hash = Clearable::new(3, &mut counter);
    assert_eq!(clear_one(&mut no_hash, &mut cache, 1), ClearAction::Despawn);
    let mut no_ttl = Clearable::new(0, &mut counter).with_hash(9);
    assert_eq!(clear_one(&mut no_ttl, &mut cache, 2), ClearAction::Despawn);
    assert_eq!(cache.take(9), None);
}

#[test]
fn cache_insert_take_remove() {
    let mut counter = DrawCounter::default();
    let mut cache = ClearCache::new();
    let c = Clearable::new(1, &mut counter).with_hash(3);
    assert!(cache.insert(&c, 10));
    assert!(cache.insert(&c, 11));
    assert!(cache.remove(&c, 10));
    assert!(!cache.remove(&c, 10));
    assert_eq!(cache.take(3), Some(11));
    let plain = Clearable::new(1, &mut counter);
    assert!(!cache.insert(&plain, 12));
    assert!(!cache.remove(&plain, 12));
}

#[test]
fn mark_cached_and_resurrect() {
    let mut counter = DrawCounter::new(5);
    let mut c = Clearable::new(4, &mut counter);
    assert!(c.mark_cached());
    assert_eq!(c.state, ClearState::Hidden { time_to_live: 4 });
    assert!(!c.mark_cached());
    c.resurrect(&mut counter);
    assert_eq!(c.state, ClearState::Visible);
    assert_eq!(c.draw_count, 6);
}

#[test]
fn clear_screen_decides_each_thing_and_restarts_the_counter() {
    let mut counter = DrawCounter::new(40);
    let mut cache = ClearCache::new();
    let a = Clearable::new(1, &mut counter).with_hash(1);
    let b = Clearable::new(0, &mut counter);
    let mut items = vec![(100, a), (200, b)];
    let actions = clear_screen(&mut items, &mut cache, &mut counter);
    assert_eq!(actions, vec![ClearAction::Hide, ClearAction::Despawn]);
    assert_eq!(counter.get(), 1);
    assert_eq!(cache.take(1), Some(100));
}
