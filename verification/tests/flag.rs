use spinlock::mutex::Mutex;
use spinlock::protocol::Phase;

#[test]
fn a_free_flag_is_won_by_the_first_access() {
    let m = Mutex::new(());
    assert!(m.get_lock(1).is_some());
}

#[test]
fn no_access_allowed_wins_nothing() {
    let m = Mutex::new(());
    assert!(m.get_lock(0).is_none());
    assert!(m.get_lock(1).is_some());
}

#[test]
fn a_held_flag_is_not_won() {
    let m = Mutex::new(());
    let hold = m.get_lock(1).unwrap();
    assert!(m.get_lock(1).is_none());
    assert!(m.get_lock(2).is_none());
    assert!(m.get_lock(1000).is_none());
    drop(hold);
    assert!(m.get_lock(1).is_some());
}

#[test]
fn dropping_the_hold_clears_the_flag() {
    let m = Mutex::new(());
    for _ in 0..3 {
        let hold = m.get_lock(8);
        assert!(hold.is_some());
    }
}

#[test]
fn a_failed_try_does_not_take_the_flag_later() {
    let m = Mutex::new(());
    let hold = m.get_lock(1).unwrap();
    assert!(m.get_lock(3).is_none());
    drop(hold);
    let again = m.get_lock(1);
    assert!(again.is_some());
    assert!(m.get_lock(1).is_none());
}

#[test]
fn an_abandoned_hold_is_recovered_by_force() {
    let m = Mutex::new(());
    std::mem::forget(m.get_lock(1).unwrap());
    assert!(m.get_lock(100).is_none());
    m.force_unlock();
    assert!(m.get_lock(1).is_some());
}

#[test]
fn the_flag_and_the_guard_are_one_lock() {
    let mut m = Mutex::new(3u32);
    std::mem::forget(m.get_lock(1).unwrap());
    assert!(m.try_lock().is_none());
    m.force_unlock();
    std::mem::forget(m.try_lock().unwrap());
    assert!(m.get_lock(5).is_none());
}

#[test]
fn a_claim_wins_on_a_clear_flag_and_backs_off_on_a_set_one() {
    assert_eq!(Phase::Claim.next(false), Phase::Held);
    assert_eq!(Phase::Claim.next(true), Phase::Watch);
}

#[test]
fn backing_off_only_reads() {
    assert_eq!(Phase::Watch.next(true), Phase::Watch);
    assert_eq!(Phase::Watch.next(false), Phase::Claim);
}

#[test]
fn held_is_final() {
    assert_eq!(Phase::Held.next(true), Phase::Held);
    assert_eq!(Phase::Held.next(false), Phase::Held);
}

#[test]
fn a_contended_acquire_walks_claim_watch_claim_held() {
    let mut phase = Phase::Claim;
    let mut walk = Vec::new();
    for saw_locked in [true, true, true, false, false] {
        phase = phase.next(saw_locked);
        walk.push(phase);
    }
    assert_eq!(walk, vec![Phase::Watch, Phase::Watch, Phase::Watch, Phase::Claim, Phase::Held]);
}

#[test]
fn a_hold_guards_any_value_it_is_joined_to() {
    let m = Mutex::new(());
    let mut value = 5u32;
    {
        let mut g = m.get_lock(1).unwrap().guard(&mut value);
        assert_eq!(*g, 5);
        *g += 1;
        assert!(m.get_lock(4).is_none());
    }
    assert_eq!(value, 6);
    assert!(m.get_lock(1).is_some());
}

fn shareable<T: Send + Sync>() {}

#[test]
fn the_flag_can_be_shared_between_threads() {
    shareable::<Mutex<()>>();
    shareable::<Mutex<u32>>();
    shareable::<spinlock::mutex::Hold<'static>>();
}

#[test]
fn a_swap_that_was_made_takes_the_flag() {
    assert_eq!(Phase::claimed(Ok(false)), Phase::Held);
    assert_eq!(Phase::claimed(Ok(true)), Phase::Held);
}

#[test]
fn a_swap_that_was_not_made_backs_off() {
    assert_eq!(Phase::claimed(Err(true)), Phase::Watch);
    assert_eq!(Phase::claimed(Err(false)), Phase::Watch);
}

#[test]
fn a_hold_clears_the_flag_of_its_own_cell() {
    let a = Mutex::new(());
    let b = Mutex::new(());
    let on_a = a.get_lock(1).unwrap();
    std::mem::forget(b.get_lock(1).unwrap());
    drop(on_a);
    assert!(a.get_lock(1).is_some());
    assert!(b.get_lock(1).is_none());
}
