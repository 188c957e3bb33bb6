use spinlock::mutex::Mutex;
use std::ops::DerefMut;

const SPINS: u64 = 1 << 20;

struct Node {
    x: u32,
}

impl Node {
    fn inc(&mut self) {
        self.x += 1;
    }

    fn get_data(&self) -> u32 {
        self.x
    }
}

fn bump_unless(m: &mut Mutex<u32>, stop_early: bool) -> bool {
    let mut g = m.try_lock().unwrap();
    if stop_early {
        return false;
    }
    *g += 1;
    true
}

#[test]
fn mutex_test_mutex1() {
    let mut m = Mutex::new(Node { x: 0 });
    const J: u32 = 10;
    const K: u32 = 1;
    fn inc(m: &mut Mutex<Node>) {
        for _ in 0..J {
            {
                let mut tmp = m.lock(SPINS).unwrap();
                tmp.inc();
            }
        }
    }

    for _ in 0..K {
        inc(&mut m);
        inc(&mut m);
    }
    assert_eq!(m.lock(SPINS).unwrap().get_data(), 20);
}

#[test]
fn mutex_test_mutex2() {
    let mut mutex = Mutex::new(0u32);
    const N: u32 = 10;
    const T: u32 = 5;

    fn inc(m: &mut Mutex<u32>, i: u32) {
        for _ in 0..N {
            {
                let mut xx = m.lock(SPINS).unwrap();
                (*xx.deref_mut()) += i;
            }
        }
    }

    for _ in 0..T {
        inc(&mut mutex, 1);
        inc(&mut mutex, 2);
    }
    assert_eq!(*mutex.lock(SPINS).unwrap().deref_mut(), 150);
}

#[test]
fn lib_test_mutex1() {
    let mut m = Mutex::new(Node { x: 0 });
    const J: u32 = 10;
    const K: u32 = 1;
    fn inc(m: &mut Mutex<Node>) {
        for _ in 0..J {
            {
                let mut tmp = m.lock(SPINS).unwrap();
                tmp.inc();
                println!("x: {}", tmp.get_data());
            }
        }
    }

    for _ in 0..K {
        inc(&mut m);
        inc(&mut m);
    }
}

#[test]
fn lib_test_mutex2() {
    let mut mutex = Mutex::new(0u32);
    const N: u32 = 10;
    const T: u32 = 5;

    fn inc(m: &mut Mutex<u32>, i: u32) {
        for _ in 0..N {
            {
                let mut xx = m.lock(SPINS).unwrap();
                (*xx.deref_mut()) += i;
                println!("tmp: {}", xx.deref_mut());
            }
        }
    }

    for _ in 0..T {
        inc(&mut mutex, 1);
        inc(&mut mutex, 2);
    }
}

#[test]
fn consume_returns_the_initial_value() {
    let m = Mutex::new(41u32);
    assert_eq!(m.into_inner(), 41);

    let m = Mutex::new(String::from("payload"));
    assert_eq!(m.into_inner(), "payload");
}

#[test]
fn consume_after_failed_try_returns_the_value() {
    let mut m = Mutex::new(7u32);
    std::mem::forget(m.try_lock().unwrap());
    assert!(m.try_lock().is_none());
    assert_eq!(m.into_inner(), 7);
}

#[test]
fn guard_reads_what_the_cell_holds() {
    let mut m = Mutex::new(12u32);
    let g = m.try_lock().unwrap();
    assert_eq!(*g, 12);
}

#[test]
fn guard_writes_reach_the_cell() {
    let mut m = Mutex::new(0u32);
    {
        let mut g = m.try_lock().unwrap();
        *g += 5;
        assert_eq!(*g, 5);
        *g *= 3;
    }
    assert_eq!(m.into_inner(), 15);
}

#[test]
fn next_guard_sees_the_last_write() {
    let mut m = Mutex::new(1u32);
    {
        let mut first = m.try_lock().unwrap();
        *first = 2;
        *first = 3;
    }
    let second = m.try_lock().unwrap();
    assert_eq!(*second, 3);
}

#[test]
fn ten_workers_hundred_increments() {
    let mut m = Mutex::new(0u32);
    for _worker in 0..10 {
        for _ in 0..100 {
            let mut g = m.try_lock().unwrap();
            *g += 1;
        }
    }
    assert_eq!(m.into_inner(), 1000);
}

#[test]
fn dropping_the_guard_frees_the_lock() {
    let mut m = Mutex::new(0u8);
    let g = m.try_lock();
    assert!(g.is_some());
    drop(g);
    assert!(m.try_lock().is_some());
    assert!(m.try_lock().is_some());
}

#[test]
fn early_return_frees_the_lock() {
    let mut m = Mutex::new(0u32);
    assert!(!bump_unless(&mut m, true));
    assert!(bump_unless(&mut m, false));
    assert!(!bump_unless(&mut m, true));
    assert_eq!(m.into_inner(), 1);
}

#[test]
fn abandoned_guard_keeps_the_lock_until_forced() {
    let mut m = Mutex::new(5u32);
    let g = m.try_lock().unwrap();
    std::mem::forget(g);
    assert!(m.try_lock().is_none());
    assert!(m.try_lock().is_none());
    m.force_unlock();
    let mut g = m.try_lock().expect("the flag was cleared");
    *g += 1;
    drop(g);
    assert_eq!(m.into_inner(), 6);
}

#[test]
fn force_unlock_on_a_free_lock_changes_nothing() {
    let mut m = Mutex::new(9u32);
    m.force_unlock();
    assert_eq!(*m.try_lock().unwrap(), 9);
}

#[test]
fn lock_gives_the_guard_on_a_free_flag() {
    let mut m = Mutex::new(4u32);
    {
        let mut g = m.lock(1).unwrap();
        *g += 4;
    }
    assert_eq!(*m.lock(SPINS).unwrap(), 8);
}

#[test]
fn lock_without_any_access_gives_nothing() {
    let mut m = Mutex::new(4u32);
    assert!(m.lock(0).is_none());
    assert!(m.lock(1).is_some());
}

#[test]
fn lock_gives_up_on_a_flag_left_set() {
    let mut m = Mutex::new(4u32);
    std::mem::forget(m.lock(SPINS).unwrap());
    assert!(m.lock(1).is_none());
    assert!(m.lock(1000).is_none());
    m.force_unlock();
    assert!(m.lock(2).is_some());
    assert_eq!(m.into_inner(), 4);
}

#[test]
fn a_guard_clears_the_flag_of_its_own_cell() {
    let mut a = Mutex::new(1u32);
    let mut b = Mutex::new(2u32);
    std::mem::forget(b.try_lock().unwrap());
    {
        let mut on_a = a.try_lock().unwrap();
        *on_a += 10;
    }
    assert_eq!(*a.try_lock().unwrap(), 11);
    assert!(b.try_lock().is_none());
    assert!(b.lock(SPINS).is_none());
}
