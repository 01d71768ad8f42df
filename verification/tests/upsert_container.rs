use std::cell::Cell;
use std::collections::HashSet;

use rust_engine_frame::base_lib::cores::unify_types::time_type;
use rust_engine_frame::base_lib::eff_attr_prop::upsert_container::{
    Upsert, UpsertContainer, UpsertContainerCleaner,
};

/// The smallest effect type for the tests.
#[derive(Debug)]
struct TestEff {
    id: u32,
    val: f64,
}

impl TestEff {
    fn new(id: u32) -> Self {
        Self { id, val: 0.0 }
    }
}

impl Upsert for TestEff {
    type Id = u32;

    fn upsert_id(&self) -> u32 {
        self.id
    }

    fn gen_id(&self) -> Self::Id {
        self.id
    }

    fn matched_id(&self, id: &Self::Id) -> bool {
        self.id == *id
    }

    fn has_same_id(&self, other: &Self) -> bool {
        self.id == other.id
    }
}

/// Keeps the element already there.
fn keep(old: TestEff, _new: TestEff) -> TestEff {
    old
}

/// Adds the new value to the old one.
fn add_val(old: TestEff, new: TestEff) -> TestEff {
    TestEff { id: old.id, val: old.val + new.val }
}

fn delete_by_id<E: Upsert<Id = u32>>(container: &mut UpsertContainer<E>, id: u32) -> bool {
    container.delete_ele(|e| e.gen_id() == id)
}

#[test]
fn test_upsert_add() {
    let mut c = UpsertContainer::<TestEff>::default();
    assert!(c.ele_empty());
    assert!(!c.is_changed());

    c.upsert_ele(TestEff::new(1), keep);
    c.upsert_ele(TestEff::new(2), keep);
    assert_eq!(c.ele_len(), 2);
    assert!(!c.ele_empty());
    assert!(c.is_changed());
}

#[test]
fn test_upsert_update_same_id() {
    let mut c = UpsertContainer::<TestEff>::default();
    c.upsert_ele(TestEff::new(1), keep);
    c.upsert_ele(TestEff { id: 1, val: 3.0 }, add_val);

    assert_eq!(c.ele_len(), 1);
    let eff = c.iter_ele()[0];
    assert_eq!(eff.val, 3.0);
}

#[test]
fn test_upsert_idempotent_count() {
    let mut c = UpsertContainer::<TestEff>::default();
    c.upsert_ele(TestEff::new(1), keep);
    c.upsert_ele(TestEff::new(1), keep);
    c.upsert_ele(TestEff::new(1), keep);
    assert_eq!(c.ele_len(), 1);
}

#[test]
fn test_delete_marks_hole() {
    let mut c = UpsertContainer::<TestEff>::default();
    c.upsert_ele(TestEff::new(1), keep);
    c.upsert_ele(TestEff::new(2), keep);

    assert!(delete_by_id(&mut c, 1));
    assert_eq!(c.ele_len(), 1);
    assert_eq!(c.hole_count(), 1);
    assert_eq!(c.slot_len(), 2);
}

#[test]
fn test_delete_idempotent() {
    let mut c = UpsertContainer::<TestEff>::default();
    c.upsert_ele(TestEff::new(1), keep);

    assert!(delete_by_id(&mut c, 1));
    assert!(!delete_by_id(&mut c, 1));
    assert_eq!(c.hole_count(), 1);
    assert_eq!(c.ele_len(), 0);
}

#[test]
fn test_clean_hole_too_few_no_op() {
    let mut c = UpsertContainer::<TestEff>::default();
    for id in 0..8 {
        c.upsert_ele(TestEff::new(id), keep);
    }
    delete_by_id(&mut c, 0);
    delete_by_id(&mut c, 1);
    assert_eq!(c.hole_count(), 2);

    c.try_clean_hole();
    assert_eq!(c.hole_count(), 2);
    assert_eq!(c.slot_len(), 8);
    assert_eq!(c.ele_len(), 6);
}

#[test]
fn test_clean_hole_at_ratio() {
    let mut c = UpsertContainer::<TestEff>::default();
    for id in 0..8 {
        c.upsert_ele(TestEff::new(id), keep);
    }
    delete_by_id(&mut c, 0);
    delete_by_id(&mut c, 1);
    delete_by_id(&mut c, 2);
    assert_eq!(c.hole_count(), 3);

    c.try_clean_hole();
    assert_eq!(c.hole_count(), 0);
    assert_eq!(c.slot_len(), 5);
    assert_eq!(c.ele_len(), 5);
}

#[test]
fn test_clean_hole_below_ratio_no_op() {
    let mut c = UpsertContainer::<TestEff>::default();
    for id in 0..20 {
        c.upsert_ele(TestEff::new(id), keep);
    }
    delete_by_id(&mut c, 0);
    delete_by_id(&mut c, 1);
    delete_by_id(&mut c, 2);
    assert_eq!(c.hole_count(), 3);

    c.try_clean_hole();
    assert_eq!(c.hole_count(), 3);
    assert_eq!(c.slot_len(), 20);
}

#[test]
fn test_clean_hole_overflow_clean() {
    let mut c = UpsertContainer::<TestEff>::default();
    for id in 0..400 {
        c.upsert_ele(TestEff::new(id), keep);
    }
    for id in 0..51 {
        delete_by_id(&mut c, id);
    }
    assert_eq!(c.hole_count(), 51);
    assert_eq!(c.slot_len(), 400);

    c.try_clean_hole();
    assert_eq!(c.hole_count(), 0);
    assert_eq!(c.slot_len(), 349);
}

#[test]
fn test_clean_hole_preserves_order() {
    let mut c = UpsertContainer::<TestEff>::default();
    for id in 0..8 {
        c.upsert_ele(TestEff { id, val: id as f64 }, keep);
    }
    delete_by_id(&mut c, 0);
    delete_by_id(&mut c, 2);
    delete_by_id(&mut c, 4);

    let order_before: Vec<u32> = c.iter_ele().iter().map(|e| e.id).collect();
    c.try_clean_hole();
    let order_after: Vec<u32> = c.iter_ele().iter().map(|e| e.id).collect();

    assert_eq!(order_before, order_after);
    assert_eq!(order_after, vec![1, 3, 5, 6, 7]);
}

#[test]
fn test_clean_hole_keeps_capacity() {
    let mut c = UpsertContainer::<TestEff>::default();
    for id in 0..8 {
        c.upsert_ele(TestEff::new(id), keep);
    }
    let cap_before = c.slot_capacity();
    for id in 0..3 {
        delete_by_id(&mut c, id);
    }

    c.try_clean_hole();
    assert_eq!(c.slot_capacity(), cap_before);
}

#[test]
fn test_cleaner_should_clean_hole_period() {
    let mut cleaner = UpsertContainerCleaner::default();
    let period = time_type::unit::<5>();
    for _ in 0..5 {
        assert!(!cleaner.should_clean_hole(time_type::unit::<1>(), period));
    }
    assert!(cleaner.should_clean_hole(time_type::unit::<1>(), period));
    assert!(!cleaner.should_clean_hole(time_type::unit::<1>(), period));
}

#[test]
fn test_cleaner_custom_period() {
    let mut cleaner = UpsertContainerCleaner::default();
    let period = time_type::unit::<2>();
    assert!(!cleaner.should_clean_hole(time_type::unit::<1>(), period));
    assert!(!cleaner.should_clean_hole(time_type::unit::<1>(), period));
    assert!(cleaner.should_clean_hole(time_type::unit::<1>(), period));
    assert!(!cleaner.should_clean_hole(time_type::unit::<1>(), period));
}

#[test]
fn cleaner_compacts_the_container() {
    let mut cleaner = UpsertContainerCleaner::default();
    let mut c = UpsertContainer::<TestEff>::default();
    for id in 0..4 {
        c.upsert_ele(TestEff::new(id), keep);
    }
    for id in 0..3 {
        delete_by_id(&mut c, id);
    }
    cleaner.do_clean_hole(&mut c);
    assert_eq!(c.hole_count(), 0);
    assert_eq!(c.slot_len(), 1);
    assert_eq!(c.iter_ele()[0].id, 3);
}

#[test]
fn select_and_iter_mut_update_in_place() {
    let mut c = UpsertContainer::<TestEff>::default();
    c.upsert_ele(TestEff::new(1), keep);
    c.upsert_ele(TestEff::new(2), keep);
    c.reset_changed_flag();
    assert!(c.select_mut_ele(|e| e.id == 9).is_none());
    assert!(!c.is_changed());
    c.select_mut_ele(|e| e.id == 2).unwrap().val = 7.0;
    assert!(c.is_changed());
    c.iter_mut(|e| TestEff { id: e.id, val: e.val + 1.0 });
    let vals: Vec<f64> = c.iter_ele().iter().map(|e| e.val).collect();
    assert_eq!(vals, vec![1.0, 8.0]);
}

/// A deterministic pseudo-random generator, so that the stress test repeats.
fn lcg_next(state: &mut u64) -> u64 {
    *state = state
        .wrapping_mul(6364136223846793005)
        .wrapping_add(1442695040888963407);
    *state
}

fn do_upsert(c: &mut UpsertContainer<TestEff>, live: &mut Vec<u32>, next_id: &mut u32, rng: &mut u64) {
    let pick_existing = !live.is_empty() && lcg_next(rng) % 3 == 0;
    let id = if pick_existing {
        live[(lcg_next(rng) % live.len() as u64) as usize]
    } else {
        let id = *next_id;
        *next_id += 1;
        live.push(id);
        id
    };
    c.upsert_ele(TestEff::new(id), add_val);
}

fn do_delete(c: &mut UpsertContainer<TestEff>, live: &mut Vec<u32>, rng: &mut u64) -> bool {
    if live.is_empty() || lcg_next(rng) % 10 == 0 {
        assert!(!delete_by_id(c, 999_999_999));
        return false;
    }
    let idx = (lcg_next(rng) % live.len() as u64) as usize;
    let id = live[idx];
    assert!(delete_by_id(c, id), "deleting a live id must succeed");
    live.swap_remove(idx);
    true
}

fn do_select_mut(c: &mut UpsertContainer<TestEff>, live: &[u32], rng: &mut u64) -> bool {
    if live.is_empty() {
        assert!(c.select_mut_ele(|e| e.gen_id() == 999_999_999).is_none());
        return false;
    }
    if lcg_next(rng) % 5 == 0 {
        assert!(c.select_mut_ele(|e| e.gen_id() == 999_999_999).is_none());
        return false;
    }
    let id = live[(lcg_next(rng) % live.len() as u64) as usize];
    let found = c.select_mut_ele(|e| e.gen_id() == id).map(|e| {
        e.val += 1.0;
        e.id
    });
    assert_eq!(found, Some(id));
    true
}

fn do_iter_mut(c: &mut UpsertContainer<TestEff>) {
    let visited = Cell::new(0usize);
    c.iter_mut(|e| {
        visited.set(visited.get() + 1);
        TestEff { id: e.id, val: e.val + 0.5 }
    });
    assert_eq!(visited.get(), c.ele_len());
}

fn check_invariants(c: &UpsertContainer<TestEff>, live: &[u32]) {
    let real_len = c.iter_ele().len();
    let real_holes = c.slot_len() - real_len;

    assert_eq!(c.ele_len(), real_len, "ele_len disagrees with the live slots");
    assert_eq!(c.hole_count(), real_holes, "hole_count disagrees with the holes");
    assert_eq!(c.ele_len(), live.len(), "ele_len disagrees with the model");
    assert_eq!(c.ele_empty(), live.is_empty(), "ele_empty disagrees with the model");

    let iter_ids: HashSet<u32> = c.iter_ele().iter().map(|e| e.id).collect();
    let live_set: HashSet<u32> = live.iter().copied().collect();
    assert_eq!(iter_ids, live_set, "the elements disagree with the model");
}

#[test]
fn test_stress_random_ops_ele_len_accuracy() {
    const ITERS: u32 = 2000;
    let mut rng: u64 = 0x9e37_79b9_7f4a_7c15;

    let mut c = UpsertContainer::<TestEff>::default();
    let mut live: Vec<u32> = Vec::new();
    let mut next_id: u32 = 0;
    let mut changed: bool = false;

    for _ in 0..ITERS {
        match lcg_next(&mut rng) % 100 {
            0..=44 => {
                do_upsert(&mut c, &mut live, &mut next_id, &mut rng);
                changed = true;
            }
            45..=69 => {
                if do_delete(&mut c, &mut live, &mut rng) {
                    changed = true;
                }
            }
            70..=84 => {
                if do_select_mut(&mut c, &live, &mut rng) {
                    changed = true;
                }
            }
            85..=89 => do_iter_mut(&mut c),
            90..=96 => c.try_clean_hole(),
            _ => {
                c.reset_changed_flag();
                changed = false;
            }
        }

        assert_eq!(c.is_changed(), changed, "changed flag disagrees with the model");
        check_invariants(&c, &live);
    }
}

#[test]
fn change_flag_follows_the_last_setting_or_clearing_call() {
    let mut c = UpsertContainer::<TestEff>::default();
    c.upsert_ele(TestEff::new(1), keep);
    assert!(c.is_changed());
    c.reset_changed_flag();

    // Calls that find nothing, and housekeeping, keep the flag clear.
    assert!(!delete_by_id(&mut c, 9));
    assert!(c.select_mut_ele(|e| e.id == 9).is_none());
    c.iter_mut(|e| e);
    c.try_clean_hole();
    let _ = c.iter_ele();
    let _ = c.ele_len();
    assert!(!c.is_changed());

    // A call that finds something sets it, and it stays set until cleared.
    assert!(c.select_mut_ele(|e| e.id == 1).is_some());
    assert!(c.is_changed());
    assert!(!delete_by_id(&mut c, 9));
    assert!(c.is_changed());
    c.reset_changed_flag();
    assert!(delete_by_id(&mut c, 1));
    assert!(c.is_changed());
    assert_eq!(c.ele_len() + c.hole_count(), c.slot_len());
}

#[test]
fn identities_held_are_those_upserted_and_not_deleted_since() {
    let mut c = UpsertContainer::<TestEff>::default();
    for id in [1, 2, 3] {
        c.upsert_ele(TestEff::new(id), keep);
    }
    assert!(delete_by_id(&mut c, 2));
    c.upsert_ele(TestEff::new(2), keep);
    assert!(delete_by_id(&mut c, 1));
    assert!(!delete_by_id(&mut c, 1));
    c.upsert_ele(TestEff::new(3), keep);
    let ids: Vec<u32> = c.iter_ele().iter().map(|e| e.id).collect();
    assert_eq!(ids, vec![3, 2]);
}
