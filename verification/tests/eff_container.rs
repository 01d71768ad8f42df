use rust_engine_frame::base_lib::eff_attr_prop::eff_container::{EffectContainer, WithId};

/// An effect with an identity and a count.
#[derive(Debug, Clone, PartialEq)]
struct IdEff {
    id: u32,
    n: u32,
}

impl WithId<u32> for IdEff {
    fn id_of(&self) -> u32 {
        self.id
    }

    fn get_id(&self) -> &u32 {
        &self.id
    }
}

fn ids(c: &EffectContainer<u32, IdEff>) -> Vec<u32> {
    c.iter_eff().iter().map(|e| e.id).collect()
}

fn merge(old: IdEff, new: IdEff) -> IdEff {
    IdEff { id: old.id, n: old.n + new.n }
}

#[test]
fn upsert_eff_adds_and_merges_to_the_end() {
    let mut c: EffectContainer<u32, IdEff> = EffectContainer::default();
    c.upsert_eff(IdEff { id: 1, n: 1 }, merge);
    c.upsert_eff(IdEff { id: 2, n: 1 }, merge);
    c.upsert_eff(IdEff { id: 3, n: 1 }, merge);
    assert_eq!(ids(&c), vec![1, 2, 3]);

    c.upsert_eff(IdEff { id: 1, n: 5 }, merge);
    assert_eq!(ids(&c), vec![2, 3, 1]);
    assert_eq!(c.find_eff(&1), Some(&IdEff { id: 1, n: 6 }));
    assert!(c.find_eff(&9).is_none());
}

#[test]
fn find_eff_mut_updates_in_place() {
    let mut c: EffectContainer<u32, IdEff> = EffectContainer::default();
    c.upsert_eff(IdEff { id: 1, n: 1 }, merge);
    c.upsert_eff(IdEff { id: 2, n: 1 }, merge);
    c.find_eff_mut(&1).unwrap().n = 10;
    assert!(c.find_eff_mut(&9).is_none());
    assert_eq!(ids(&c), vec![1, 2]);
    assert_eq!(c.find_eff(&1).unwrap().n, 10);

    c.iter_eff_mut(|e| IdEff { id: e.id, n: e.n * 2 });
    let ns: Vec<u32> = c.iter_eff().iter().map(|e| e.n).collect();
    assert_eq!(ns, vec![20, 2]);
}

#[test]
fn del_eff_by_is_idempotent_and_try_clean_compacts() {
    let mut c: EffectContainer<u32, IdEff> = EffectContainer::default();
    for id in 0..4 {
        c.upsert_eff(IdEff { id, n: 0 }, merge);
    }
    c.del_eff_by(&0);
    c.del_eff_by(&0);
    c.del_eff_by(&1);
    assert_eq!(ids(&c), vec![2, 3]);
    c.try_clean();
    assert_eq!(ids(&c), vec![2, 3]);

    c.del_eff_by(&2);
    c.try_clean();
    assert_eq!(ids(&c), vec![3]);
    assert!(c.find_eff(&2).is_none());
}
