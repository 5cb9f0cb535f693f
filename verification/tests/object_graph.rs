use rblx_godot::capability::{CapabilityTable, CapabilityTableBuilder};
use rblx_godot::errors::CoreError;
use rblx_godot::refgraph::ObjectGraph;

fn plain_table() -> CapabilityTable {
    CapabilityTableBuilder::new(0).output()
}

#[test]
fn upgrade_succeeds_exactly_while_strong_exists() {
    let mut g = ObjectGraph::new();
    let w = g.new_cyclic_begin();
    let slot = w.index();
    // mid-construction: the payload is not yet reachable
    assert!(g.upgrade(&w).is_none());
    let h = g.new_cyclic_commit(slot, plain_table(), vec![1, 2], Vec::new(), Vec::new());
    // one strong handle exists: upgrade succeeds and counts
    let h2 = match g.upgrade(&w) {
        Some(h2) => h2,
        None => panic!("upgrade failed while a strong handle exists"),
    };
    assert_eq!(g.strong_count_of(slot), 2);
    g.release_strong(h2);
    assert_eq!(g.strong_count_of(slot), 1);
    g.release_strong(h);
    // no strong handle left: upgrade fails, the weak handle never extends life
    assert!(g.upgrade(&w).is_none());
    assert_eq!(g.live_count(), 0);
    g.release_weak(w);
    assert_eq!(g.live_count(), 0);
}

#[test]
fn strong_weak_cycle_is_collected() {
    let mut g = ObjectGraph::new();
    // B first, so A can hold a strong handle to it at commit time
    let wb = g.new_cyclic_begin();
    let b_slot = wb.index();
    let wa = g.new_cyclic_begin();
    let a_slot = wa.index();
    // B weakly references A; A strongly references B
    let hb = g.new_cyclic_commit(b_slot, plain_table(), vec![20], Vec::new(), vec![wa]);
    let ha = g.new_cyclic_commit(a_slot, plain_table(), vec![10], vec![hb], Vec::new());
    assert_eq!(g.live_count(), 2);
    // dropping the last external strong reference to A frees both A and B
    g.release_strong(ha);
    assert_eq!(g.live_count(), 0);
    assert!(g.upgrade(&wb).is_none());
    g.release_weak(wb);
}

#[test]
fn clone_strong_counts_and_keeps_alive() {
    let mut g = ObjectGraph::new();
    let w = g.new_cyclic_begin();
    let slot = w.index();
    let h1 = g.new_cyclic_commit(slot, plain_table(), vec![0], Vec::new(), Vec::new());
    let h2 = g.clone_strong(&h1);
    assert_eq!(g.strong_count_of(slot), 2);
    g.release_strong(h1);
    // the clone still keeps the object alive
    assert_eq!(g.live_count(), 1);
    assert!(g.is_live(slot));
    g.release_strong(h2);
    assert_eq!(g.live_count(), 0);
    g.release_weak(w);
}

#[test]
fn rollback_leaks_nothing() {
    let mut g = ObjectGraph::new();
    let w = g.new_cyclic_begin();
    let slot = w.index();
    // the initializer failed: the allocation is rolled back, no reference leaks
    g.roll_back(w);
    assert_eq!(g.live_count(), 0);
    assert_eq!(g.strong_count_of(slot), 0);
    assert_eq!(g.weak_count_of(slot), 0);
}

#[test]
fn payload_fields_and_casts() {
    let mut g = ObjectGraph::new();
    let w = g.new_cyclic_begin();
    let slot = w.index();
    let mut b = CapabilityTableBuilder::new(0);
    b.insert(9, 1);
    let h = g.new_cyclic_commit(slot, b.output(), vec![5, 6], Vec::new(), Vec::new());
    assert_eq!(g.read_field(&h, 0), 5);
    g.write_field(&h, 0, 55);
    assert_eq!(g.read_field(&h, 0), 55);
    assert_eq!(g.read_field(&h, 1), 6);
    assert_eq!(g.cast_object(&h, 9), Ok(1));
    assert_eq!(g.cast_object(&h, 10), Err(CoreError::CastFailure));
    g.release_strong(h);
    g.release_weak(w);
}

#[test]
fn downgrade_counts_weak() {
    let mut g = ObjectGraph::new();
    let w = g.new_cyclic_begin();
    let slot = w.index();
    let h = g.new_cyclic_commit(slot, plain_table(), Vec::new(), Vec::new(), Vec::new());
    let w2 = g.downgrade(&h);
    assert_eq!(g.weak_count_of(slot), 2);
    g.release_weak(w2);
    assert_eq!(g.weak_count_of(slot), 1);
    g.release_strong(h);
    // the slot is dead but the first weak handle still pins the slot record
    assert_eq!(g.weak_count_of(slot), 1);
    assert!(g.upgrade(&w).is_none());
    g.release_weak(w);
    assert_eq!(g.weak_count_of(slot), 0);
}
