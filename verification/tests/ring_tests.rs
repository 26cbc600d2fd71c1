use pda_ring::ring::{new_ring, RingManager, PDA};

#[test]
fn labels_follow_the_index() {
    assert_eq!(PDA::new(0).address, "PDA-0");
    assert_eq!(PDA::new(7).address, "PDA-7");
    assert_eq!(PDA::new(10).address, "PDA-10");
    assert_eq!(PDA::new(42).address, "PDA-42");
    assert_eq!(PDA::new(407).address, "PDA-407");
    assert_eq!(PDA::new(4294967295).address, "PDA-4294967295");
}

#[test]
fn fresh_slot_is_cleared() {
    let slot = PDA::new(3);
    assert_eq!(slot.address, "PDA-3");
    assert_eq!(slot.sender, "");
    assert_eq!(slot.receiver, "");
    assert_eq!(slot.buff, "");
}

#[test]
fn construction_rejects_zero_capacity() {
    assert!(new_ring(0).is_none());
    assert!(new_ring(1).is_some());
    assert!(new_ring(5).is_some());
}

#[test]
fn fresh_ring_has_labelled_cleared_slots() {
    let ring = RingManager::new(3);
    let slots = ring.show_all();
    assert_eq!(slots.len(), 3);
    for (i, slot) in slots.iter().enumerate() {
        assert_eq!(slot.address, format!("PDA-{}", i));
        assert_eq!(slot.sender, "");
        assert_eq!(slot.receiver, "");
        assert_eq!(slot.buff, "");
    }
}

#[test]
fn update_overwrites_and_clear_empties() {
    let mut slot = PDA::new(9);
    slot.update("alice", "bob", "hello");
    assert_eq!(slot.address, "PDA-9");
    assert_eq!(slot.sender, "alice");
    assert_eq!(slot.receiver, "bob");
    assert_eq!(slot.buff, "hello");

    slot.clear();
    assert_eq!(slot.address, "PDA-9");
    assert_eq!(slot.sender, "");
    assert_eq!(slot.receiver, "");
    assert_eq!(slot.buff, "");

    // After a clear, a later update fully restores all three fields from
    // the new arguments, with no residue from before.
    slot.update("x", "y", "z");
    assert_eq!(slot.sender, "x");
    assert_eq!(slot.receiver, "y");
    assert_eq!(slot.buff, "z");
}

#[test]
fn capacity_five_scenario() {
    let mut ring = RingManager::new(5);

    // Call 0: writes slot 0, no clear.
    let r = ring.add_entry("s0", "r0", "p0");
    assert_eq!(r.write_index, 0);
    assert_eq!(r.cleared_index, None);
    assert_eq!(ring.show_all()[0].sender, "s0");
    assert_eq!(ring.show_all()[0].receiver, "r0");
    assert_eq!(ring.show_all()[0].buff, "p0");

    // Call 1: writes slot 1, no clear.
    let r = ring.add_entry("s1", "r1", "p1");
    assert_eq!(r.write_index, 1);
    assert_eq!(r.cleared_index, None);
    assert_eq!(ring.show_all()[0].sender, "s0");
    assert_eq!(ring.show_all()[1].buff, "p1");

    // Call 2: writes slot 2, clears slot 0.
    let r = ring.add_entry("s2", "r2", "p2");
    assert_eq!(r.write_index, 2);
    assert_eq!(r.cleared_index, Some(0));
    assert_eq!(ring.show_all()[0].sender, "");
    assert_eq!(ring.show_all()[0].receiver, "");
    assert_eq!(ring.show_all()[0].buff, "");
    assert_eq!(ring.show_all()[0].address, "PDA-0");
    assert_eq!(ring.show_all()[2].sender, "s2");

    // Call 3: writes slot 3, clears slot 1.
    let r = ring.add_entry("s3", "r3", "p3");
    assert_eq!(r.write_index, 3);
    assert_eq!(r.cleared_index, Some(1));
    assert_eq!(ring.show_all()[1].buff, "");

    // Call 4: writes slot 4, clears slot 2.
    let r = ring.add_entry("s4", "r4", "p4");
    assert_eq!(r.write_index, 4);
    assert_eq!(r.cleared_index, Some(2));
    assert_eq!(ring.show_all()[2].sender, "");

    // Call 5: wraps around, writes slot 0, clears slot 3.
    let r = ring.add_entry("s5", "r5", "p5");
    assert_eq!(r.write_index, 0);
    assert_eq!(r.cleared_index, Some(3));
    assert_eq!(ring.show_all()[0].sender, "s5");
    assert_eq!(ring.show_all()[0].receiver, "r5");
    assert_eq!(ring.show_all()[0].buff, "p5");
    assert_eq!(ring.show_all()[3].buff, "");
    // Slot 4 stands untouched by the last call.
    assert_eq!(ring.show_all()[4].sender, "s4");
}

#[test]
fn capacity_one_boundary() {
    let mut ring = RingManager::new(1);

    let r = ring.add_entry("a", "b", "c");
    assert_eq!(r.write_index, 0);
    assert_eq!(r.cleared_index, None);
    assert_eq!(ring.show_all()[0].buff, "c");

    let r = ring.add_entry("d", "e", "f");
    assert_eq!(r.write_index, 0);
    assert_eq!(r.cleared_index, None);
    assert_eq!(ring.show_all()[0].buff, "f");

    // From the third call on, every call writes and then immediately clears
    // the single slot, leaving it empty after each add_entry.
    for _ in 0..4 {
        let r = ring.add_entry("g", "h", "i");
        assert_eq!(r.write_index, 0);
        assert_eq!(r.cleared_index, Some(0));
        assert_eq!(ring.show_all()[0].sender, "");
        assert_eq!(ring.show_all()[0].receiver, "");
        assert_eq!(ring.show_all()[0].buff, "");
        assert_eq!(ring.show_all()[0].address, "PDA-0");
    }
}

#[test]
fn one_write_per_call_and_clear_counts() {
    // Over n calls, every call writes exactly one slot and the number of
    // clears is max(0, n - 2): none on the first two calls, one on each
    // call after that.
    for n in 0..10usize {
        let mut ring = RingManager::new(3);
        let mut clears = 0usize;
        for k in 0..n {
            let r = ring.add_entry("s", "r", "p");
            assert_eq!(r.cleared_index.is_some(), k >= 2);
            if r.cleared_index.is_some() {
                clears += 1;
            }
        }
        assert_eq!(clears, if n >= 2 { n - 2 } else { 0 });
    }
}

#[test]
fn write_index_cycles_independent_of_content() {
    let mut plain = RingManager::new(3);
    let mut noisy = RingManager::new(3);
    let expected: [usize; 7] = [0, 1, 2, 0, 1, 2, 0];
    for (k, want) in expected.iter().enumerate() {
        let a = plain.add_entry("", "", "");
        let b = noisy.add_entry(&format!("s{}", k), &format!("r{}", k), &format!("p{}", k));
        assert_eq!(a.write_index, *want);
        assert_eq!(b.write_index, *want);
        assert_eq!(a.cleared_index, b.cleared_index);
    }
}

#[test]
fn cleared_slot_matches_two_behind_formula() {
    let mut ring = RingManager::new(4);
    for k in 0..12usize {
        let r = ring.add_entry("s", "r", "p");
        if k < 2 {
            assert_eq!(r.cleared_index, None);
        } else {
            let ci = (k - 2) % 4;
            assert_eq!(r.cleared_index, Some(ci));
            // The slot cleared carries the label of that very index.
            assert_eq!(ring.show_all()[ci].address, format!("PDA-{}", ci));
            assert_eq!(ring.show_all()[ci].sender, "");
            assert_eq!(ring.show_all()[ci].receiver, "");
            assert_eq!(ring.show_all()[ci].buff, "");
        }
    }
}

#[test]
fn show_all_is_idempotent() {
    let mut ring = RingManager::new(3);
    ring.add_entry("alice", "bob", "hi");
    ring.add_entry("carol", "dave", "yo");
    let first = ring.show_all();
    let second = ring.show_all();
    assert_eq!(first, second);
    let third = ring.show_all();
    assert_eq!(second, third);
}
