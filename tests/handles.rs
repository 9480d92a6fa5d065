use ngenrs::handles::{box_into_raw_new, free, Handle, HandleArena};

#[test]
fn release_of_live_handle_returns_the_object() {
    let mut arena: HandleArena<String> = HandleArena::new();
    let h = box_into_raw_new(&mut arena, "engine".to_string()).unwrap();
    assert!(arena.contains(h));
    assert_eq!(arena.get(h).map(|s| s.as_str()), Some("engine"));
    assert_eq!(arena.release(h), Some("engine".to_string()));
}

#[test]
fn second_release_finds_nothing() {
    let mut arena: HandleArena<u32> = HandleArena::new();
    let h = arena.insert(7).unwrap();
    assert_eq!(arena.release(h), Some(7));
    assert_eq!(arena.release(h), None);
    assert!(arena.get(h).is_none());
}

#[test]
fn reused_slot_gets_a_new_generation() {
    let mut arena: HandleArena<u32> = HandleArena::new();
    let h1 = arena.insert(1).unwrap();
    arena.release(h1);
    let h2 = arena.insert(2).unwrap();
    assert_eq!(h1.index, h2.index);
    assert_ne!(h1.generation, h2.generation);
    assert!(!arena.contains(h1));
    assert_eq!(arena.get(h2), Some(&2));
}

#[test]
fn handles_pack_into_nonzero_raw_values() {
    let h = Handle { index: 3, generation: 5 };
    let raw = h.to_raw();
    assert_eq!(raw, 3 * 4294967296 + 5);
    assert_eq!(Handle::from_raw(raw), Some(h));
    assert_eq!(Handle::from_raw(0), None);
    assert_eq!(Handle::from_raw(7 * 4294967296), None);
}

#[test]
fn buffers_keep_their_bytes() {
    let mut buffers: HandleArena<Vec<u8>> = HandleArena::new();
    let h = box_into_raw_new(&mut buffers, vec![1, 0, 2]).unwrap();
    assert_eq!(buffers.get(h), Some(&vec![1, 0, 2]));
    free(buffers.release(h));
    assert!(!buffers.contains(h));
}
