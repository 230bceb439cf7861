use omjit::codegen::gdb_jit::{
    JITAnnouncement, JITDescriptor, JIT_NOACTION, JIT_REGISTER_FN, JIT_UNREGISTER_FN,
};

fn walk(descriptor: &JITDescriptor) -> Vec<usize> {
    let mut slots = Vec::new();
    let mut previous = None;
    let mut next = descriptor.first_entry;
    while let Some(slot) = next {
        assert!(!slots.contains(&slot), "the list has a cycle");
        let entry = descriptor.entries[slot].expect("a listed entry is live");
        assert_eq!(entry.prev_entry, previous);
        slots.push(slot);
        previous = Some(slot);
        next = entry.next_entry;
    }
    let live = descriptor.entries.iter().filter(|entry| entry.is_some()).count();
    assert_eq!(live, slots.len());
    slots
}

#[test]
fn action_flags_follow_the_interface() {
    assert_eq!(JIT_NOACTION, 0);
    assert_eq!(JIT_REGISTER_FN, 1);
    assert_eq!(JIT_UNREGISTER_FN, 2);
    let descriptor = JITDescriptor::new();
    assert_eq!(descriptor.version, 1);
    assert_eq!(descriptor.action_flag, JIT_NOACTION);
    assert_eq!(descriptor.relevant_entry, None);
    assert_eq!(descriptor.first_entry, None);
    assert!(walk(&descriptor).is_empty());
}

#[test]
fn registration_links_at_the_head() {
    let mut descriptor = JITDescriptor::new();
    let first = descriptor.register(0x1000, 16);
    let second = descriptor.register(0x2000, 32);
    let third = descriptor.register(0x3000, 48);
    assert_eq!((first, second, third), (0, 1, 2));
    assert_eq!(walk(&descriptor), vec![third, second, first]);
    let entry = descriptor.entries[second].expect("entry");
    assert_eq!(entry.symfile_addr, 0x2000);
    assert_eq!(entry.symfile_size, 32);
    assert_eq!(entry.prev_entry, Some(third));
    assert_eq!(entry.next_entry, Some(first));
    assert_eq!(descriptor.action_flag, JIT_NOACTION);
    assert_eq!(descriptor.relevant_entry, None);
}

#[test]
fn unregistration_unlinks_anywhere_in_the_list() {
    let mut descriptor = JITDescriptor::new();
    let slots: Vec<usize> = (0..5).map(|i| descriptor.register(0x1000 * (i + 1), 8)).collect();
    assert_eq!(walk(&descriptor), vec![4, 3, 2, 1, 0]);

    descriptor.unregister(slots[2]);
    assert_eq!(walk(&descriptor), vec![4, 3, 1, 0]);
    assert!(descriptor.entries[2].is_none());

    descriptor.unregister(slots[4]);
    assert_eq!(walk(&descriptor), vec![3, 1, 0]);
    assert_eq!(descriptor.first_entry, Some(3));

    descriptor.unregister(slots[0]);
    assert_eq!(walk(&descriptor), vec![3, 1]);

    let sixth = descriptor.register(0x9000, 8);
    assert_eq!(sixth, 5);
    assert_eq!(walk(&descriptor), vec![5, 3, 1]);

    descriptor.unregister(3);
    descriptor.unregister(5);
    descriptor.unregister(1);
    assert!(walk(&descriptor).is_empty());
    assert_eq!(descriptor.first_entry, None);
    assert_eq!(descriptor.action_flag, JIT_NOACTION);
}

#[test]
fn every_change_is_announced_once_and_in_order() {
    let mut descriptor = JITDescriptor::new();
    assert!(descriptor.take_announcements().is_empty());
    let first = descriptor.register(0x1000, 16);
    let second = descriptor.register(0x2000, 16);
    descriptor.unregister(first);
    assert_eq!(
        descriptor.take_announcements(),
        vec![
            JITAnnouncement { action_flag: JIT_REGISTER_FN, relevant_entry: first },
            JITAnnouncement { action_flag: JIT_REGISTER_FN, relevant_entry: second },
            JITAnnouncement { action_flag: JIT_UNREGISTER_FN, relevant_entry: first },
        ]
    );
    assert!(descriptor.take_announcements().is_empty());
    assert_eq!(walk(&descriptor), vec![second]);
    descriptor.unregister(second);
    assert_eq!(
        descriptor.take_announcements(),
        vec![JITAnnouncement { action_flag: JIT_UNREGISTER_FN, relevant_entry: second }]
    );
    assert_eq!(descriptor.action_flag, JIT_NOACTION);
}
