//! The registry of compiled images that a debugger reads through the GDB
//! JIT interface: a descriptor with a doubly linked list of code entries,
//! one for each live image.
//!
//! Entries live in an arena and link to each other by index. Each change of
//! the list is noted as an announcement. The host lays the list out in
//! memory as the debugger expects it and makes the announcements: for each,
//! it points the debugger at the entry, sets the action and calls the
//! function that the debugger has its breakpoint on.

use memmap::Mmap;
use vstd::prelude::*;

use super::memory::{image_address, image_bytes, image_length, image_slice};

verus! {

/// Nothing is being announced.
pub const JIT_NOACTION: u32 = 0;

/// The relevant entry has been registered.
pub const JIT_REGISTER_FN: u32 = 1;

/// The relevant entry has been unregistered.
pub const JIT_UNREGISTER_FN: u32 = 2;

/// One image in the descriptor's list.
#[derive(Clone, Copy, Debug, PartialEq, Eq, Structural)]
pub struct JITCodeEntry {
    pub next_entry: Option<usize>,
    pub prev_entry: Option<usize>,
    pub symfile_addr: u64,
    pub symfile_size: u64,
}

/// A change of the list that the debugger is to be told of: the action,
/// [`JIT_REGISTER_FN`] or [`JIT_UNREGISTER_FN`], and the slot of the entry
/// that it is about.
#[derive(Clone, Copy, Debug, PartialEq, Eq, Structural)]
pub struct JITAnnouncement {
    pub action_flag: u32,
    pub relevant_entry: usize,
}

/// The descriptor: the head of the list, and the arena that holds the
/// entries. A slot of the arena is `None` once its image has been dropped.
///
/// Between announcements `action_flag` is [`JIT_NOACTION`] and
/// `relevant_entry` is empty; that is how the descriptor is kept here.
pub struct JITDescriptor {
    pub version: u32,
    pub action_flag: u32,
    pub relevant_entry: Option<usize>,
    pub first_entry: Option<usize>,
    pub entries: Vec<Option<JITCodeEntry>>,
    /// The changes that the debugger has not been told of yet, oldest first.
    pub announcements: Vec<JITAnnouncement>,
    /// The slots of the live entries, in list order.
    pub order: Ghost<Seq<usize>>,
}

/// The slot before position `position` of the list, if there is one.
pub open spec fn neighbour_before(order: Seq<usize>, position: int) -> Option<usize> {
    if position > 0 {
        Some(order[position - 1])
    } else {
        None
    }
}

/// The slot after position `position` of the list, if there is one.
pub open spec fn neighbour_after(order: Seq<usize>, position: int) -> Option<usize> {
    if position + 1 < order.len() {
        Some(order[position + 1])
    } else {
        None
    }
}

/// The entries in the slots `order`, in this order, form a well-formed list
/// that starts at `first`: no slot occurs twice, each entry's links name its
/// neighbours, and the live slots of the arena are exactly those of the list.
pub open spec fn list_wf(
    entries: Seq<Option<JITCodeEntry>>,
    order: Seq<usize>,
    first: Option<usize>,
) -> bool {
    &&& first == if order.len() > 0 {
        Some(order[0])
    } else {
        None
    }
    &&& order.no_duplicates()
    &&& forall|slot: int|
        0 <= slot < entries.len() ==> ((#[trigger] entries[slot]) is Some <==> order.contains(
            slot as usize,
        ))
    &&& forall|position: int|
        0 <= position < order.len() ==> linked(entries, order, position)
}

/// The entry at position `position` of the list is live and its links name
/// its neighbours.
pub open spec fn linked(
    entries: Seq<Option<JITCodeEntry>>,
    order: Seq<usize>,
    position: int,
) -> bool {
    &&& order[position] < entries.len()
    &&& entries[order[position] as int] matches Some(entry)
    &&& entry.prev_entry == neighbour_before(order, position)
    &&& entry.next_entry == neighbour_after(order, position)
}

/// The arena after the entry at position `at` of the list has been unlinked:
/// its slot is empty, and its neighbours are linked to each other.
pub open spec fn unlinked(entries: Seq<Option<JITCodeEntry>>, order: Seq<usize>, at: int) -> Seq<
    Option<JITCodeEntry>,
> {
    Seq::new(
        entries.len(),
        |slot: int|
            if slot == order[at] {
                None
            } else if at > 0 && slot == order[at - 1] {
                match entries[slot] {
                    Some(entry) => Some(
                        JITCodeEntry { next_entry: neighbour_after(order, at), ..entry },
                    ),
                    None => None,
                }
            } else if at + 1 < order.len() && slot == order[at + 1] {
                match entries[slot] {
                    Some(entry) => Some(
                        JITCodeEntry { prev_entry: neighbour_before(order, at), ..entry },
                    ),
                    None => None,
                }
            } else {
                entries[slot]
            },
    )
}

/// Unlinking an entry of a well-formed list leaves a well-formed list: the
/// one without that entry.
pub proof fn lemma_unlink_keeps_list(
    entries: Seq<Option<JITCodeEntry>>,
    order: Seq<usize>,
    first: Option<usize>,
    at: int,
)
    requires
        list_wf(entries, order, first),
        0 <= at < order.len(),
        entries.len() <= usize::MAX,
    ensures
        list_wf(
            unlinked(entries, order, at),
            order.remove(at),
            if at == 0 {
                neighbour_after(order, 0)
            } else {
                first
            },
        ),
{
    let after = order.remove(at);
    let arena = unlinked(entries, order, at);
    assert forall|position: int| 0 <= position < order.len() implies order[position]
        < entries.len() by {
        assert(linked(entries, order, position));
    }
    assert forall|i: int, j: int|
        0 <= i < after.len() && 0 <= j < after.len() && i != j implies after[i] != after[j] by {
        let from_i = if i < at { i } else { i + 1 };
        let from_j = if j < at { j } else { j + 1 };
        assert(order[from_i] != order[from_j]);
    }
    assert forall|slot: int| 0 <= slot < arena.len() implies ((#[trigger] arena[slot]) is Some
        <==> after.contains(slot as usize)) by {
        assert(entries[slot] is Some <==> order.contains(slot as usize));
        if slot == order[at] {
            if after.contains(slot as usize) {
                let position = choose|position: int|
                    0 <= position < after.len() && after[position] == slot as usize;
                let from = if position < at { position } else { position + 1 };
                assert(order[from] != order[at]);
            }
        } else {
            if order.contains(slot as usize) {
                let position = choose|position: int|
                    0 <= position < order.len() && order[position] == slot as usize;
                assert(position != at);
                let to = if position < at { position } else { position - 1 };
                assert(after[to] == order[position]);
            }
            if after.contains(slot as usize) {
                let position = choose|position: int|
                    0 <= position < after.len() && after[position] == slot as usize;
                let from = if position < at { position } else { position + 1 };
                assert(order[from] == slot as usize);
            }
        }
    }
    assert forall|position: int| 0 <= position < after.len() implies linked(
        arena,
        after,
        position,
    ) by {
        let from = if position < at { position } else { position + 1 };
        assert(linked(entries, order, from));
        assert(order[from] != order[at]);
        if at > 0 && from != at - 1 {
            assert(order[from] != order[at - 1]);
        }
        if at + 1 < order.len() && from != at + 1 {
            assert(order[from] != order[at + 1]);
        }
        if at > 0 && at + 1 < order.len() {
            assert(order[at - 1] != order[at + 1]);
        }
    }
}

impl JITDescriptor {
    /// The slots of the live entries, from the first entry to the last.
    pub open spec fn list(&self) -> Seq<usize> {
        self.order@
    }

    /// The list is well formed: it starts at `first_entry` and ends where an
    /// entry has no successor, no entry occurs twice (so there is no cycle),
    /// each entry's `prev_entry` and `next_entry` name its neighbours in the
    /// list, and the live slots are exactly the entries of the list. The
    /// descriptor is at rest: no action is set.
    pub open spec fn wf(&self) -> bool {
        &&& self.version == 1
        &&& self.action_flag == JIT_NOACTION
        &&& self.relevant_entry is None
        &&& list_wf(self.entries@, self.order@, self.first_entry)
    }

    /// A descriptor with an empty list.
    pub fn new() -> (descriptor: JITDescriptor)
        ensures
            descriptor.wf(),
            descriptor.list() == Seq::<usize>::empty(),
            descriptor.entries@.len() == 0,
            descriptor.announcements@.len() == 0,
    {
        JITDescriptor {
            version: 1,
            action_flag: JIT_NOACTION,
            relevant_entry: None,
            first_entry: None,
            entries: Vec::new(),
            announcements: Vec::new(),
            order: Ghost(Seq::empty()),
        }
    }

    /// Links a new entry for the image at `symfile_addr` onto the head of
    /// the list, notes the registration for the debugger, and returns the
    /// entry's slot.
    pub fn register(&mut self, symfile_addr: u64, symfile_size: u64) -> (slot: usize)
        requires
            old(self).wf(),
        ensures
            final(self).wf(),
            slot == old(self).entries@.len(),
            final(self).entries@.len() == old(self).entries@.len() + 1,
            final(self).list() == seq![slot] + old(self).list(),
            final(self).announcements@ == old(self).announcements@.push(
                JITAnnouncement { action_flag: JIT_REGISTER_FN, relevant_entry: slot },
            ),
            final(self).entries@[slot as int] matches Some(entry) && entry.symfile_addr
                == symfile_addr && entry.symfile_size == symfile_size,
            forall|other: int|
                0 <= other < old(self).entries@.len() ==> same_image(
                    #[trigger] final(self).entries@[other],
                    old(self).entries@[other],
                ),
    {
        let ghost before = self.order@;
        let slot = self.entries.len();
        let entry = JITCodeEntry {
            next_entry: self.first_entry,
            prev_entry: None,
            symfile_addr,
            symfile_size,
        };
        if let Some(first) = self.first_entry {
            assert(linked(self.entries@, before, 0));
            if let Some(head) = self.entries[first] {
                self.entries[first] = Some(JITCodeEntry { prev_entry: Some(slot), ..head });
            }
        }
        self.entries.push(Some(entry));
        self.first_entry = Some(slot);
        self.announcements.push(
            JITAnnouncement { action_flag: JIT_REGISTER_FN, relevant_entry: slot },
        );
        self.order = Ghost(seq![slot] + before);
        proof {
            let after = self.order@;
            let arena = self.entries@;
            let earlier = old(self).entries@;
            assert forall|position: int| 0 <= position < before.len() implies before[position]
                < earlier.len() by {
                assert(linked(earlier, before, position));
            }
            assert(!before.contains(slot));
            assert forall|i: int, j: int|
                0 <= i < after.len() && 0 <= j < after.len() && i != j implies after[i]
                != after[j] by {
                if i > 0 && j > 0 {
                    assert(before[i - 1] != before[j - 1]);
                } else if i > 0 {
                    assert(before[i - 1] < earlier.len());
                } else {
                    assert(before[j - 1] < earlier.len());
                }
            }
            assert forall|other: int| 0 <= other < arena.len() implies ((
            #[trigger] arena[other]) is Some <==> after.contains(other as usize)) by {
                if other == slot {
                    assert(after[0] == slot);
                } else {
                    assert(earlier[other] is Some <==> before.contains(other as usize));
                    assert(arena[other] is Some <==> earlier[other] is Some);
                    if before.contains(other as usize) {
                        let position = choose|position: int|
                            0 <= position < before.len() && before[position] == other as usize;
                        assert(after[position + 1] == before[position]);
                    }
                    if after.contains(other as usize) {
                        let position = choose|position: int|
                            0 <= position < after.len() && after[position] == other as usize;
                        assert(position > 0);
                        assert(before[position - 1] == other as usize);
                    }
                }
            }
            assert forall|position: int| 0 <= position < after.len() implies linked(
                arena,
                after,
                position,
            ) by {
                if position > 0 {
                    assert(linked(earlier, before, position - 1));
                    assert(after[position] == before[position - 1]);
                    if position > 1 {
                        assert(before[position - 1] != before[0]);
                    }
                }
            }
        }
        slot
    }

    /// Unlinks the entry in `slot` from the list and notes the removal for
    /// the debugger.
    pub fn unregister(&mut self, slot: usize)
        requires
            old(self).wf(),
            old(self).list().contains(slot),
        ensures
            final(self).wf(),
            final(self).entries@.len() == old(self).entries@.len(),
            final(self).list() == old(self).list().remove(old(self).list().index_of(slot)),
            final(self).announcements@ == old(self).announcements@.push(
                JITAnnouncement { action_flag: JIT_UNREGISTER_FN, relevant_entry: slot },
            ),
            final(self).entries@[slot as int] is None,
            forall|other: int|
                0 <= other < old(self).entries@.len() && other != slot ==> same_image(
                    #[trigger] final(self).entries@[other],
                    old(self).entries@[other],
                ),
    {
        let ghost before = self.order@;
        let ghost at = before.index_of(slot);
        assert(0 <= at < before.len() && before[at] == slot);
        assert(linked(self.entries@, before, at));
        let entry = match self.entries[slot] {
            Some(entry) => entry,
            None => {
                // A slot on the list is never empty.
                return ;
            },
        };
        match entry.prev_entry {
            Some(previous) => {
                assert(linked(self.entries@, before, at - 1));
                if let Some(neighbour) = self.entries[previous] {
                    self.entries[previous] = Some(
                        JITCodeEntry { next_entry: entry.next_entry, ..neighbour },
                    );
                }
            },
            None => {
                self.first_entry = entry.next_entry;
            },
        }
        if let Some(next) = entry.next_entry {
            assert(linked(old(self).entries@, before, at + 1));
            if let Some(neighbour) = self.entries[next] {
                self.entries[next] = Some(
                    JITCodeEntry { prev_entry: entry.prev_entry, ..neighbour },
                );
            }
        }
        self.entries[slot] = None;
        self.announcements.push(
            JITAnnouncement { action_flag: JIT_UNREGISTER_FN, relevant_entry: slot },
        );
        self.order = Ghost(before.remove(at));
        proof {
            assert(linked(old(self).entries@, before, at));
            if at > 0 {
                assert(linked(old(self).entries@, before, at - 1));
                assert(before[at - 1] != before[at]);
            }
            if at + 1 < before.len() {
                assert(linked(old(self).entries@, before, at + 1));
                assert(before[at + 1] != before[at]);
            }
            if at > 0 && at + 1 < before.len() {
                assert(before[at - 1] != before[at + 1]);
            }
            assert(old(self).entries@.len() == old(self).entries.len());
            lemma_unlink_keeps_list(old(self).entries@, before, old(self).first_entry, at);
            assert(self.entries@ =~= unlinked(old(self).entries@, before, at));
        }
    }
}

impl JITDescriptor {
    /// Hands the outstanding announcements to the host, oldest first, and
    /// forgets them. The list is as it was.
    pub fn take_announcements(&mut self) -> (taken: Vec<JITAnnouncement>)
        ensures
            taken@ == old(self).announcements@,
            final(self).announcements@.len() == 0,
            final(self).wf() == old(self).wf(),
            final(self).list() == old(self).list(),
            final(self).entries@ == old(self).entries@,
            final(self).first_entry == old(self).first_entry,
    {
        let mut taken: Vec<JITAnnouncement> = Vec::new();
        std::mem::swap(&mut taken, &mut self.announcements);
        taken
    }
}

/// Two slots hold the same image, or both hold none: at most the links
/// differ.
pub open spec fn same_image(first: Option<JITCodeEntry>, second: Option<JITCodeEntry>) -> bool {
    match (first, second) {
        (Some(first), Some(second)) => first.symfile_addr == second.symfile_addr
            && first.symfile_size == second.symfile_size,
        (None, None) => true,
        _ => false,
    }
}

/// The registration of one image: the image's memory, and the slot of its
/// entry in the descriptor's list.
pub struct GdbJitImageRegistration {
    entry: usize,
    file: Mmap,
}

impl GdbJitImageRegistration {
    /// The slot of the image's entry.
    pub closed spec fn spec_entry(&self) -> usize {
        self.entry
    }

    /// The bytes of the image.
    pub closed spec fn spec_file(&self) -> Seq<u8> {
        image_bytes(self.file)
    }

    /// Registers an image: a new entry with the image's address and size is
    /// linked onto the head of the descriptor's list.
    pub fn register(file: Mmap, descriptor: &mut JITDescriptor) -> (registration: Self)
        requires
            old(descriptor).wf(),
        ensures
            final(descriptor).wf(),
            registration.spec_file() == image_bytes(file),
            registration.spec_entry() == old(descriptor).entries@.len(),
            final(descriptor).list() == seq![registration.spec_entry()] + old(descriptor).list(),
            final(descriptor).announcements@ == old(descriptor).announcements@.push(
                JITAnnouncement {
                    action_flag: JIT_REGISTER_FN,
                    relevant_entry: registration.spec_entry(),
                },
            ),
            final(descriptor).entries@[registration.spec_entry() as int] matches Some(entry)
                && entry.symfile_size == image_bytes(file).len(),
    {
        let symfile_addr = image_address(&file);
        let symfile_size = image_length(&file) as u64;
        let entry = descriptor.register(symfile_addr, symfile_size);
        Self { entry, file }
    }

    /// The bytes of the registered image.
    pub fn file(&self) -> (bytes: &[u8])
        ensures
            bytes@ == self.spec_file(),
    {
        image_slice(&self.file)
    }

    /// The slot of the image's entry in the descriptor's list.
    pub fn entry(&self) -> (slot: usize)
        ensures
            slot == self.spec_entry(),
    {
        self.entry
    }

    /// Ends the registration: the entry is unlinked from the descriptor's
    /// list and the image's memory is handed back.
    pub fn unregister(self, descriptor: &mut JITDescriptor) -> (file: Mmap)
        requires
            old(descriptor).wf(),
            old(descriptor).list().contains(self.spec_entry()),
        ensures
            final(descriptor).wf(),
            image_bytes(file) == self.spec_file(),
            final(descriptor).list() == old(descriptor).list().remove(
                old(descriptor).list().index_of(self.spec_entry()),
            ),
            final(descriptor).announcements@ == old(descriptor).announcements@.push(
                JITAnnouncement {
                    action_flag: JIT_UNREGISTER_FN,
                    relevant_entry: self.spec_entry(),
                },
            ),
    {
        descriptor.unregister(self.entry);
        self.file
    }
}

} // verus!
