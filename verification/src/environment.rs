//! The runtime owner: the flow graph, and the caches of the native code that
//! has been generated for its blocks.

use vstd::prelude::*;

use crate::codegen::assembler::machine_code;
use crate::codegen::gdb_jit::{linked, GdbJitImageRegistration, JITAnnouncement, JITDescriptor};
use crate::codegen::selection::{block_code, trampoline_code};
use crate::codegen::{
    assemble_code, call_targets, codegen_basic_block, codegen_block_explained, codegen_trampoline,
    jump_targets, needs_trampoline, CodegenError, MachineInstruction, Refusal, RefusedConstruct,
    UnaryFunction, CODE_PAGE_SIZE,
};
use crate::flow_graph::{
    BasicBlock, BasicBlockId, FlowGraph, FlowInstruction, GraphView, ScopeArena, TailInstruction,
};

verus! {

/// A tag for the argument types that a compilation was made for. There is
/// one value for now; it is part of every cache key all the same.
#[derive(Clone, Copy, Debug, Default, PartialEq, Eq, Hash, Structural)]
pub struct TypeInfo;

/// The addresses that generated code needs from the host: where the
/// environment lives, and the routine that a trampoline calls to have a
/// block compiled.
#[derive(Clone, Copy, Debug, PartialEq, Eq, Structural)]
pub struct RuntimeLinks {
    pub environment: u64,
    pub trampoline_routine: u64,
}

/// Native code in a cache: what it was generated for, the registered image
/// that holds it, its entry address and its length in bytes.
pub struct CachedCode {
    pub basic_block_id: BasicBlockId,
    pub type_info: TypeInfo,
    pub registration: GdbJitImageRegistration,
    pub entry: UnaryFunction,
    pub size: usize,
}

impl CachedCode {
    /// The bytes of the code: the start of the registered image, as long as
    /// the code is.
    pub open spec fn image(&self) -> Seq<u8> {
        self.registration.spec_file().take(self.size as int)
    }
}

/// The code that a cache holds for a key, if it holds some.
pub open spec fn cached(
    cache: Seq<CachedCode>,
    basic_block_id: BasicBlockId,
    type_info: TypeInfo,
) -> Option<CachedCode>
    decreases cache.len(),
{
    if cache.len() == 0 {
        None
    } else if cache.last().basic_block_id == basic_block_id && cache.last().type_info
        == type_info {
        Some(cache.last())
    } else {
        cached(cache.drop_last(), basic_block_id, type_info)
    }
}

/// The entry address of a piece of code, if there is one.
pub open spec fn entry_of(code: Option<CachedCode>) -> Option<UnaryFunction> {
    match code {
        Some(code) => Some(code.entry),
        None => None,
    }
}

/// The bytes of a piece of code, if there is one.
pub open spec fn image_of(code: Option<CachedCode>) -> Option<Seq<u8>> {
    match code {
        Some(code) => Some(code.image()),
        None => None,
    }
}

/// No two pieces of code in the cache were generated for the same key.
pub open spec fn distinct_keys(cache: Seq<CachedCode>) -> bool {
    forall|i: int, j: int|
        0 <= i < j < cache.len() ==> !(cache[i].basic_block_id == cache[j].basic_block_id
            && cache[i].type_info == cache[j].type_info)
}

/// A key with an entry in the cache is the key of one of its pieces of code.
pub proof fn lemma_cached_is_held(
    cache: Seq<CachedCode>,
    basic_block_id: BasicBlockId,
    type_info: TypeInfo,
)
    ensures
        cached(cache, basic_block_id, type_info) is Some <==> exists|i: int|
            0 <= i < cache.len() && (#[trigger] cache[i]).basic_block_id == basic_block_id
                && cache[i].type_info == type_info,
    decreases cache.len(),
{
    if cache.len() > 0 {
        lemma_cached_is_held(cache.drop_last(), basic_block_id, type_info);
        if cache.last().basic_block_id == basic_block_id && cache.last().type_info == type_info {
            assert(cache[cache.len() - 1].basic_block_id == basic_block_id);
        } else {
            if cached(cache, basic_block_id, type_info) is Some {
                let shorter = cache.drop_last();
                let i = choose|i: int|
                    0 <= i < shorter.len() && (#[trigger] shorter[i]).basic_block_id
                        == basic_block_id && shorter[i].type_info == type_info;
                assert(cache[i] == shorter[i]);
            }
            if exists|i: int|
                0 <= i < cache.len() && (#[trigger] cache[i]).basic_block_id == basic_block_id
                    && cache[i].type_info == type_info {
                let i = choose|i: int|
                    0 <= i < cache.len() && (#[trigger] cache[i]).basic_block_id == basic_block_id
                        && cache[i].type_info == type_info;
                assert(cache.drop_last()[i] == cache[i]);
            }
        }
    }
}

/// Every piece of code in the caches is registered in the list, each under
/// a slot of its own.
pub open spec fn images_listed(
    compiled: Seq<CachedCode>,
    trampolines: Seq<CachedCode>,
    list: Seq<usize>,
) -> bool {
    &&& forall|i: int|
        0 <= i < compiled.len() ==> list.contains(
            (#[trigger] compiled[i]).registration.spec_entry(),
        )
    &&& forall|i: int|
        0 <= i < trampolines.len() ==> list.contains(
            (#[trigger] trampolines[i]).registration.spec_entry(),
        )
    &&& forall|i: int, j: int|
        0 <= i < j < compiled.len() ==> (#[trigger] compiled[i]).registration.spec_entry() != (
        #[trigger] compiled[j]).registration.spec_entry()
    &&& forall|i: int, j: int|
        0 <= i < j < trampolines.len() ==> (#[trigger] trampolines[i]).registration.spec_entry()
            != (#[trigger] trampolines[j]).registration.spec_entry()
    &&& forall|i: int, j: int|
        0 <= i < compiled.len() && 0 <= j < trampolines.len() ==> (
        #[trigger] compiled[i]).registration.spec_entry() != (
        #[trigger] trampolines[j]).registration.spec_entry()
}

/// Every piece of code in the cache stands at the start of a page of its
/// own, of [`CODE_PAGE_SIZE`] bytes.
pub open spec fn page_sized(cache: Seq<CachedCode>) -> bool {
    forall|i: int|
        0 <= i < cache.len() ==> (#[trigger] cache[i]).registration.spec_file().len()
            == CODE_PAGE_SIZE && cache[i].size <= CODE_PAGE_SIZE
}

/// Whether one of the pieces of code is registered under `slot`.
pub open spec fn holds_slot(cache: Seq<CachedCode>, slot: usize) -> bool {
    exists|i: int| 0 <= i < cache.len() && (#[trigger] cache[i]).registration.spec_entry() == slot
}

/// Taking a slot out of a list without repetitions leaves the other slots,
/// and only them.
pub proof fn lemma_removed_slot_is_gone(list: Seq<usize>, slot: usize, other: usize)
    requires
        list.no_duplicates(),
        list.contains(slot),
    ensures
        list.remove(list.index_of(slot)).contains(other) <==> (list.contains(other) && other
            != slot),
{
    let at = list.index_of(slot);
    let rest = list.remove(at);
    if rest.contains(other) {
        let position = choose|position: int| 0 <= position < rest.len() && rest[position] == other;
        let from = if position < at {
            position
        } else {
            position + 1
        };
        assert(list[from] == other);
        assert(list[from] != list[at]);
    }
    if list.contains(other) && other != slot {
        let position = choose|position: int| 0 <= position < list.len() && list[position] == other;
        let to = if position < at {
            position
        } else {
            position - 1
        };
        assert(rest[to] == other);
    }
}

/// The keys of the code in a cache, in order.
pub open spec fn cache_keys(cache: Seq<CachedCode>) -> Seq<(BasicBlockId, TypeInfo)> {
    Seq::new(cache.len(), |index: int| (cache[index].basic_block_id, cache[index].type_info))
}

/// The entry address that the cache holds for a key.
fn find_cached(
    cache: &Vec<CachedCode>,
    basic_block_id: BasicBlockId,
    type_info: TypeInfo,
) -> (entry: Option<UnaryFunction>)
    ensures
        entry == entry_of(cached(cache@, basic_block_id, type_info)),
{
    let mut i: usize = cache.len();
    assert(cache@.take(i as int) == cache@);
    while i > 0
        invariant
            i <= cache.len(),
            cached(cache@, basic_block_id, type_info) == cached(
                cache@.take(i as int),
                basic_block_id,
                type_info,
            ),
        decreases i,
    {
        let ghost prefix = cache@.take(i as int);
        assert(prefix.drop_last() == cache@.take(i as int - 1));
        assert(prefix.last() == cache@[i as int - 1]);
        i -= 1;
        if cache[i].basic_block_id == basic_block_id && cache[i].type_info == type_info {
            return Some(cache[i].entry);
        }
    }
    None
}

/// The runtime owner of a program: its flow graph, the native code compiled
/// for its blocks, the trampolines that stand in for blocks not yet
/// compiled, and the registry through which a debugger sees both.
pub struct Environment {
    pub(crate) dump_disassembly: bool,
    pub(crate) block_versions: Vec<CachedCode>,
    pub(crate) trampolines: Vec<CachedCode>,
    pub flow_graph: FlowGraph,
    pub(crate) descriptor: JITDescriptor,
    pub(crate) links: Option<RuntimeLinks>,
}

impl Environment {
    /// The code compiled for a key, if there is any.
    pub closed spec fn compiled_for(
        &self,
        basic_block_id: BasicBlockId,
        type_info: TypeInfo,
    ) -> Option<CachedCode> {
        cached(self.block_versions@, basic_block_id, type_info)
    }

    /// The trampoline for a key, if there is one.
    pub closed spec fn trampoline_for(
        &self,
        basic_block_id: BasicBlockId,
        type_info: TypeInfo,
    ) -> Option<CachedCode> {
        cached(self.trampolines@, basic_block_id, type_info)
    }

    /// The entry address of the code compiled for a key, if there is any.
    pub open spec fn compiled(&self, basic_block_id: BasicBlockId, type_info: TypeInfo) -> Option<
        UnaryFunction,
    > {
        entry_of(self.compiled_for(basic_block_id, type_info))
    }

    /// The entry address of the trampoline for a key, if there is one.
    pub open spec fn trampoline(
        &self,
        basic_block_id: BasicBlockId,
        type_info: TypeInfo,
    ) -> Option<UnaryFunction> {
        entry_of(self.trampoline_for(basic_block_id, type_info))
    }

    /// The bytes of the code compiled for a key, if there is any.
    pub open spec fn compiled_image(
        &self,
        basic_block_id: BasicBlockId,
        type_info: TypeInfo,
    ) -> Option<Seq<u8>> {
        image_of(self.compiled_for(basic_block_id, type_info))
    }

    /// The bytes of the trampoline for a key, if there is one.
    pub open spec fn trampoline_image(
        &self,
        basic_block_id: BasicBlockId,
        type_info: TypeInfo,
    ) -> Option<Seq<u8>> {
        image_of(self.trampoline_for(basic_block_id, type_info))
    }

    /// The addresses at which callers enter the blocks.
    pub open spec fn entries(&self) -> spec_fn(BasicBlockId) -> Option<UnaryFunction> {
        |block: BasicBlockId| self.entry_point(block, TypeInfo)
    }

    /// The addresses through which the code compiled for `caller` reaches
    /// the blocks. A block reaches itself through its trampoline: that is
    /// what stood for it while it was being compiled.
    pub open spec fn entries_seen_from(&self, caller: BasicBlockId) -> spec_fn(
        BasicBlockId,
    ) -> Option<UnaryFunction> {
        |block: BasicBlockId|
            if block == caller {
                self.trampoline(block, TypeInfo)
            } else {
                self.entry_point(block, TypeInfo)
            }
    }

    /// The address at which a caller enters a block: the compiled code where
    /// there is some, else the trampoline where there is one.
    pub open spec fn entry_point(
        &self,
        basic_block_id: BasicBlockId,
        type_info: TypeInfo,
    ) -> Option<UnaryFunction> {
        match self.compiled(basic_block_id, type_info) {
            Some(entry) => Some(entry),
            None => self.trampoline(basic_block_id, type_info),
        }
    }

    /// The flow graph that the environment runs.
    pub closed spec fn graph(&self) -> GraphView {
        self.flow_graph@
    }

    /// How many compilations the environment has made.
    pub closed spec fn compilations(&self) -> nat {
        self.block_versions@.len()
    }

    /// How many trampolines the environment has emitted.
    pub closed spec fn trampoline_count(&self) -> nat {
        self.trampolines@.len()
    }

    /// The addresses that generated code is linked against.
    pub closed spec fn spec_links(&self) -> Option<RuntimeLinks> {
        self.links
    }

    /// Whether the host is asked to print a disassembly of emitted code.
    pub closed spec fn spec_dump_disassembly(&self) -> bool {
        self.dump_disassembly
    }

    /// The descriptor of the list through which a debugger sees the
    /// generated code.
    pub closed spec fn spec_descriptor(&self) -> JITDescriptor {
        self.descriptor
    }

    /// The caches and the debugger's list are in order: the list is well
    /// formed, neither cache holds two pieces of code for one key, and every
    /// piece of code is registered in the list under a slot of its own and
    /// owns one page.
    pub closed spec fn caches_wf(&self) -> bool {
        &&& self.descriptor.wf()
        &&& distinct_keys(self.block_versions@)
        &&& distinct_keys(self.trampolines@)
        &&& images_listed(self.block_versions@, self.trampolines@, self.descriptor.list())
        &&& page_sized(self.block_versions@)
        &&& page_sized(self.trampolines@)
    }

    /// Whether code in one of the caches is registered under `slot`.
    pub closed spec fn owns_slot(&self, slot: usize) -> bool {
        holds_slot(self.block_versions@, slot) || holds_slot(self.trampolines@, slot)
    }

    /// The registration is in the debugger's list and belongs to none of
    /// the code in the caches: it is ready to be cached.
    pub closed spec fn newly_holds(&self, registration: GdbJitImageRegistration) -> bool {
        &&& self.descriptor.list().contains(registration.spec_entry())
        &&& !self.owns_slot(registration.spec_entry())
    }

    /// The invariant of an environment: the flow graph is well formed, and
    /// so are the caches and the debugger's list.
    pub open spec fn wf(&self) -> bool {
        &&& self.graph().wf()
        &&& self.caches_wf()
    }

    /// The environment holds the same code, for the same flow graph and
    /// links, as `earlier`.
    pub open spec fn same_code(&self, earlier: &Environment) -> bool {
        &&& self.graph() == earlier.graph()
        &&& self.spec_links() == earlier.spec_links()
        &&& self.spec_dump_disassembly() == earlier.spec_dump_disassembly()
        &&& self.compilations() == earlier.compilations()
        &&& self.trampoline_count() == earlier.trampoline_count()
        &&& forall|basic_block_id: BasicBlockId, type_info: TypeInfo|
            #![all_triggers]
            self.compiled_for(basic_block_id, type_info) == earlier.compiled_for(
                basic_block_id,
                type_info,
            ) && self.trampoline_for(basic_block_id, type_info) == earlier.trampoline_for(
                basic_block_id,
                type_info,
            )
    }

    /// What an operation may do to an environment that was `earlier`: code
    /// is added to the caches, and nothing that was cached is replaced or
    /// evicted. The flow graph and the links stay as they were.
    pub open spec fn extends(&self, earlier: &Environment) -> bool {
        &&& self.graph() == earlier.graph()
        &&& self.spec_links() == earlier.spec_links()
        &&& self.spec_dump_disassembly() == earlier.spec_dump_disassembly()
        &&& earlier.compilations() <= self.compilations()
        &&& earlier.trampoline_count() <= self.trampoline_count()
        &&& forall|basic_block_id: BasicBlockId, type_info: TypeInfo|
            (#[trigger] earlier.compiled_for(basic_block_id, type_info)) is Some
                ==> self.compiled_for(basic_block_id, type_info) == earlier.compiled_for(
                basic_block_id,
                type_info,
            )
        &&& forall|basic_block_id: BasicBlockId, type_info: TypeInfo|
            (#[trigger] earlier.trampoline_for(basic_block_id, type_info)) is Some
                ==> self.trampoline_for(basic_block_id, type_info) == earlier.trampoline_for(
                basic_block_id,
                type_info,
            )
    }

    /// An environment for a flow graph, with empty caches and no links yet.
    pub fn new(flow_graph: FlowGraph, dump_disassembly: bool) -> (environment: Self)
        requires
            flow_graph@.wf(),
        ensures
            environment.wf(),
            environment.graph() == flow_graph@,
            environment.compilations() == 0,
            environment.trampoline_count() == 0,
            environment.spec_links() is None,
            environment.spec_dump_disassembly() == dump_disassembly,
            environment.spec_descriptor().list() == Seq::<usize>::empty(),
            forall|basic_block_id: BasicBlockId, type_info: TypeInfo|
                (#[trigger] environment.entry_point(basic_block_id, type_info)) is None,
    {
        Self {
            dump_disassembly,
            block_versions: Vec::new(),
            trampolines: Vec::new(),
            flow_graph,
            descriptor: JITDescriptor::new(),
            links: None,
        }
    }

    /// Tells the environment the addresses that trampolines are linked
    /// against: its own, and that of the routine that compiles a block.
    pub fn attach(&mut self, links: RuntimeLinks)
        requires
            old(self).wf(),
        ensures
            final(self).wf(),
            final(self).spec_links() == Some(links),
            final(self).graph() == old(self).graph(),
            final(self).compilations() == old(self).compilations(),
            final(self).trampoline_count() == old(self).trampoline_count(),
            forall|basic_block_id: BasicBlockId, type_info: TypeInfo|
                #![all_triggers]
                final(self).compiled_for(basic_block_id, type_info) == old(self).compiled_for(
                    basic_block_id,
                    type_info,
                ) && final(self).trampoline_for(basic_block_id, type_info)
                    == old(self).trampoline_for(basic_block_id, type_info),
    {
        self.links = Some(links);
    }

    /// Publishes a listing as executable code, registered with the
    /// debugger's list, and returns the registration, the address of the
    /// code and its length in bytes. The caches are not touched.
    ///
    /// Whether memory can be had and the listing encoded is for the system
    /// and the assembler to say.
    pub fn publish(&mut self, listing: &Vec<MachineInstruction>) -> (result: Result<
        (GdbJitImageRegistration, UnaryFunction, usize),
        CodegenError,
    >)
        requires
            old(self).wf(),
        ensures
            final(self).wf(),
            final(self).same_code(old(self)),
            match result {
                Ok((registration, entry, size)) => final(self).newly_holds(registration)
                    && registration.spec_file().len() == CODE_PAGE_SIZE && size <= CODE_PAGE_SIZE
                    && registration.spec_file().take(size as int) == machine_code(listing@, entry)
                    && final(self).spec_descriptor().list()
                    == seq![registration.spec_entry()] + old(self).spec_descriptor().list(),
                Err(error) => (error == CodegenError::Assembler || error == CodegenError::Memory)
                    && final(self).spec_descriptor().list() == old(self).spec_descriptor().list(),
            },
    {
        let ghost listed = self.descriptor.list();
        let ghost slots = self.descriptor.entries@.len();
        proof {
            assert forall|slot: usize| listed.contains(slot) implies slot < slots by {
                let position = choose|position: int|
                    0 <= position < listed.len() && listed[position] == slot;
                assert(linked(self.descriptor.entries@, listed, position));
            }
        }
        match assemble_code(listing, &mut self.descriptor) {
            Ok((base_address, registration, size)) => {
                proof {
                    let list = self.descriptor.list();
                    assert(list[0] == registration.spec_entry());
                    assert forall|slot: usize| listed.contains(slot) implies list.contains(
                        slot,
                    ) by {
                        let position = choose|position: int|
                            0 <= position < listed.len() && listed[position] == slot;
                        assert(list[position + 1] == slot);
                    }
                }
                Ok((registration, base_address, size))
            },
            Err(error) => Err(error),
        }
    }

    /// Ends the life of the environment: every piece of code in the caches
    /// is taken off the debugger's list and its memory released. Returns the
    /// descriptor, whose list holds what it held before but for the
    /// environment's code.
    pub fn teardown(self) -> (descriptor: JITDescriptor)
        requires
            self.wf(),
        ensures
            descriptor.wf(),
            forall|slot: usize|
                descriptor.list().contains(slot) <==> (self.spec_descriptor().list().contains(slot)
                    && !self.owns_slot(slot)),
    {
        let Environment {
            dump_disassembly: _,
            mut block_versions,
            mut trampolines,
            flow_graph: _,
            mut descriptor,
            links: _,
        } = self;
        let ghost compiled = block_versions@;
        let ghost emitted = trampolines@;
        let ghost listed = descriptor.list();
        while trampolines.len() > 0
            invariant
                descriptor.wf(),
                block_versions@ == compiled,
                trampolines@ == emitted.take(trampolines@.len() as int),
                trampolines@.len() <= emitted.len(),
                images_listed(compiled, emitted, listed),
                images_listed(block_versions@, trampolines@, descriptor.list()),
                forall|slot: usize|
                    descriptor.list().contains(slot) <==> (listed.contains(slot) && !(
                    holds_slot(emitted, slot) && !holds_slot(trampolines@, slot))),
            decreases trampolines.len(),
        {
            let ghost remaining = trampolines@;
            let ghost list = descriptor.list();
            if let Some(code) = trampolines.pop() {
                let ghost slot = code.registration.spec_entry();
                proof {
                    assert(remaining[remaining.len() - 1] == code);
                    assert forall|other: usize| true implies (list.remove(
                        list.index_of(slot),
                    ).contains(other) <==> (list.contains(other) && other != slot)) by {
                        lemma_removed_slot_is_gone(list, slot, other);
                    }
                    assert(!holds_slot(trampolines@, slot)) by {
                        if holds_slot(trampolines@, slot) {
                            let i = choose|i: int|
                                0 <= i < trampolines@.len() && (
                                #[trigger] trampolines@[i]).registration.spec_entry() == slot;
                            assert(remaining[i] == trampolines@[i]);
                        }
                    }
                    assert forall|other: usize| other != slot implies (holds_slot(
                        trampolines@,
                        other,
                    ) <==> holds_slot(remaining, other)) by {
                        if holds_slot(trampolines@, other) {
                            let i = choose|i: int|
                                0 <= i < trampolines@.len() && (
                                #[trigger] trampolines@[i]).registration.spec_entry() == other;
                            assert(remaining[i] == trampolines@[i]);
                        }
                        if holds_slot(remaining, other) {
                            let i = choose|i: int|
                                0 <= i < remaining.len() && (
                                #[trigger] remaining[i]).registration.spec_entry() == other;
                            assert(trampolines@[i] == remaining[i]);
                        }
                    }
                    assert(holds_slot(emitted, slot)) by {
                        assert(emitted[remaining.len() - 1] == code);
                    }
                    assert forall|i: int| 0 <= i < trampolines@.len() implies (
                    #[trigger] trampolines@[i]).registration.spec_entry() != slot by {
                        assert(remaining[i] == trampolines@[i]);
                    }
                    assert forall|i: int| 0 <= i < trampolines@.len() implies (
                    #[trigger] trampolines@[i]) == remaining[i] by {}
                }
                let _ = code.registration.unregister(&mut descriptor);
            }
        }
        while block_versions.len() > 0
            invariant
                descriptor.wf(),
                trampolines@.len() == 0,
                block_versions@ == compiled.take(block_versions@.len() as int),
                block_versions@.len() <= compiled.len(),
                images_listed(compiled, emitted, listed),
                images_listed(block_versions@, trampolines@, descriptor.list()),
                forall|slot: usize|
                    descriptor.list().contains(slot) <==> (listed.contains(slot)
                        && !holds_slot(emitted, slot) && !(holds_slot(compiled, slot)
                        && !holds_slot(block_versions@, slot))),
            decreases block_versions.len(),
        {
            let ghost remaining = block_versions@;
            let ghost list = descriptor.list();
            if let Some(code) = block_versions.pop() {
                let ghost slot = code.registration.spec_entry();
                proof {
                    assert(remaining[remaining.len() - 1] == code);
                    assert forall|other: usize| true implies (list.remove(
                        list.index_of(slot),
                    ).contains(other) <==> (list.contains(other) && other != slot)) by {
                        lemma_removed_slot_is_gone(list, slot, other);
                    }
                    assert(!holds_slot(block_versions@, slot)) by {
                        if holds_slot(block_versions@, slot) {
                            let i = choose|i: int|
                                0 <= i < block_versions@.len() && (
                                #[trigger] block_versions@[i]).registration.spec_entry()
                                    == slot;
                            assert(remaining[i] == block_versions@[i]);
                        }
                    }
                    assert forall|other: usize| other != slot implies (holds_slot(
                        block_versions@,
                        other,
                    ) <==> holds_slot(remaining, other)) by {
                        if holds_slot(block_versions@, other) {
                            let i = choose|i: int|
                                0 <= i < block_versions@.len() && (
                                #[trigger] block_versions@[i]).registration.spec_entry()
                                    == other;
                            assert(remaining[i] == block_versions@[i]);
                        }
                        if holds_slot(remaining, other) {
                            let i = choose|i: int|
                                0 <= i < remaining.len() && (
                                #[trigger] remaining[i]).registration.spec_entry() == other;
                            assert(block_versions@[i] == remaining[i]);
                        }
                    }
                    assert(holds_slot(compiled, slot)) by {
                        assert(compiled[remaining.len() - 1] == code);
                    }
                    assert(!holds_slot(emitted, slot)) by {
                        if holds_slot(emitted, slot) {
                            let j = choose|j: int|
                                0 <= j < emitted.len() && (
                                #[trigger] emitted[j]).registration.spec_entry() == slot;
                            assert(compiled[remaining.len() - 1].registration.spec_entry()
                                != emitted[j].registration.spec_entry());
                        }
                    }
                    assert forall|i: int| 0 <= i < block_versions@.len() implies (
                    #[trigger] block_versions@[i]) == remaining[i] by {}
                }
                let _ = code.registration.unregister(&mut descriptor);
            }
        }
        proof {
            assert forall|slot: usize| !holds_slot(block_versions@, slot) by {}
        }
        descriptor
    }

    /// Hands the host the changes of the debugger's list that it has not
    /// announced yet, oldest first.
    pub fn take_announcements(&mut self) -> (taken: Vec<JITAnnouncement>)
        requires
            old(self).wf(),
        ensures
            final(self).wf(),
            final(self).same_code(old(self)),
            taken@ == old(self).spec_descriptor().announcements@,
            final(self).spec_descriptor().announcements@.len() == 0,
            final(self).spec_descriptor().list() == old(self).spec_descriptor().list(),
            final(self).spec_descriptor().entries@ == old(self).spec_descriptor().entries@,
    {
        self.descriptor.take_announcements()
    }

    /// Whether the host is asked to print a disassembly of emitted code.
    pub fn dump_disassembly(&self) -> (dump: bool)
        ensures
            dump == self.spec_dump_disassembly(),
    {
        self.dump_disassembly
    }

    /// The addresses that generated code is linked against.
    pub fn links(&self) -> (links: Option<RuntimeLinks>)
        ensures
            links == self.spec_links(),
    {
        self.links
    }

    /// The block with the given identifier in the flow graph.
    pub fn get_basic_block(&self, basic_block_id: &BasicBlockId) -> (block: Option<&BasicBlock>)
        ensures
            match block {
                Some(block) => self.graph().block(*basic_block_id) == Some(block@),
                None => self.graph().block(*basic_block_id) is None,
            },
    {
        self.flow_graph.get_basic_block(basic_block_id)
    }

    /// The code that has been compiled, in the order of compilation.
    pub fn compiled_code(&self) -> (code: &Vec<CachedCode>)
        ensures
            code@.len() == self.compilations(),
            self.wf() ==> page_sized(code@),
            forall|basic_block_id: BasicBlockId, type_info: TypeInfo|
                #![all_triggers]
                cached(code@, basic_block_id, type_info) == self.compiled_for(
                    basic_block_id,
                    type_info,
                ),
    {
        &self.block_versions
    }

    /// The trampolines that have been emitted, in the order of emission.
    pub fn trampoline_code(&self) -> (code: &Vec<CachedCode>)
        ensures
            code@.len() == self.trampoline_count(),
            self.wf() ==> page_sized(code@),
            forall|basic_block_id: BasicBlockId, type_info: TypeInfo|
                #![all_triggers]
                cached(code@, basic_block_id, type_info) == self.trampoline_for(
                    basic_block_id,
                    type_info,
                ),
    {
        &self.trampolines
    }

    /// The descriptor of the list through which a debugger sees the
    /// generated code.
    pub fn descriptor(&self) -> (descriptor: &JITDescriptor)
        ensures
            *descriptor == self.spec_descriptor(),
            self.wf() ==> descriptor.wf(),
    {
        &self.descriptor
    }

    /// The scopes of the flow graph.
    pub fn scopes(&self) -> (scopes: &ScopeArena)
        ensures
            scopes@ == self.graph().scopes,
    {
        self.flow_graph.scopes()
    }

    /// The address at which to enter a block: the compiled code where the
    /// block has been compiled, else its trampoline, which is emitted and
    /// cached now if there is none yet.
    pub fn basic_block_fn(&mut self, basic_block_id: BasicBlockId, type_info: TypeInfo) -> (result:
        Result<UnaryFunction, CodegenError>)
        requires
            old(self).wf(),
        ensures
            final(self).wf(),
            final(self).extends(old(self)),
            final(self).compilations() == old(self).compilations(),
            forall|id: BasicBlockId, other: TypeInfo|
                #![all_triggers]
                final(self).compiled_for(id, other) == old(self).compiled_for(id, other),
            match result {
                Ok(entry) => final(self).entry_point(basic_block_id, type_info) == Some(entry)
                    && match old(self).entry_point(basic_block_id, type_info) {
                    Some(known) => entry == known && final(self).same_code(old(self)),
                    None => {
                        &&& final(self).trampoline(basic_block_id, type_info) == Some(entry)
                        &&& final(self).trampoline_count() == old(self).trampoline_count() + 1
                        &&& old(self).spec_links() matches Some(links)
                        &&& final(self).trampoline_image(basic_block_id, type_info) == Some(
                            machine_code(
                                trampoline_code(
                                    links.environment,
                                    basic_block_id.0 as u64,
                                    links.trampoline_routine,
                                ),
                                entry,
                            ),
                        )
                    },
                },
                Err(error) => old(self).entry_point(basic_block_id, type_info) is None
                    && final(self).trampoline_count() == old(self).trampoline_count() && (error
                    == CodegenError::NotAttached <==> old(self).spec_links() is None) && (error
                    == CodegenError::NotAttached || error == CodegenError::Assembler || error
                    == CodegenError::Memory),
            },
    {
        if let Some(entry) = find_cached(&self.block_versions, basic_block_id, type_info) {
            return Ok(entry);
        }
        if let Some(entry) = find_cached(&self.trampolines, basic_block_id, type_info) {
            return Ok(entry);
        }
        let (registration, entry, size) = match codegen_trampoline(self, &basic_block_id) {
            Ok(trampoline) => trampoline,
            Err(error) => {
                return Err(error);
            },
        };
        let ghost before = self.trampolines@;
        proof {
            lemma_cached_is_held(before, basic_block_id, type_info);
        }
        self.trampolines.push(CachedCode { basic_block_id, type_info, registration, entry, size });
        proof {
            let after = self.trampolines@;
            assert(after.drop_last() == before);
            assert forall|id: BasicBlockId, ti: TypeInfo|
                (#[trigger] cached(before, id, ti)) is Some implies cached(after, id, ti)
                == cached(before, id, ti) by {
                lemma_cached_is_held(before, id, ti);
            }
        }
        Ok(entry)
    }

    /// The address at which a caller enters a block, as the caches stand:
    /// nothing is emitted.
    pub fn entry_point_of(&self, basic_block_id: BasicBlockId, type_info: TypeInfo) -> (entry:
        Option<UnaryFunction>)
        ensures
            entry == self.entry_point(basic_block_id, type_info),
    {
        match find_cached(&self.block_versions, basic_block_id, type_info) {
            Some(entry) => Some(entry),
            None => find_cached(&self.trampolines, basic_block_id, type_info),
        }
    }

    /// Says why the code generator refuses a block, with the entry addresses
    /// as the caches hold them now: the error, the first construct of the
    /// block that is refused, and the name of the system function that
    /// declined its operands, where that is the error. `None` where
    /// selection takes the block. Nothing is emitted or compiled.
    #[verifier::loop_isolation(false)]
    pub fn explain_refusal(&self, basic_block_id: &BasicBlockId) -> (refusal: Option<Refusal>)
        requires
            self.wf(),
        ensures
            match self.graph().block(*basic_block_id) {
                Some(block) => match refusal {
                    Some(refusal) => refusal.explains(
                        block,
                        self.graph().scopes,
                        call_targets(self.entries(), block.instructions),
                        jump_targets(self.entries(), block.tails),
                    ),
                    None => block_code(
                        block,
                        self.graph().scopes,
                        call_targets(self.entries(), block.instructions),
                        jump_targets(self.entries(), block.tails),
                    ) is Ok,
                },
                None => refusal == Some(
                    Refusal {
                        error: CodegenError::InvalidBlock,
                        construct: RefusedConstruct::Block,
                        system_function: None,
                    },
                ),
            },
    {
        let block = match self.get_basic_block(basic_block_id) {
            Some(block) => block,
            None => {
                return Some(
                    Refusal {
                        error: CodegenError::InvalidBlock,
                        construct: RefusedConstruct::Block,
                        system_function: None,
                    },
                );
            },
        };
        let mut calls: Vec<Option<u64>> = Vec::new();
        let mut index: usize = 0;
        while index < block.instructions.len()
            invariant
                index <= block.instructions.len(),
                calls@.len() == index,
                forall|at: int|
                    0 <= at < index ==> #[trigger] calls@[at] == call_targets(
                        self.entries(),
                        block@.instructions,
                    )[at],
            decreases block.instructions.len() - index,
        {
            let target = match &block.instructions[index] {
                FlowInstruction::CallFunction { basic_block_id, argument_count: _ } => {
                    self.entry_point_of(*basic_block_id, TypeInfo)
                },
                _ => None,
            };
            calls.push(target);
            index += 1;
        }
        let mut jumps: Vec<Option<u64>> = Vec::new();
        let mut index: usize = 0;
        while index < block.tails.len()
            invariant
                index <= block.tails.len(),
                jumps@.len() == index,
                forall|at: int|
                    0 <= at < index ==> #[trigger] jumps@[at] == jump_targets(
                        self.entries(),
                        block@.tails,
                    )[at],
            decreases block.tails.len() - index,
        {
            let target = match block.tails[index] {
                TailInstruction::Jump(target) => self.entry_point_of(target, TypeInfo),
                TailInstruction::ConditionalJump(_) => None,
            };
            jumps.push(target);
            index += 1;
        }
        assert(calls@ =~= call_targets(self.entries(), block@.instructions));
        assert(jumps@ =~= jump_targets(self.entries(), block@.tails));
        match codegen_block_explained(block, self.scopes(), &calls, &jumps) {
            Ok(_) => None,
            Err(refusal) => Some(refusal),
        }
    }

    /// Starts a run: resolves the entry block of the program to the address
    /// at which the host enters it.
    pub fn run(&mut self) -> (result: Result<UnaryFunction, CodegenError>)
        requires
            old(self).wf(),
        ensures
            final(self).wf(),
            final(self).extends(old(self)),
            match result {
                Ok(entry) => old(self).graph().root_block_id matches Some(root)
                    && final(self).entry_point(root, TypeInfo) == Some(entry),
                Err(error) => match old(self).graph().root_block_id {
                    Some(root) => {
                        &&& old(self).entry_point(root, TypeInfo) is None
                        &&& error == CodegenError::NotAttached <==> old(self).spec_links() is None
                        &&& error == CodegenError::NotAttached || error == CodegenError::Assembler
                            || error == CodegenError::Memory
                    },
                    None => error == CodegenError::InvalidBlock,
                },
            },
    {
        let type_info = TypeInfo;
        let basic_block_id = match self.flow_graph.root_block() {
            Some(root) => root,
            None => {
                return Err(CodegenError::InvalidBlock);
            },
        };
        self.basic_block_fn(basic_block_id, type_info)
    }

    /// Compiles a block for a key, unless it has been compiled for that key
    /// before, and returns the entry address of the compiled code. This is
    /// what a trampoline asks for when it is entered.
    pub fn compile_basic_block(
        &mut self,
        basic_block_id: &BasicBlockId,
        type_info: &TypeInfo,
    ) -> (result: Result<UnaryFunction, CodegenError>)
        requires
            old(self).wf(),
        ensures
            final(self).wf(),
            final(self).extends(old(self)),
            match result {
                Ok(entry) => final(self).compiled(*basic_block_id, *type_info) == Some(entry)
                    && match old(self).compiled(*basic_block_id, *type_info) {
                    Some(known) => entry == known && final(self).same_code(old(self)),
                    None => {
                        &&& final(self).compilations() == old(self).compilations() + 1
                        &&& old(self).graph().block(*basic_block_id) matches Some(block)
                        &&& block_code(
                            block,
                            old(self).graph().scopes,
                            call_targets(
                                final(self).entries_seen_from(*basic_block_id),
                                block.instructions,
                            ),
                            jump_targets(
                                final(self).entries_seen_from(*basic_block_id),
                                block.tails,
                            ),
                        ) matches Ok(listing)
                        &&& final(self).compiled_image(*basic_block_id, *type_info) == Some(
                            machine_code(listing, entry),
                        )
                    },
                },
                Err(error) => old(self).compiled(*basic_block_id, *type_info) is None
                    && final(self).compilations() == old(self).compilations()
                    && match old(self).graph().block(*basic_block_id) {
                    Some(block) => {
                        &&& error == CodegenError::NotAttached <==> old(self).spec_links()
                            is None && needs_trampoline(old(self), block)
                        &&& error == CodegenError::NotAttached || error
                            == CodegenError::Assembler || error == CodegenError::Memory
                            || block_code(
                            block,
                            old(self).graph().scopes,
                            call_targets(final(self).entries(), block.instructions),
                            jump_targets(final(self).entries(), block.tails),
                        ) == Err::<Seq<MachineInstruction>, CodegenError>(error)
                    },
                    None => error == CodegenError::InvalidBlock,
                },
            },
    {
        if let Some(entry) = find_cached(&self.block_versions, *basic_block_id, *type_info) {
            return Ok(entry);
        }
        let (registration, entry, size) = match codegen_basic_block(self, basic_block_id) {
            Ok(code) => code,
            Err(error) => {
                return Err(error);
            },
        };
        let ghost before = self.block_versions@;
        let ghost generated = *self;
        proof {
            lemma_cached_is_held(before, *basic_block_id, *type_info);
        }
        self.block_versions.push(
            CachedCode {
                basic_block_id: *basic_block_id,
                type_info: *type_info,
                registration,
                entry,
                size,
            },
        );
        proof {
            let after = self.block_versions@;
            assert(after.drop_last() == before);
            assert forall|id: BasicBlockId, ti: TypeInfo|
                (#[trigger] cached(before, id, ti)) is Some implies cached(after, id, ti) == cached(
                before,
                id,
                ti,
            ) by {
                lemma_cached_is_held(before, id, ti);
            }
            let block = old(self).graph().block(*basic_block_id)->Some_0;
            let seen = self.entries_seen_from(*basic_block_id);
            let resolve = generated.entries();
            assert forall|index: int| 0 <= index < block.instructions.len() implies call_targets(
                seen,
                block.instructions,
            )[index] == call_targets(resolve, block.instructions)[index] by {
                if let FlowInstruction::CallFunction { basic_block_id: callee, .. } =
                    block.instructions[index] {
                    assert(generated.trampoline_for(callee, TypeInfo) == self.trampoline_for(
                        callee,
                        TypeInfo,
                    ));
                    if callee != *basic_block_id {
                        assert(cached(after, callee, TypeInfo) == cached(
                            before,
                            callee,
                            TypeInfo,
                        ));
                    }
                    assert(seen(callee) == resolve(callee));
                }
            }
            assert forall|index: int| 0 <= index < block.tails.len() implies jump_targets(
                seen,
                block.tails,
            )[index] == jump_targets(resolve, block.tails)[index] by {
                if let TailInstruction::Jump(callee) = block.tails[index] {
                    assert(generated.trampoline_for(callee, TypeInfo) == self.trampoline_for(
                        callee,
                        TypeInfo,
                    ));
                    if callee != *basic_block_id {
                        assert(cached(after, callee, TypeInfo) == cached(
                            before,
                            callee,
                            TypeInfo,
                        ));
                    }
                    assert(seen(callee) == resolve(callee));
                }
            }
            assert(call_targets(seen, block.instructions) =~= call_targets(
                resolve,
                block.instructions,
            ));
            assert(jump_targets(seen, block.tails) =~= jump_targets(resolve, block.tails));
        }
        Ok(entry)
    }
}

/// Operations compose: what extends an environment that extends a third
/// extends the third.
pub proof fn lemma_extends_is_transitive(
    first: &Environment,
    second: &Environment,
    third: &Environment,
)
    requires
        second.extends(first),
        third.extends(second),
    ensures
        third.extends(first),
{
    assert forall|basic_block_id: BasicBlockId, type_info: TypeInfo|
        (#[trigger] first.compiled_for(basic_block_id, type_info)) is Some
        implies third.compiled_for(basic_block_id, type_info) == first.compiled_for(
        basic_block_id,
        type_info,
    ) by {
        assert(second.compiled_for(basic_block_id, type_info) is Some);
    }
    assert forall|basic_block_id: BasicBlockId, type_info: TypeInfo|
        (#[trigger] first.trampoline_for(basic_block_id, type_info)) is Some
        implies third.trampoline_for(basic_block_id, type_info) == first.trampoline_for(
        basic_block_id,
        type_info,
    ) by {
        assert(second.trampoline_for(basic_block_id, type_info) is Some);
    }
}

/// The compiled cache is monotonic: once code has been compiled for a key,
/// every later state of the environment holds the same entry address for
/// the key, and that address is where the block is entered.
pub proof fn lemma_compiled_code_stays(
    earlier: &Environment,
    later: &Environment,
    basic_block_id: BasicBlockId,
    type_info: TypeInfo,
)
    requires
        later.extends(earlier),
        earlier.compiled(basic_block_id, type_info) is Some,
    ensures
        later.compiled(basic_block_id, type_info) == earlier.compiled(basic_block_id, type_info),
        later.compiled_image(basic_block_id, type_info) == earlier.compiled_image(
            basic_block_id,
            type_info,
        ),
        later.entry_point(basic_block_id, type_info) == earlier.compiled(
            basic_block_id,
            type_info,
        ),
{
    assert(earlier.compiled_for(basic_block_id, type_info) is Some);
}

impl Environment {
    /// The keys that code has been compiled for.
    pub open spec fn compiled_keys(&self) -> Set<(BasicBlockId, TypeInfo)> {
        Set::new(|key: (BasicBlockId, TypeInfo)| self.compiled(key.0, key.1) is Some)
    }
}

/// Each key is compiled at most once: the environment has made exactly as
/// many compilations as there are keys with compiled code.
pub proof fn lemma_one_compilation_per_key(environment: &Environment)
    requires
        environment.wf(),
    ensures
        environment.compiled_keys().finite(),
        environment.compiled_keys().len() == environment.compilations(),
{
    let cache = environment.block_versions@;
    let keys = cache_keys(cache);
    assert(keys.no_duplicates()) by {
        assert forall|i: int, j: int|
            0 <= i < keys.len() && 0 <= j < keys.len() && i != j implies keys[i] != keys[j] by {
            if i < j {
                assert(!(cache[i].basic_block_id == cache[j].basic_block_id && cache[i].type_info
                    == cache[j].type_info));
            } else {
                assert(!(cache[j].basic_block_id == cache[i].basic_block_id && cache[j].type_info
                    == cache[i].type_info));
            }
        }
    }
    keys.unique_seq_to_set();
    assert(environment.compiled_keys() =~= keys.to_set()) by {
        assert forall|key: (BasicBlockId, TypeInfo)|
            environment.compiled_keys().contains(key) <==> keys.to_set().contains(key) by {
            lemma_cached_is_held(cache, key.0, key.1);
            if environment.compiled_keys().contains(key) {
                let i = choose|i: int|
                    0 <= i < cache.len() && (#[trigger] cache[i]).basic_block_id == key.0
                        && cache[i].type_info == key.1;
                assert(keys[i] == key);
            }
            if keys.to_set().contains(key) {
                let i = choose|i: int| 0 <= i < keys.len() && keys[i] == key;
                assert(cache[i].basic_block_id == key.0);
            }
        }
    }
}

} // verus!
