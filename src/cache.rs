use vstd::prelude::*;

use crate::bytes::copy_bytes;
use crate::checksum::{checksum_of, Checksum};
use crate::error::ErrorKind;

verus! {

/// A stored bytecode, under its checksum.
#[derive(Debug)]
pub struct StoredCode {
    pub checksum: Checksum,
    pub code: Vec<u8>,
}

/// A compiled module held in memory, with the size it is estimated to take.
#[derive(Debug)]
pub struct CachedModule<M> {
    pub checksum: Checksum,
    pub module: M,
    pub size: usize,
}

/// The code stored under `key`: that of the first entry with this checksum.
pub open spec fn code_under(codes: Seq<StoredCode>, key: Seq<u8>) -> Option<Seq<u8>>
    decreases codes.len(),
{
    if codes.len() == 0 {
        None
    } else if codes[0].checksum@ == key {
        Some(codes[0].code@)
    } else {
        code_under(codes.drop_first(), key)
    }
}

proof fn lemma_code_under_update(codes: Seq<StoredCode>, i: int, entry: StoredCode, key: Seq<u8>)
    requires
        0 <= i < codes.len(),
        codes[i].checksum@ == entry.checksum@,
        forall|j: int| 0 <= j < i ==> (#[trigger] codes[j]).checksum@ != entry.checksum@,
    ensures
        code_under(codes.update(i, entry), key) == if key == entry.checksum@ {
            Some(entry.code@)
        } else {
            code_under(codes, key)
        },
    decreases i,
{
    if i > 0 {
        assert(codes.update(i, entry).drop_first() =~= codes.drop_first().update(i - 1, entry));
        assert forall|j: int| 0 <= j < i - 1 implies (#[trigger] codes.drop_first()[j]).checksum@ != entry.checksum@ by {
            assert(codes.drop_first()[j] == codes[j + 1]);
        }
        lemma_code_under_update(codes.drop_first(), i - 1, entry, key);
    } else {
        assert(codes.update(i, entry).drop_first() =~= codes.drop_first());
    }
}

proof fn lemma_code_under_push(codes: Seq<StoredCode>, entry: StoredCode, key: Seq<u8>)
    requires
        code_under(codes, entry.checksum@) is None,
    ensures
        code_under(codes.push(entry), key) == if key == entry.checksum@ {
            Some(entry.code@)
        } else {
            code_under(codes, key)
        },
    decreases codes.len(),
{
    if codes.len() > 0 {
        assert(codes.push(entry).drop_first() =~= codes.drop_first().push(entry));
        lemma_code_under_push(codes.drop_first(), entry, key);
    } else {
        assert(codes.push(entry).drop_first() =~= codes);
    }
}

/// The index of the first entry stored under `key`, if any.
fn find_code(codes: &Vec<StoredCode>, key: &Checksum) -> (r: Option<usize>)
    ensures
        r is None ==> code_under(codes@, key@) is None,
        r is Some ==> {
            &&& r->Some_0 < codes@.len()
            &&& codes@[r->Some_0 as int].checksum@ == key@
            &&& forall|j: int| 0 <= j < r->Some_0 ==> (#[trigger] codes@[j]).checksum@ != key@
            &&& code_under(codes@, key@) == Some(codes@[r->Some_0 as int].code@)
        },
{
    let mut i: usize = 0;
    assert(codes@.subrange(0, codes@.len() as int) =~= codes@);
    while i < codes.len()
        invariant
            0 <= i <= codes@.len(),
            forall|j: int| 0 <= j < i ==> (#[trigger] codes@[j]).checksum@ != key@,
            code_under(codes@.subrange(i as int, codes@.len() as int), key@) == code_under(codes@, key@),
        decreases codes@.len() - i,
    {
        assert(codes@.subrange(i as int, codes@.len() as int).drop_first()
            =~= codes@.subrange(i + 1, codes@.len() as int));
        if codes[i].checksum.same_as(key) {
            return Some(i);
        }
        i = i + 1;
    }
    None
}

/// The checksums of a list of modules, in order.
pub open spec fn module_keys<M>(ms: Seq<CachedModule<M>>) -> Seq<Seq<u8>> {
    ms.map_values(|m: CachedModule<M>| m.checksum@)
}

/// No checksum occurs twice.
pub open spec fn distinct_keys(keys: Seq<Seq<u8>>) -> bool {
    forall|i: int, j: int| 0 <= i < keys.len() && 0 <= j < keys.len() && i != j ==> keys[i] != keys[j]
}

/// The sum of the sizes of a list of modules.
pub open spec fn modules_size<M>(ms: Seq<CachedModule<M>>) -> int
    decreases ms.len(),
{
    if ms.len() == 0 {
        0
    } else {
        ms[0].size + modules_size(ms.drop_first())
    }
}

proof fn lemma_modules_size_push<M>(ms: Seq<CachedModule<M>>, m: CachedModule<M>)
    ensures
        modules_size(ms.push(m)) == modules_size(ms) + m.size,
    decreases ms.len(),
{
    if ms.len() > 0 {
        assert(ms.push(m).drop_first() =~= ms.drop_first().push(m));
        lemma_modules_size_push(ms.drop_first(), m);
    } else {
        assert(ms.push(m).drop_first() =~= ms);
    }
}

proof fn lemma_modules_size_remove<M>(ms: Seq<CachedModule<M>>, i: int)
    requires
        0 <= i < ms.len(),
    ensures
        modules_size(ms.remove(i)) == modules_size(ms) - ms[i].size,
    decreases i,
{
    if i > 0 {
        assert(ms.remove(i).drop_first() =~= ms.drop_first().remove(i - 1));
        lemma_modules_size_remove(ms.drop_first(), i - 1);
    } else {
        assert(ms.remove(0) =~= ms.drop_first());
    }
}

proof fn lemma_modules_size_nonneg<M>(ms: Seq<CachedModule<M>>)
    ensures
        modules_size(ms) >= 0,
    decreases ms.len(),
{
    if ms.len() > 0 {
        lemma_modules_size_nonneg(ms.drop_first());
    }
}

/// The module held under `key` in a list of modules: that of the first entry
/// with this checksum.
pub open spec fn module_of<M>(ms: Seq<CachedModule<M>>, key: Seq<u8>) -> Option<M>
    decreases ms.len(),
{
    if ms.len() == 0 {
        None
    } else if ms[0].checksum@ == key {
        Some(ms[0].module)
    } else {
        module_of(ms.drop_first(), key)
    }
}

proof fn lemma_module_of_index<M>(ms: Seq<CachedModule<M>>, i: int)
    requires
        distinct_keys(module_keys(ms)),
        0 <= i < ms.len(),
    ensures
        module_of(ms, ms[i].checksum@) == Some(ms[i].module),
    decreases i,
{
    if i > 0 {
        assert(module_keys(ms)[0] == ms[0].checksum@);
        assert(module_keys(ms)[i] == ms[i].checksum@);
        assert(module_keys(ms.drop_first()) =~= module_keys(ms).drop_first());
        assert(ms.drop_first()[i - 1] == ms[i]);
        lemma_module_of_index(ms.drop_first(), i - 1);
    }
}

proof fn lemma_module_of_absent<M>(ms: Seq<CachedModule<M>>, key: Seq<u8>)
    requires
        !module_keys(ms).contains(key),
    ensures
        module_of(ms, key) is None,
    decreases ms.len(),
{
    if ms.len() > 0 {
        assert(module_keys(ms)[0] == ms[0].checksum@);
        assert(module_keys(ms.drop_first()) =~= module_keys(ms).drop_first());
        if module_keys(ms.drop_first()).contains(key) {
            let j = choose|j: int| 0 <= j < module_keys(ms.drop_first()).len() && module_keys(ms.drop_first())[j] == key;
            assert(module_keys(ms)[j + 1] == key);
        }
        lemma_module_of_absent(ms.drop_first(), key);
    }
}

/// The index of the module held under `key`, if any.
fn find_module<M>(ms: &Vec<CachedModule<M>>, key: &Checksum) -> (r: Option<usize>)
    ensures
        r is None ==> !module_keys(ms@).contains(key@),
        r is Some ==> r->Some_0 < ms@.len() && module_keys(ms@)[r->Some_0 as int] == key@,
{
    let mut i: usize = 0;
    while i < ms.len()
        invariant
            0 <= i <= ms@.len(),
            forall|j: int| 0 <= j < i ==> (#[trigger] ms@[j]).checksum@ != key@,
        decreases ms@.len() - i,
    {
        if ms[i].checksum.same_as(key) {
            return Some(i);
        }
        i = i + 1;
    }
    proof {
        if module_keys(ms@).contains(key@) {
            let j = choose|j: int| 0 <= j < module_keys(ms@).len() && module_keys(ms@)[j] == key@;
            assert(ms@[j].checksum@ == key@);
        }
    }
    None
}

/// The cache of bytecode and compiled modules.
///
/// Bytecode is kept by checksum. Compiled modules are held in memory in two
/// places: the pinned ones, which stay until they are unpinned, and the others,
/// least recently used first, whose sizes together stay within `memory_limit`.
#[derive(Debug)]
pub struct ModuleCache<M> {
    codes: Vec<StoredCode>,
    pinned: Vec<CachedModule<M>>,
    recent: Vec<CachedModule<M>>,
    memory_limit: usize,
    memory_used: usize,
}

impl<M> ModuleCache<M> {
    /// The bytecode stored under a checksum.
    pub closed spec fn stored(&self, key: Seq<u8>) -> Option<Seq<u8>> {
        code_under(self.codes@, key)
    }

    /// How many bytecodes are stored.
    pub closed spec fn stored_count(&self) -> nat {
        self.codes@.len()
    }

    /// The checksums of the pinned modules.
    pub closed spec fn pinned_keys(&self) -> Seq<Seq<u8>> {
        module_keys(self.pinned@)
    }

    /// The checksums of the other modules in memory, least recently used first.
    pub closed spec fn recent_keys(&self) -> Seq<Seq<u8>> {
        module_keys(self.recent@)
    }

    /// The compiled module held in memory under a checksum, pinned or not.
    pub closed spec fn module_under(&self, key: Seq<u8>) -> Option<M> {
        if module_keys(self.pinned@).contains(key) {
            module_of(self.pinned@, key)
        } else {
            module_of(self.recent@, key)
        }
    }

    /// What the modules that are not pinned take together.
    pub closed spec fn memory_used(&self) -> int {
        modules_size(self.recent@)
    }

    /// What the recent modules from position `n` on take together.
    pub closed spec fn recent_size_from(&self, n: int) -> int {
        modules_size(self.recent@.subrange(n, self.recent@.len() as int))
    }

    pub closed spec fn memory_limit(&self) -> int {
        self.memory_limit as int
    }

    pub closed spec fn wf(&self) -> bool {
        &&& distinct_keys(module_keys(self.pinned@))
        &&& distinct_keys(module_keys(self.recent@))
        &&& forall|k: Seq<u8>| module_keys(self.pinned@).contains(k) ==> !module_keys(self.recent@).contains(k)
        &&& self.memory_used == modules_size(self.recent@)
        &&& self.memory_used <= self.memory_limit
        &&& forall|k: Seq<u8>| module_keys(self.pinned@).contains(k) ==> (#[trigger] code_under(self.codes@, k)) is Some
    }

    /// `after` is `before` with `wasm` stored under `checksum`, its checksum;
    /// the modules in memory are untouched.
    pub open spec fn saved(before: Self, wasm: Seq<u8>, after: Self, checksum: Seq<u8>) -> bool {
        &&& checksum == checksum_of(wasm)
        &&& forall|key: Seq<u8>| #[trigger] after.stored(key) == if key == checksum {
            Some(wasm)
        } else {
            before.stored(key)
        }
        &&& before.stored(checksum) is Some ==> after.stored_count() == before.stored_count()
        &&& before.stored(checksum) is None ==> after.stored_count() == before.stored_count() + 1
        &&& after.pinned_keys() == before.pinned_keys()
        &&& after.recent_keys() == before.recent_keys()
        &&& after.memory_used() == before.memory_used()
        &&& after.memory_limit() == before.memory_limit()
    }

    /// An empty cache whose unpinned modules may take `memory_limit` bytes.
    pub fn new(memory_limit: usize) -> (r: ModuleCache<M>)
        ensures
            r.wf(),
            forall|key: Seq<u8>| r.stored(key) is None,
            r.stored_count() == 0,
            r.pinned_keys() == Seq::<Seq<u8>>::empty(),
            r.recent_keys() == Seq::<Seq<u8>>::empty(),
            r.memory_limit() == memory_limit,
    {
        let r = ModuleCache { codes: Vec::new(), pinned: Vec::new(), recent: Vec::new(), memory_limit, memory_used: 0 };
        assert(r.pinned_keys() =~= Seq::<Seq<u8>>::empty());
        assert(r.recent_keys() =~= Seq::<Seq<u8>>::empty());
        r
    }

    /// Stores a bytecode under its checksum and returns the checksum. Storing the
    /// same bytecode again stores nothing new.
    pub fn save_wasm(&mut self, wasm: &[u8]) -> (r: Checksum)
        requires
            old(self).wf(),
        ensures
            final(self).wf(),
            r.wf(),
            Self::saved(*old(self), wasm@, *final(self), r@),
    {
        let checksum = Checksum::generate(wasm);
        let entry = StoredCode { checksum: checksum.duplicate(), code: copy_bytes(wasm) };
        match find_code(&self.codes, &checksum) {
            Some(i) => {
                proof {
                    assert forall|key: Seq<u8>| code_under(self.codes@.update(i as int, entry), key) == if key == checksum@ {
                        Some(wasm@)
                    } else {
                        code_under(self.codes@, key)
                    } by {
                        lemma_code_under_update(self.codes@, i as int, entry, key);
                    }
                }
                self.codes.set(i, entry);
            },
            None => {
                proof {
                    assert forall|key: Seq<u8>| code_under(self.codes@.push(entry), key) == if key == checksum@ {
                        Some(wasm@)
                    } else {
                        code_under(self.codes@, key)
                    } by {
                        lemma_code_under_push(self.codes@, entry, key);
                    }
                }
                self.codes.push(entry);
            },
        }
        checksum
    }

    /// The bytecode stored under a checksum.
    pub fn load_wasm(&self, checksum: &Checksum) -> (r: Result<Vec<u8>, ErrorKind>)
        ensures
            self.stored(checksum@) is None ==> r == Err::<Vec<u8>, ErrorKind>(ErrorKind::NotFound),
            self.stored(checksum@) is Some ==> r is Ok && r->Ok_0@ == self.stored(checksum@)->Some_0,
    {
        match find_code(&self.codes, checksum) {
            Some(i) => Ok(copy_bytes(self.codes[i].code.as_slice())),
            None => Err(ErrorKind::NotFound),
        }
    }

    /// How many bytecodes are stored.
    pub fn code_count(&self) -> (r: usize)
        ensures
            r == self.stored_count(),
    {
        self.codes.len()
    }

    /// What the modules that are not pinned take together.
    pub fn memory_usage(&self) -> (r: usize)
        requires
            self.wf(),
        ensures
            r == self.memory_used(),
    {
        self.memory_used
    }

    /// Whether the module under a checksum is in memory without being pinned.
    pub fn is_recent(&self, checksum: &Checksum) -> (r: bool)
        ensures
            r == self.recent_keys().contains(checksum@),
    {
        find_module(&self.recent, checksum).is_some()
    }

    /// Whether the module under a checksum is pinned.
    pub fn is_pinned(&self, checksum: &Checksum) -> (r: bool)
        ensures
            r == self.pinned_keys().contains(checksum@),
    {
        find_module(&self.pinned, checksum).is_some()
    }

    /// Pins the module of a stored bytecode, so that it stays in memory until it is
    /// unpinned. `module` is its compiled form, used only where the module is in
    /// memory neither pinned nor among the recent ones. Pinning twice changes nothing.
    pub fn pin(&mut self, checksum: &Checksum, module: M, size: usize) -> (r: Result<(), ErrorKind>)
        requires
            old(self).wf(),
        ensures
            final(self).wf(),
            old(self).stored(checksum@) is None ==> r == Err::<(), ErrorKind>(ErrorKind::NotFound) && *final(self) == *old(self),
            old(self).stored(checksum@) is Some ==> r is Ok,
            old(self).pinned_keys().contains(checksum@) ==> *final(self) == *old(self),
            forall|key: Seq<u8>| #[trigger] final(self).stored(key) == old(self).stored(key),
            final(self).stored_count() == old(self).stored_count(),
            final(self).memory_limit() == old(self).memory_limit(),
            r is Ok ==> forall|key: Seq<u8>| #[trigger] final(self).pinned_keys().contains(key)
                <==> (old(self).pinned_keys().contains(key) || key == checksum@),
            r is Ok ==> forall|key: Seq<u8>| #[trigger] final(self).recent_keys().contains(key)
                <==> (old(self).recent_keys().contains(key) && key != checksum@),
    {
        if find_code(&self.codes, checksum).is_none() {
            return Err(ErrorKind::NotFound);
        }
        if find_module(&self.pinned, checksum).is_some() {
            return Ok(());
        }
        let ghost old_pinned = self.pinned@;
        let ghost old_recent = self.recent@;
        let ghost mut gone: int = -1;
        let entry = match find_module(&self.recent, checksum) {
            Some(i) => {
                let entry = self.recent.remove(i);
                proof {
                    gone = i as int;
                }
                proof {
                    lemma_modules_size_remove(old_recent, i as int);
                    lemma_modules_size_nonneg(self.recent@);
                    assert(module_keys(self.recent@) =~= module_keys(old_recent).remove(i as int));
                }
                self.memory_used = self.memory_used - entry.size;
                entry
            },
            None => CachedModule { checksum: checksum.duplicate(), module, size },
        };
        self.pinned.push(entry);
        proof {
            if gone >= 0 {
                assert(self.recent@ == old_recent.remove(gone));
                assert(old_recent[gone].checksum@ == checksum@);
            } else {
                assert(self.recent@ == old_recent);
            }
            assert(module_keys(self.pinned@) =~= module_keys(old_pinned).push(checksum@));
            assert forall|key: Seq<u8>| #[trigger] module_keys(self.pinned@).contains(key)
                <==> (module_keys(old_pinned).contains(key) || key == checksum@) by {
                if module_keys(old_pinned).contains(key) {
                    let j = choose|j: int| 0 <= j < module_keys(old_pinned).len() && module_keys(old_pinned)[j] == key;
                    assert(module_keys(self.pinned@)[j] == key);
                }
                if key == checksum@ {
                    assert(module_keys(self.pinned@)[old_pinned.len() as int] == key);
                }
            }
            assert forall|key: Seq<u8>| #[trigger] module_keys(self.recent@).contains(key)
                <==> (module_keys(old_recent).contains(key) && key != checksum@) by {
                if module_keys(old_recent).contains(key) && key != checksum@ {
                    let j = choose|j: int| 0 <= j < module_keys(old_recent).len() && module_keys(old_recent)[j] == key;
                    if gone >= 0 {
                        let i = gone;
                        if j < i {
                            assert(module_keys(self.recent@)[j] == key);
                        } else {
                            assert(module_keys(self.recent@)[j - 1] == key);
                        }
                    } else {
                        assert(module_keys(self.recent@)[j] == key);
                    }
                }
            }
        }
        Ok(())
    }

    /// Unpins a module; it leaves memory. A checksum that is not pinned, or not
    /// known at all, is no error: nothing changes.
    pub fn unpin(&mut self, checksum: &Checksum)
        requires
            old(self).wf(),
        ensures
            final(self).wf(),
            !old(self).pinned_keys().contains(checksum@) ==> *final(self) == *old(self),
            old(self).stored(checksum@) is None ==> *final(self) == *old(self),
            forall|key: Seq<u8>| #[trigger] final(self).pinned_keys().contains(key)
                <==> (old(self).pinned_keys().contains(key) && key != checksum@),
            forall|key: Seq<u8>| #[trigger] final(self).stored(key) == old(self).stored(key),
            final(self).stored_count() == old(self).stored_count(),
            final(self).recent_keys() == old(self).recent_keys(),
            final(self).memory_used() == old(self).memory_used(),
            final(self).memory_limit() == old(self).memory_limit(),
    {
        match find_module(&self.pinned, checksum) {
            Some(i) => {
                let ghost old_pinned = self.pinned@;
                let _ = self.pinned.remove(i);
                proof {
                    assert(module_keys(self.pinned@) =~= module_keys(old_pinned).remove(i as int));
                    assert forall|key: Seq<u8>| #[trigger] module_keys(self.pinned@).contains(key)
                        <==> (module_keys(old_pinned).contains(key) && key != checksum@) by {
                        if module_keys(old_pinned).contains(key) && key != checksum@ {
                            let j = choose|j: int| 0 <= j < module_keys(old_pinned).len() && module_keys(old_pinned)[j] == key;
                            if j < i {
                                assert(module_keys(self.pinned@)[j] == key);
                            } else {
                                assert(module_keys(self.pinned@)[j - 1] == key);
                            }
                        }
                    }
                }
            },
            None => {},
        }
    }

    /// Looks a compiled module up: a pinned one first, then one of the recent ones,
    /// which then becomes the most recently used. `None` where neither holds it:
    /// the caller then compiles the stored bytecode and hands the module to
    /// `store_module`.
    pub fn get_module(&mut self, checksum: &Checksum) -> (r: Option<M>)
        where M: Clone
        requires
            old(self).wf(),
        ensures
            final(self).wf(),
            forall|key: Seq<u8>| #[trigger] final(self).stored(key) == old(self).stored(key),
            final(self).stored_count() == old(self).stored_count(),
            final(self).pinned_keys() == old(self).pinned_keys(),
            final(self).memory_used() == old(self).memory_used(),
            final(self).memory_limit() == old(self).memory_limit(),
            old(self).pinned_keys().contains(checksum@) ==> r is Some && final(self).recent_keys() == old(self).recent_keys(),
            !old(self).pinned_keys().contains(checksum@) && old(self).recent_keys().contains(checksum@) ==> r is Some
                && exists|i: int| 0 <= i < old(self).recent_keys().len() && old(self).recent_keys()[i] == checksum@
                    && final(self).recent_keys() == old(self).recent_keys().remove(i).push(checksum@),
            !old(self).pinned_keys().contains(checksum@) && !old(self).recent_keys().contains(checksum@) ==> r is None
                && *final(self) == *old(self),
            r is None <==> old(self).module_under(checksum@) is None,
            r is Some ==> cloned(old(self).module_under(checksum@)->Some_0, r->Some_0),
    {
        if let Some(i) = find_module(&self.pinned, checksum) {
            proof {
                lemma_module_of_index(self.pinned@, i as int);
            }
            return Some(self.pinned[i].module.clone());
        }

        match find_module(&self.recent, checksum) {
            Some(i) => {
                let ghost old_recent = self.recent@;
                proof {
                    lemma_module_of_index(self.recent@, i as int);
                }
                let entry = self.recent.remove(i);
                let module = entry.module.clone();
                self.recent.push(entry);
                proof {
                    lemma_modules_size_remove(old_recent, i as int);
                    lemma_modules_size_push(old_recent.remove(i as int), old_recent[i as int]);
                    assert(module_keys(self.recent@) =~= module_keys(old_recent).remove(i as int).push(checksum@));
                    let keys = module_keys(old_recent);
                    let now = module_keys(self.recent@);
                    assert forall|a: int, b: int| 0 <= a < now.len() && 0 <= b < now.len() && a != b implies now[a] != now[b] by {
                        let oa = if a == now.len() - 1 { i as int } else if a < i { a } else { a + 1 };
                        let ob = if b == now.len() - 1 { i as int } else if b < i { b } else { b + 1 };
                        assert(now[a] == keys[oa]);
                        assert(now[b] == keys[ob]);
                    }
                    assert forall|k: Seq<u8>| module_keys(self.pinned@).contains(k) implies !now.contains(k) by {
                        if now.contains(k) {
                            let a = choose|a: int| 0 <= a < now.len() && now[a] == k;
                            let oa = if a == now.len() - 1 { i as int } else if a < i { a } else { a + 1 };
                            assert(keys[oa] == k);
                        }
                    }
                }
                Some(module)
            },
            None => {
                proof {
                    lemma_module_of_absent(self.recent@, checksum@);
                }
                None
            },
        }
    }

    /// Puts a compiled module among the recent ones, as the most recently used.
    /// The least recently used ones leave memory first, as many as it takes for all
    /// of them to fit within the memory limit; pinned modules never leave. A module
    /// that is already in memory, or that alone exceeds the limit, is not added.
    pub fn store_module(&mut self, checksum: &Checksum, module: M, size: usize)
        requires
            old(self).wf(),
        ensures
            final(self).wf(),
            forall|key: Seq<u8>| #[trigger] final(self).stored(key) == old(self).stored(key),
            final(self).stored_count() == old(self).stored_count(),
            final(self).pinned_keys() == old(self).pinned_keys(),
            final(self).memory_limit() == old(self).memory_limit(),
            final(self).memory_used() <= final(self).memory_limit(),
            old(self).pinned_keys().contains(checksum@) || old(self).recent_keys().contains(checksum@)
                || size > old(self).memory_limit() ==> *final(self) == *old(self),
            !old(self).pinned_keys().contains(checksum@) && !old(self).recent_keys().contains(checksum@)
                && size <= old(self).memory_limit() ==> exists|n: int| 0 <= n <= old(self).recent_keys().len()
                    && final(self).recent_keys() == old(self).recent_keys().subrange(n, old(self).recent_keys().len() as int).push(checksum@)
                    && final(self).memory_used() == old(self).recent_size_from(n) + size
                    && (n > 0 ==> old(self).recent_size_from(n - 1) + size > old(self).memory_limit())
                    && final(self).module_under(checksum@) == Some(module),
    {
        if find_module(&self.pinned, checksum).is_some() || find_module(&self.recent, checksum).is_some() {
            return;
        }
        if size > self.memory_limit {
            return;
        }
        let ghost old_recent = self.recent@;
        let ghost mut n: int = 0;
        let room = self.memory_limit - size;
        assert(old_recent.subrange(0, old_recent.len() as int) =~= old_recent);
        while self.memory_used > room
            invariant
                0 <= n <= old_recent.len(),
                self.recent@ == old_recent.subrange(n, old_recent.len() as int),
                n > 0 ==> modules_size(old_recent.subrange(n - 1, old_recent.len() as int)) > room,
                self.memory_used == modules_size(self.recent@),
                self.memory_used <= self.memory_limit,
                room == self.memory_limit - size,
                self.pinned@ == old(self).pinned@,
                self.codes@ == old(self).codes@,
                self.memory_limit == old(self).memory_limit,
            decreases self.recent@.len(),
        {
            assert(self.recent@.len() > 0);
            let ghost before = self.recent@;
            let ghost used_before = self.memory_used;
            let entry = self.recent.remove(0);
            proof {
                assert(modules_size(old_recent.subrange(n, old_recent.len() as int)) == used_before);
                assert(self.recent@ =~= before.drop_first());
                lemma_modules_size_nonneg(self.recent@);
                assert(self.recent@ =~= old_recent.subrange(n + 1, old_recent.len() as int));
                n = n + 1;
            }
            self.memory_used = self.memory_used - entry.size;
        }
        let ghost kept = self.recent@;
        self.recent.push(CachedModule { checksum: checksum.duplicate(), module, size });
        self.memory_used = self.memory_used + size;
        proof {
            lemma_modules_size_push(kept, self.recent@.last());
            assert(kept =~= old_recent.subrange(n, old_recent.len() as int));
            assert(module_keys(self.recent@) =~= module_keys(old_recent).subrange(n, old_recent.len() as int).push(checksum@));
            let keys = module_keys(old_recent);
            let now = module_keys(self.recent@);
            assert forall|a: int| 0 <= a < now.len() - 1 implies #[trigger] now[a] == keys[a + n] by {}
            lemma_module_of_index(self.recent@, self.recent@.len() - 1);
            lemma_module_of_absent(self.pinned@, checksum@);
            assert forall|k: Seq<u8>| #[trigger] now.contains(k) implies (keys.contains(k) || k == checksum@) by {
                let a = choose|a: int| 0 <= a < now.len() && now[a] == k;
                if a < now.len() - 1 {
                    assert(keys[a + n] == k);
                }
            }
        }
    }
}

/// Saving the same bytecode twice gives the same checksum both times, and the
/// second save stores nothing new: the stored codes stay as the first save left them.
pub proof fn lemma_save_twice<M>(
    wasm: Seq<u8>,
    c0: ModuleCache<M>,
    c1: ModuleCache<M>,
    c2: ModuleCache<M>,
    k1: Seq<u8>,
    k2: Seq<u8>,
)
    requires
        ModuleCache::saved(c0, wasm, c1, k1),
        ModuleCache::saved(c1, wasm, c2, k2),
    ensures
        k1 == k2,
        c2.stored_count() == c1.stored_count(),
        forall|key: Seq<u8>| #[trigger] c2.stored(key) == c1.stored(key),
        c2.stored(k2) == Some(wasm),
{
    assert(c1.stored(k1) == Some(wasm));
}

} // verus!
