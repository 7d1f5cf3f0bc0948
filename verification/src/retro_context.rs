//! One loaded-core instance under a process-unique id, and the
//! process-wide registry of the instances currently alive.
//!
//! The classic I/O callbacks of the plugin ABI carry no per-call user
//! data, so reentrant code must resolve "which context is this for"
//! through a registry keyed by id.  The registry's invariant: an id is
//! present exactly while its context is loaded and not yet
//! deinitialized, and no id is present twice.

use vstd::prelude::*;

use crate::erro_handle::ErroHandle;
use crate::retro_core::CoreWrapper;

verus! {

/// Relies on `uuid::Uuid::new_v4`, which draws a random UUID from the
/// operating system's RNG, and on `Uuid::as_u128`.  The value is
/// random; only the version and variant bits that `new_v4` masks in
/// are certain.
#[verifier::external_body]
fn new_v4_u128() -> (r: u128)
    ensures
        (r >> 76) & 0xf == 4,
        (r >> 62) & 0x3 == 2,
{
    uuid::Uuid::new_v4().as_u128()
}

/// One loaded core plus the id it is registered under.
#[derive(Clone, Debug)]
pub struct RetroContext {
    pub id: u128,
    pub core: CoreWrapper,
}

impl RetroContext {
    /// Wraps a freshly loaded core under a new random id; the wrapper's
    /// context association is pointed at that id.
    pub fn new(core: CoreWrapper) -> (r: RetroContext)
        ensures
            r.core == (CoreWrapper { retro_ctx_associated: r.id, ..core }),
            (r.id >> 76) & 0xf == 4,
    {
        let id = new_v4_u128();
        let mut core = core;
        core.retro_ctx_associated = id;
        RetroContext { id, core }
    }
}

/// The position of the first context carrying `id`, or -1.
pub open spec fn spec_id_index(contexts: Seq<RetroContext>, id: u128) -> int
    decreases contexts.len(),
{
    if contexts.len() == 0 {
        -1
    } else if contexts[0].id == id {
        0
    } else {
        let r = spec_id_index(contexts.drop_first(), id);
        if r == -1 {
            -1
        } else {
            r + 1
        }
    }
}

proof fn lemma_id_index_found(contexts: Seq<RetroContext>, id: u128, i: int)
    requires
        0 <= i < contexts.len(),
        contexts[i].id == id,
        forall|j: int| 0 <= j < i ==> (#[trigger] contexts[j]).id != id,
    ensures
        spec_id_index(contexts, id) == i,
    decreases i,
{
    if i > 0 {
        lemma_id_index_found(contexts.drop_first(), id, i - 1);
    }
}

proof fn lemma_id_index_none(contexts: Seq<RetroContext>, id: u128)
    requires
        forall|j: int| 0 <= j < contexts.len() ==> (#[trigger] contexts[j]).id != id,
    ensures
        spec_id_index(contexts, id) == -1,
    decreases contexts.len(),
{
    if contexts.len() > 0 {
        lemma_id_index_none(contexts.drop_first(), id);
    }
}

/// The process-wide table of live contexts.
pub struct ContextRegistry {
    pub contexts: Vec<RetroContext>,
}

impl ContextRegistry {
    /// Whether a context carrying `id` is present.
    pub open spec fn spec_contains_id(&self, id: u128) -> bool {
        exists|j: int| 0 <= j < self.contexts@.len() && (#[trigger] self.contexts@[j]).id == id
    }

    /// No id is registered twice.
    pub open spec fn wf(&self) -> bool {
        forall|i: int, j: int|
            0 <= i < j < self.contexts@.len() ==> (#[trigger] self.contexts@[i]).id != (
            #[trigger] self.contexts@[j]).id
    }

    /// An empty registry.
    pub fn new() -> (r: ContextRegistry)
        ensures
            r.contexts@ == Seq::<RetroContext>::empty(),
            r.wf(),
    {
        ContextRegistry { contexts: Vec::new() }
    }

    /// Registers a context.  A duplicate id — which a random id makes
    /// all but impossible — is rejected, keeping lookups unambiguous.
    pub fn register(&mut self, ctx: RetroContext) -> (r: Result<(), ErroHandle>)
        requires
            old(self).wf(),
        ensures
            final(self).wf(),
            r is Ok <==> !old(self).spec_contains_id(ctx.id),
            r is Ok ==> final(self).contexts@ == old(self).contexts@.push(ctx),
            r is Err ==> *final(self) == *old(self),
            r matches Err(e) ==> e.level == crate::erro_handle::RetroLogLevel::RETRO_LOG_ERROR,
    {
        if self.contains_id(ctx.id) {
            return Err(
                ErroHandle::error("a context with this id is already registered".to_owned()),
            );
        }
        self.contexts.push(ctx);
        Ok(())
    }

    fn contains_id(&self, id: u128) -> (r: bool)
        ensures
            r == self.spec_contains_id(id),
    {
        let n = self.contexts.len();
        let mut i: usize = 0;
        while i < n
            invariant
                0 <= i <= n,
                n == self.contexts@.len(),
                forall|j: int| 0 <= j < i ==> (#[trigger] self.contexts@[j]).id != id,
            decreases n - i,
        {
            if self.contexts[i].id == id {
                return true;
            }
            i += 1;
        }
        false
    }

    /// Whether the context is still registered — still loaded, not yet
    /// deinitialized.
    pub fn is_valid(&self, id: u128) -> (r: bool)
        ensures
            r == self.spec_contains_id(id),
    {
        self.contains_id(id)
    }

    /// How many contexts are currently alive.
    pub fn get_num_contexts(&self) -> (r: usize)
        ensures
            r == self.contexts@.len(),
    {
        self.contexts.len()
    }

    /// Removes the context carrying `id`.  Removing an absent id is a
    /// no-op, never an error.
    pub fn delete(&mut self, id: u128) -> (r: Result<(), ErroHandle>)
        requires
            old(self).wf(),
        ensures
            final(self).wf(),
            r is Ok,
            spec_id_index(old(self).contexts@, id) >= 0 ==> final(self).contexts@ == old(
                self,
            ).contexts@.remove(spec_id_index(old(self).contexts@, id)),
            spec_id_index(old(self).contexts@, id) < 0 ==> final(self).contexts@ == old(
                self,
            ).contexts@,
            !final(self).spec_contains_id(id),
    {
        let ghost before = self.contexts@;
        let n = self.contexts.len();
        let mut i: usize = 0;
        while i < n
            invariant
                0 <= i <= n,
                n == self.contexts@.len(),
                before == self.contexts@,
                before == old(self).contexts@,
                old(self).wf(),
                forall|j: int| 0 <= j < i ==> (#[trigger] self.contexts@[j]).id != id,
            decreases n - i,
        {
            if self.contexts[i].id == id {
                proof {
                    lemma_id_index_found(before, id, i as int);
                }
                self.contexts.remove(i);
                proof {
                    assert(self.contexts@ == before.remove(i as int));
                    assert forall|j: int|
                        0 <= j < self.contexts@.len() implies #[trigger] self.contexts@[j] == (
                        if j < i as int {
                            before[j]
                        } else {
                            before[j + 1]
                        }) by {
                        assert(before.remove(i as int) == before.subrange(0, i as int)
                            + before.subrange(i + 1, before.len() as int));
                    }
                    assert forall|j: int|
                        0 <= j < self.contexts@.len() implies (#[trigger] self.contexts@[j]).id
                        != id by {
                        if j >= i as int {
                            assert(before[j + 1].id != before[i as int].id);
                        }
                    }
                    lemma_id_index_none(self.contexts@, id);
                    assert forall|a: int, b: int|
                        0 <= a < b < self.contexts@.len() implies (#[trigger] self.contexts@[
                        a
                    ]).id != (#[trigger] self.contexts@[b]).id by {
                        let a0: int = if a < i as int {
                            a
                        } else {
                            a + 1
                        };
                        let b0: int = if b < i as int {
                            b
                        } else {
                            b + 1
                        };
                        assert(self.contexts@[a] == before[a0]);
                        assert(self.contexts@[b] == before[b0]);
                        assert(before[a0].id != before[b0].id);
                    }
                }
                return Ok(());
            }
            i += 1;
        }
        proof {
            lemma_id_index_none(before, id);
        }
        Ok(())
    }

    /// Resolves a context by id, as reentrant code must when a legacy
    /// callback carries no user data.
    pub fn get_from_id(&self, id: u128) -> (r: Result<&RetroContext, ErroHandle>)
        ensures
            r is Ok <==> self.spec_contains_id(id),
            r matches Ok(ctx) ==> ctx.id == id && (exists|j: int|
                0 <= j < self.contexts@.len() && *ctx == #[trigger] self.contexts@[j]),
            r matches Err(e) ==> e.level == crate::erro_handle::RetroLogLevel::RETRO_LOG_ERROR,
    {
        let n = self.contexts.len();
        let mut i: usize = 0;
        while i < n
            invariant
                0 <= i <= n,
                n == self.contexts@.len(),
                forall|j: int| 0 <= j < i ==> (#[trigger] self.contexts@[j]).id != id,
            decreases n - i,
        {
            if self.contexts[i].id == id {
                return Ok(&self.contexts[i]);
            }
            i += 1;
        }
        Err(ErroHandle::error("the context you are trying to reach does not exist".to_owned()))
    }
}

/// Deleting one context leaves every other context registered: after
/// removing the entry carrying `id`, any other id is present exactly
/// when it was present before.
pub proof fn lemma_delete_keeps_others(contexts: Seq<RetroContext>, id: u128, other: u128)
    requires
        other != id,
        spec_id_index(contexts, id) >= 0,
    ensures
        (exists|j: int| 0 <= j < contexts.len() && (#[trigger] contexts[j]).id == other) <==> (
        exists|j: int|
            0 <= j < contexts.remove(spec_id_index(contexts, id)).len() && (#[trigger] contexts.remove(
                spec_id_index(contexts, id),
            )[j]).id == other),
{
    let i = spec_id_index(contexts, id);
    lemma_id_index_bounds(contexts, id);
    let after = contexts.remove(i);
    assert forall|j: int|
        0 <= j < contexts.len() && (#[trigger] contexts[j]).id == other implies (exists|k: int|
        0 <= k < after.len() && (#[trigger] after[k]).id == other) by {
        if j < i {
            assert(after[j].id == other);
        } else {
            assert(contexts[j].id != id);
            assert(j != i);
            assert(after[j - 1].id == other);
        }
    }
    assert forall|k: int|
        0 <= k < after.len() && (#[trigger] after[k]).id == other implies (exists|j: int|
        0 <= j < contexts.len() && (#[trigger] contexts[j]).id == other) by {
        if k < i {
            assert(contexts[k].id == other);
        } else {
            assert(contexts[k + 1].id == other);
        }
    }
}

proof fn lemma_id_index_bounds(contexts: Seq<RetroContext>, id: u128)
    ensures
        -1 <= spec_id_index(contexts, id) < contexts.len(),
        spec_id_index(contexts, id) >= 0 ==> contexts[spec_id_index(contexts, id)].id == id,
    decreases contexts.len(),
{
    if contexts.len() > 0 && contexts[0].id != id {
        lemma_id_index_bounds(contexts.drop_first(), id);
    }
}

} // verus!
