//! Command filtering.
//!
//! The host lets a module hook a filter that fires for every client command
//! and may inspect, insert, replace and delete the command's arguments before
//! it runs. The host hands the module only a bare handle per registered
//! filter and reports a firing with no handle at all, so the module keeps a
//! registry from filter handle to callback handle and runs every registered
//! callback on each firing. The command under filtering is modelled by its
//! argument list and the issuing client's id.

use vstd::prelude::*;
use vstd::slice::slice_to_vec;

use crate::{Context, RedisError};

verus! {

/// Handle naming a registered command filter callback. The layer that talks
/// to the host maps each handle to the actual callback it invokes.
pub type CommandFilterCallback = u64;

/// The byte strings of a command's argument list.
pub open spec fn args_view(s: Seq<Vec<u8>>) -> Seq<Seq<u8>> {
    Seq::new(s.len(), |i: int| s[i]@)
}

/// The command being filtered: its argument list, and the id of the client
/// that issued it. A filter callback reads and edits the arguments here.
pub struct CommandFilterContext {
    args: Vec<Vec<u8>>,
    client_id: u64,
}

impl View for CommandFilterContext {
    type V = Seq<Seq<u8>>;

    /// The argument list as a sequence of byte strings.
    closed spec fn view(&self) -> Seq<Seq<u8>> {
        args_view(self.args@)
    }
}

proof fn lemma_args_view_insert(s: Seq<Vec<u8>>, i: int, x: Vec<u8>)
    requires
        0 <= i <= s.len(),
    ensures
        args_view(s.insert(i, x)) == args_view(s).insert(i, x@),
{
    s.insert_ensures(i, x);
    args_view(s).insert_ensures(i, x@);
    assert forall|j: int| 0 <= j < s.len() + 1 implies #[trigger] args_view(s.insert(i, x))[j]
        == args_view(s).insert(i, x@)[j] by {
        if j < i {
            assert(s.insert(i, x)[j] == s[j]);
        } else if j == i {
            assert(s.insert(i, x)[j] == x);
        } else {
            assert(s.insert(i, x)[j] == s[j - 1]);
            assert(args_view(s).insert(i, x@)[j] == args_view(s)[j - 1]);
        }
    }
    assert(args_view(s.insert(i, x)) =~= args_view(s).insert(i, x@));
}

proof fn lemma_args_view_update(s: Seq<Vec<u8>>, i: int, x: Vec<u8>)
    requires
        0 <= i < s.len(),
    ensures
        args_view(s.update(i, x)) == args_view(s).update(i, x@),
{
    assert(args_view(s.update(i, x)) =~= args_view(s).update(i, x@));
}

proof fn lemma_args_view_remove(s: Seq<Vec<u8>>, i: int)
    requires
        0 <= i < s.len(),
    ensures
        args_view(s.remove(i)) == args_view(s).remove(i),
{
    s.remove_ensures(i);
    args_view(s).remove_ensures(i);
    assert forall|j: int| 0 <= j < s.len() - 1 implies #[trigger] args_view(s.remove(i))[j]
        == args_view(s).remove(i)[j] by {
        if j < i {
            assert(s.remove(i)[j] == s[j]);
        } else {
            assert(s.remove(i)[j] == s[j + 1]);
            assert(args_view(s).remove(i)[j] == args_view(s)[j + 1]);
        }
    }
    assert(args_view(s.remove(i)) =~= args_view(s).remove(i));
}

impl CommandFilterContext {
    /// The id of the client that issued the command.
    pub closed spec fn client(self) -> u64 {
        self.client_id
    }

    /// A filter context over a command's argument list, issued by the client
    /// with the given id.
    pub fn new(args: Vec<Vec<u8>>, client_id: u64) -> (r: Self)
        ensures
            r@ == args_view(args@),
            r.client() == client_id,
    {
        CommandFilterContext { args, client_id }
    }

    /// How many arguments the command has.
    pub fn args_count(&self) -> (n: usize)
        ensures
            n == self@.len(),
    {
        self.args.len()
    }

    /// The argument at a position: present exactly for positions inside the
    /// argument list.
    pub fn arg_get(&self, pos: usize) -> (r: Option<&Vec<u8>>)
        ensures
            r is Some <==> pos < self@.len(),
            r is Some ==> (r->0)@ == self@[pos as int],
    {
        if pos < self.args.len() {
            Some(&self.args[pos])
        } else {
            None
        }
    }

    /// Insert an argument so that it sits at the given position, shifting
    /// what follows. Succeeds exactly for positions up to and including the
    /// end of the list; on failure the arguments are unchanged.
    pub fn arg_insert(&mut self, pos: usize, arg: &[u8]) -> (r: Result<(), RedisError>)
        ensures
            r is Ok <==> pos <= old(self)@.len(),
            r is Ok ==> final(self)@ == old(self)@.insert(pos as int, arg@),
            r is Err ==> r == Err::<(), RedisError>(RedisError::ArgInsertFailed)
                && *final(self) == *old(self),
            final(self).client() == old(self).client(),
    {
        if pos <= self.args.len() {
            let a = slice_to_vec(arg);
            proof {
                lemma_args_view_insert(self.args@, pos as int, a);
            }
            self.args.insert(pos, a);
            Ok(())
        } else {
            Err(RedisError::ArgInsertFailed)
        }
    }

    /// Replace the argument at a position. Succeeds exactly for positions
    /// inside the argument list; on failure the arguments are unchanged.
    pub fn arg_replace(&mut self, pos: usize, arg: &[u8]) -> (r: Result<(), RedisError>)
        ensures
            r is Ok <==> pos < old(self)@.len(),
            r is Ok ==> final(self)@ == old(self)@.update(pos as int, arg@),
            r is Err ==> r == Err::<(), RedisError>(RedisError::ArgReplaceFailed)
                && *final(self) == *old(self),
            final(self).client() == old(self).client(),
    {
        if pos < self.args.len() {
            let a = slice_to_vec(arg);
            proof {
                lemma_args_view_update(self.args@, pos as int, a);
            }
            self.args.set(pos, a);
            Ok(())
        } else {
            Err(RedisError::ArgReplaceFailed)
        }
    }

    /// Delete the argument at a position, shifting what follows. Succeeds
    /// exactly for positions inside the argument list; on failure the
    /// arguments are unchanged.
    pub fn arg_delete(&mut self, pos: usize) -> (r: Result<(), RedisError>)
        ensures
            r is Ok <==> pos < old(self)@.len(),
            r is Ok ==> final(self)@ == old(self)@.remove(pos as int),
            r is Err ==> r == Err::<(), RedisError>(RedisError::ArgDeleteFailed)
                && *final(self) == *old(self),
            final(self).client() == old(self).client(),
    {
        if pos < self.args.len() {
            proof {
                lemma_args_view_remove(self.args@, pos as int);
            }
            self.args.remove(pos);
            Ok(())
        } else {
            Err(RedisError::ArgDeleteFailed)
        }
    }

    /// The id of the client that issued the filtered command.
    pub fn get_client_id(&self) -> (id: u64)
        ensures
            id == self.client(),
    {
        self.client_id
    }

    /// The whole argument list, for handing the edited command back.
    pub fn args(&self) -> (r: &Vec<Vec<u8>>)
        ensures
            args_view(r@) == self@,
    {
        &self.args
    }
}

/// Whether an association list holds an entry under a key.
pub open spec fn assoc_contains(s: Seq<(u64, u64)>, key: u64) -> bool {
    exists|i: int| 0 <= i < s.len() && s[i].0 == key
}

/// The position of the entry under a key; meaningful where the keys are
/// unique and the key is present.
pub open spec fn assoc_index_of(s: Seq<(u64, u64)>, key: u64) -> int {
    choose|i: int| 0 <= i < s.len() && s[i].0 == key
}

/// The association list read as a map; a later entry wins over an earlier
/// one under the same key.
pub open spec fn assoc_map(s: Seq<(u64, u64)>) -> Map<u64, u64>
    decreases s.len(),
{
    if s.len() == 0 {
        Map::empty()
    } else {
        assoc_map(s.drop_last()).insert(s.last().0, s.last().1)
    }
}

/// Whether no two entries of an association list share a key.
pub open spec fn unique_keys(s: Seq<(u64, u64)>) -> bool {
    forall|i: int, j: int| 0 <= i < j < s.len() ==> s[i].0 != s[j].0
}

proof fn lemma_unique_drop_last(s: Seq<(u64, u64)>)
    requires
        unique_keys(s),
        s.len() > 0,
    ensures
        unique_keys(s.drop_last()),
{
    assert forall|i: int, j: int| 0 <= i < j < s.drop_last().len() implies s.drop_last()[i].0
        != s.drop_last()[j].0 by {
        assert(s[i].0 != s[j].0);
    }
}

proof fn lemma_assoc_map_dom(s: Seq<(u64, u64)>)
    ensures
        forall|k: u64| #[trigger] assoc_map(s).contains_key(k) <==> assoc_contains(s, k),
    decreases s.len(),
{
    if s.len() == 0 {
        assert(forall|k: u64| !(#[trigger] assoc_map(s).contains_key(k)));
        assert forall|k: u64| !assoc_contains(s, k) by {}
    } else {
        let dl = s.drop_last();
        lemma_assoc_map_dom(dl);
        assert forall|k: u64| #[trigger] assoc_map(s).contains_key(k) <==> assoc_contains(s, k) by {
            if assoc_map(s).contains_key(k) {
                if k == s.last().0 {
                    assert(s[s.len() - 1].0 == k);
                    assert(assoc_contains(s, k));
                } else {
                    assert(assoc_map(dl).contains_key(k));
                    assert(assoc_contains(dl, k));
                    let i = choose|i: int| 0 <= i < dl.len() && dl[i].0 == k;
                    assert(s[i].0 == k);
                    assert(assoc_contains(s, k));
                }
            }
            if assoc_contains(s, k) {
                let i = choose|i: int| 0 <= i < s.len() && s[i].0 == k;
                if i < s.len() - 1 {
                    assert(dl[i].0 == k);
                    assert(assoc_contains(dl, k));
                    assert(assoc_map(dl).contains_key(k));
                    assert(assoc_map(s).contains_key(k));
                } else {
                    assert(k == s.last().0);
                    assert(assoc_map(s).contains_key(k));
                }
            }
        }
    }
}

proof fn lemma_assoc_map_get(s: Seq<(u64, u64)>, i: int)
    requires
        unique_keys(s),
        0 <= i < s.len(),
    ensures
        assoc_map(s).contains_key(s[i].0),
        assoc_map(s)[s[i].0] == s[i].1,
    decreases s.len(),
{
    if i == s.len() - 1 {
        assert(s.last() == s[i]);
    } else {
        let dl = s.drop_last();
        lemma_unique_drop_last(s);
        assert(dl[i] == s[i]);
        lemma_assoc_map_get(dl, i);
        assert(s[i].0 != s[s.len() - 1].0);
    }
}

proof fn lemma_assoc_map_push(s: Seq<(u64, u64)>, k: u64, v: u64)
    requires
        unique_keys(s),
        !assoc_contains(s, k),
    ensures
        unique_keys(s.push((k, v))),
        assoc_map(s.push((k, v))) == assoc_map(s).insert(k, v),
{
    let t = s.push((k, v));
    assert(t.drop_last() =~= s);
    assert(t.last() == (k, v));
    assert forall|i: int, j: int| 0 <= i < j < t.len() implies t[i].0 != t[j].0 by {
        if j == s.len() {
            assert(t[i] == s[i]);
            if s[i].0 == k {
                assert(assoc_contains(s, k));
            }
        } else {
            assert(t[i] == s[i]);
            assert(t[j] == s[j]);
        }
    }
}

proof fn lemma_assoc_map_update(s: Seq<(u64, u64)>, i: int, v: u64)
    requires
        unique_keys(s),
        0 <= i < s.len(),
    ensures
        unique_keys(s.update(i, (s[i].0, v))),
        assoc_map(s.update(i, (s[i].0, v))) == assoc_map(s).insert(s[i].0, v),
    decreases s.len(),
{
    let k = s[i].0;
    let t = s.update(i, (k, v));
    assert forall|a: int, b: int| 0 <= a < b < t.len() implies t[a].0 != t[b].0 by {
        assert(s[a].0 != s[b].0);
    }
    if i == s.len() - 1 {
        assert(t.drop_last() =~= s.drop_last());
        assert(t.last() == (k, v));
        assert(assoc_map(s.drop_last()).insert(k, v) =~= assoc_map(s).insert(k, v));
    } else {
        let dl = s.drop_last();
        lemma_unique_drop_last(s);
        assert(dl[i] == s[i]);
        lemma_assoc_map_update(dl, i, v);
        assert(t.drop_last() =~= dl.update(i, (k, v)));
        assert(t.last() == s.last());
        assert(k != s.last().0);
        assert(assoc_map(dl).insert(k, v).insert(s.last().0, s.last().1) =~= assoc_map(dl).insert(s.last().0, s.last().1).insert(k, v));
    }
}

proof fn lemma_assoc_map_remove_at(s: Seq<(u64, u64)>, i: int)
    requires
        unique_keys(s),
        0 <= i < s.len(),
    ensures
        unique_keys(s.remove(i)),
        assoc_map(s.remove(i)) == assoc_map(s).remove(s[i].0),
    decreases s.len(),
{
    let k = s[i].0;
    let t = s.remove(i);
    s.remove_ensures(i);
    assert forall|a: int, b: int| 0 <= a < b < t.len() implies t[a].0 != t[b].0 by {
        let a2: int = if a < i { a } else { a + 1 };
        let b2: int = if b < i { b } else { b + 1 };
        assert(t[a] == s[a2]);
        assert(t[b] == s[b2]);
        assert(s[a2].0 != s[b2].0);
    }
    if i == s.len() - 1 {
        let dl = s.drop_last();
        assert(t =~= dl);
        lemma_unique_drop_last(s);
        lemma_assoc_map_dom(dl);
        if assoc_contains(dl, k) {
            let j = choose|j: int| 0 <= j < dl.len() && dl[j].0 == k;
            assert(s[j].0 == k);
            assert(s[j].0 != s[i].0);
            assert(false);
        }
        assert(!assoc_map(dl).contains_key(k));
        assert(assoc_map(dl) =~= assoc_map(dl).insert(s.last().0, s.last().1).remove(k));
        assert(s.last() == s[i]);
    } else {
        let dl = s.drop_last();
        lemma_unique_drop_last(s);
        assert(dl[i] == s[i]);
        lemma_assoc_map_remove_at(dl, i);
        assert(t.drop_last() =~= dl.remove(i));
        assert(t.last() == s.last());
        assert(k != s.last().0);
        assert(assoc_map(dl).remove(k).insert(s.last().0, s.last().1) =~= assoc_map(dl).insert(s.last().0, s.last().1).remove(k));
    }
}

/// Registry of active command filters: which callback the dispatch entry
/// must run for each filter handle the host has given out, in registration
/// order. An entry exists exactly while the host-side registration is
/// active, and no handle appears twice.
pub struct CommandFilterRegistry {
    entries: Vec<(u64, u64)>,
}

impl View for CommandFilterRegistry {
    type V = Map<u64, u64>;

    /// The registry as a map from filter handle to callback handle.
    closed spec fn view(&self) -> Map<u64, u64> {
        assoc_map(self.entries@)
    }
}

impl CommandFilterRegistry {
    /// The registered filters in registration order: each entry pairs the
    /// filter handle with its callback handle.
    pub closed spec fn entries(self) -> Seq<(u64, u64)> {
        self.entries@
    }

    pub closed spec fn wf(self) -> bool {
        unique_keys(self.entries@)
    }

    /// An empty registry: no filter is active.
    pub fn new() -> (r: Self)
        ensures
            r.wf(),
            r@ == Map::<u64, u64>::empty(),
            r.entries() == Seq::<(u64, u64)>::empty(),
    {
        CommandFilterRegistry { entries: Vec::new() }
    }

    fn find(&self, filter: u64) -> (r: Option<usize>)
        ensures
            match r {
                Some(i) => i < self.entries@.len() && self.entries@[i as int].0 == filter,
                None => !assoc_contains(self.entries@, filter),
            },
    {
        let mut i: usize = 0;
        while i < self.entries.len()
            invariant
                i <= self.entries@.len(),
                forall|j: int| 0 <= j < i ==> self.entries@[j].0 != filter,
            decreases self.entries@.len() - i,
        {
            if self.entries[i].0 == filter {
                return Some(i);
            }
            i += 1;
        }
        None
    }

    proof fn lemma_found_index(self, i: int, filter: u64)
        requires
            self.wf(),
            0 <= i < self.entries@.len(),
            self.entries@[i].0 == filter,
        ensures
            assoc_contains(self.entries@, filter),
            assoc_index_of(self.entries@, filter) == i,
    {
        let s = self.entries@;
        assert(assoc_contains(s, filter));
        let idx = assoc_index_of(s, filter);
        assert(0 <= idx < s.len() && s[idx].0 == filter);
        if idx < i {
            assert(s[idx].0 != s[i].0);
        } else if i < idx {
            assert(s[i].0 != s[idx].0);
        }
    }

    /// The callback registered under a filter handle, if any.
    pub fn get(&self, filter: u64) -> (r: Option<CommandFilterCallback>)
        requires
            self.wf(),
        ensures
            r is Some <==> self@.contains_key(filter),
            r is Some ==> r->0 == self@[filter],
    {
        match self.find(filter) {
            Some(i) => {
                proof {
                    lemma_assoc_map_get(self.entries@, i as int);
                }
                Some(self.entries[i].1)
            },
            None => {
                proof {
                    lemma_assoc_map_dom(self.entries@);
                }
                None
            },
        }
    }

    /// Record a callback under a filter handle. A fresh handle goes to the
    /// end of the registration order; a handle already present keeps its
    /// place and only its callback changes.
    pub fn insert(&mut self, filter: u64, callback: CommandFilterCallback)
        requires
            old(self).wf(),
        ensures
            final(self).wf(),
            final(self)@ == old(self)@.insert(filter, callback),
            assoc_contains(old(self).entries(), filter) ==> final(self).entries() == old(self).entries().update(assoc_index_of(old(self).entries(), filter), (filter, callback)),
            !assoc_contains(old(self).entries(), filter) ==> final(self).entries() == old(self).entries().push((filter, callback)),
    {
        match self.find(filter) {
            Some(i) => {
                proof {
                    self.lemma_found_index(i as int, filter);
                    lemma_assoc_map_update(self.entries@, i as int, callback);
                }
                self.entries.set(i, (filter, callback));
            },
            None => {
                proof {
                    lemma_assoc_map_push(self.entries@, filter, callback);
                }
                self.entries.push((filter, callback));
            },
        }
    }

    /// Drop the record under a filter handle, reporting whether one existed;
    /// the other entries keep their order. Without a record nothing changes.
    pub fn remove(&mut self, filter: u64) -> (found: bool)
        requires
            old(self).wf(),
        ensures
            final(self).wf(),
            found <==> old(self)@.contains_key(filter),
            final(self)@ == old(self)@.remove(filter),
            found ==> final(self).entries() == old(self).entries().remove(
                assoc_index_of(old(self).entries(), filter),
            ),
            !found ==> *final(self) == *old(self),
    {
        match self.find(filter) {
            Some(i) => {
                proof {
                    self.lemma_found_index(i as int, filter);
                    lemma_assoc_map_get(self.entries@, i as int);
                    lemma_assoc_map_remove_at(self.entries@, i as int);
                }
                self.entries.remove(i);
                true
            },
            None => {
                proof {
                    lemma_assoc_map_dom(self.entries@);
                    assert(self@ =~= self@.remove(filter));
                }
                false
            },
        }
    }

    /// The callback handles of every registered filter, in registration
    /// order: the dispatch entry runs them all when the host reports a
    /// command, since the host does not say which filter fired.
    pub fn callbacks(&self) -> (r: Vec<CommandFilterCallback>)
        ensures
            r@.len() == self.entries().len(),
            forall|i: int| 0 <= i < r@.len() ==> r@[i] == self.entries()[i].1,
    {
        let mut r: Vec<CommandFilterCallback> = Vec::new();
        let mut i: usize = 0;
        while i < self.entries.len()
            invariant
                i <= self.entries@.len(),
                r@.len() == i,
                forall|j: int| 0 <= j < i ==> r@[j] == self.entries@[j].1,
            decreases self.entries@.len() - i,
        {
            r.push(self.entries[i].1);
            i += 1;
        }
        r
    }
}

/// The command filter registry of a context.
pub fn get_filter_registry(ctx: &Context) -> (r: &CommandFilterRegistry)
    requires
        ctx.wf(),
    ensures
        r.wf(),
        r@ == ctx.filters(),
        r.entries() == ctx.filter_entries(),
{
    &ctx.filters
}

impl Context {
    /// Record a command filter the host has accepted: `filter` is the handle
    /// the host returned for the registration, `callback` the one the
    /// dispatch entry must run for it. Hands the handle back for a later
    /// unregistration.
    pub fn register_command_filter(
        &mut self,
        filter: u64,
        callback: CommandFilterCallback,
    ) -> (r: u64)
        requires
            old(self).wf(),
        ensures
            final(self).wf(),
            r == filter,
            final(self).filters() == old(self).filters().insert(filter, callback),
            assoc_contains(old(self).filter_entries(), filter) ==> final(self).filter_entries()
                == old(self).filter_entries().update(
                assoc_index_of(old(self).filter_entries(), filter),
                (filter, callback),
            ),
            !assoc_contains(old(self).filter_entries(), filter) ==> final(self).filter_entries()
                == old(self).filter_entries().push((filter, callback)),
            final(self).receivers() == old(self).receivers(),
    {
        self.filters.insert(filter, callback);
        filter
    }

    /// Drop the record of a command filter. Succeeds exactly when the handle
    /// is registered; the record is then gone and everything else is
    /// unchanged. An unknown handle changes nothing and is reported.
    pub fn unregister_command_filter(&mut self, filter: u64) -> (r: Result<(), RedisError>)
        requires
            old(self).wf(),
        ensures
            final(self).wf(),
            r is Ok <==> old(self).filters().contains_key(filter),
            r is Ok ==> final(self).filters() == old(self).filters().remove(filter) && final(self).filter_entries() == old(self).filter_entries().remove(
                assoc_index_of(old(self).filter_entries(), filter),
            ),
            r is Err ==> r == Err::<(), RedisError>(RedisError::FilterNotRegistered) && *final(self)
                == *old(self),
            final(self).receivers() == old(self).receivers(),
    {
        if self.filters.remove(filter) {
            Ok(())
        } else {
            Err(RedisError::FilterNotRegistered)
        }
    }
}

} // verus!
