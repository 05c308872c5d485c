//! Per-guild "linked channel" mapping.
//!
//! A binding `guild -> channel` marks the one text channel whose messages are
//! turned into speech for that guild.  A guild with no binding has speech
//! disabled.  `bind` is an unconditional upsert, `unbind` an idempotent
//! removal, `lookup` a read-only probe.

use std::collections::HashMap;
use vstd::prelude::*;

verus! {

broadcast use vstd::std_specs::hash::group_hash_axioms;

/// The binding map after `bind(guild, channel)`: an unconditional upsert that
/// replaces any earlier binding of the same guild and touches no other guild.
pub open spec fn bind_spec(m: Map<u64, u64>, guild: u64, channel: u64) -> Map<u64, u64> {
    m.insert(guild, channel)
}

/// The binding map after `unbind(guild)`: the binding of `guild` is gone,
/// every other guild keeps its binding.
pub open spec fn unbind_spec(m: Map<u64, u64>, guild: u64) -> Map<u64, u64> {
    m.remove(guild)
}

/// What `lookup(guild)` answers on a binding map.
pub open spec fn lookup_spec(m: Map<u64, u64>, guild: u64) -> Option<u64> {
    if m.contains_key(guild) {
        Some(m[guild])
    } else {
        None
    }
}

/// Maps each guild to the text channel whose messages drive speech synthesis.
pub struct ChannelBindingStore {
    bindings: HashMap<u64, u64>,
}

impl View for ChannelBindingStore {
    type V = Map<u64, u64>;

    closed spec fn view(&self) -> Map<u64, u64> {
        self.bindings@
    }
}

impl ChannelBindingStore {
    /// A fresh store binds nothing: speech starts disabled everywhere.
    pub fn new() -> (s: Self)
        ensures
            s@ == Map::<u64, u64>::empty(),
    {
        ChannelBindingStore { bindings: HashMap::new() }
    }

    /// Binds `guild` to `channel`, replacing any earlier binding, and returns
    /// the binding that was replaced, if any.
    pub fn bind(&mut self, guild: u64, channel: u64) -> (prev: Option<u64>)
        ensures
            final(self)@ == bind_spec(old(self)@, guild, channel),
            prev == lookup_spec(old(self)@, guild),
    {
        self.bindings.insert(guild, channel)
    }

    /// Removes the binding of `guild`.  Returns `false` (and changes nothing)
    /// when the guild was not bound.
    pub fn unbind(&mut self, guild: u64) -> (was_bound: bool)
        ensures
            final(self)@ == unbind_spec(old(self)@, guild),
            was_bound == lookup_spec(old(self)@, guild).is_some(),
    {
        self.bindings.remove(&guild).is_some()
    }

    /// The channel bound to `guild`, or `None` when speech is disabled there.
    pub fn lookup(&self, guild: u64) -> (channel: Option<u64>)
        ensures
            channel == lookup_spec(self@, guild),
    {
        match self.bindings.get(&guild) {
            Some(c) => Some(*c),
            None => None,
        }
    }
}

/// After `bind(g, c)` the guild answers exactly `c`, and no other guild's
/// answer moves; after `unbind(g)` the guild answers nothing, and no other
/// guild's answer moves.  Interleaved operations on other guilds therefore
/// never disturb what `lookup(g)` returns.
pub proof fn lemma_binding_last_write_wins(m: Map<u64, u64>, g: u64, c: u64, other: u64)
    ensures
        lookup_spec(bind_spec(m, g, c), g) == Some(c),
        lookup_spec(unbind_spec(m, g), g) == Option::<u64>::None,
        other != g ==> lookup_spec(bind_spec(m, g, c), other) == lookup_spec(m, other),
        other != g ==> lookup_spec(unbind_spec(m, g), other) == lookup_spec(m, other),
{
}

/// One store operation, for reasoning about whole histories.
pub enum BindingOp {
    Bind(u64, u64),
    Unbind(u64),
}

/// The guild an operation touches.
pub open spec fn op_guild(op: BindingOp) -> u64 {
    match op {
        BindingOp::Bind(g, _) => g,
        BindingOp::Unbind(g) => g,
    }
}

/// One operation applied to the binding map.
pub open spec fn apply_op(m: Map<u64, u64>, op: BindingOp) -> Map<u64, u64> {
    match op {
        BindingOp::Bind(g, c) => bind_spec(m, g, c),
        BindingOp::Unbind(g) => unbind_spec(m, g),
    }
}

/// A whole history of operations applied in order.
pub open spec fn apply_ops(m: Map<u64, u64>, ops: Seq<BindingOp>) -> Map<u64, u64>
    decreases ops.len(),
{
    if ops.len() == 0 {
        m
    } else {
        apply_ops(apply_op(m, ops[0]), ops.skip(1))
    }
}

/// A history that never touches `g` never changes what `lookup(g)` answers.
pub proof fn lemma_lookup_ignores_other_guilds(m: Map<u64, u64>, ops: Seq<BindingOp>, g: u64)
    requires
        forall|j: int| 0 <= j < ops.len() ==> op_guild(#[trigger] ops[j]) != g,
    ensures
        lookup_spec(apply_ops(m, ops), g) == lookup_spec(m, g),
    decreases ops.len(),
{
    if ops.len() > 0 {
        assert(forall|j: int|
            0 <= j < ops.skip(1).len() ==> op_guild(#[trigger] ops.skip(1)[j]) != g);
        lemma_lookup_ignores_other_guilds(apply_op(m, ops[0]), ops.skip(1), g);
    }
}

/// Under any interleaving of binds and unbinds on any guilds, `lookup(g)`
/// answers exactly what the most recent operation on `g` decided: the
/// channel of its last `bind`, or nothing after its last `unbind`.
pub proof fn lemma_lookup_follows_most_recent(
    m: Map<u64, u64>,
    ops: Seq<BindingOp>,
    i: int,
    g: u64,
)
    requires
        0 <= i < ops.len(),
        op_guild(ops[i]) == g,
        forall|j: int| i < j < ops.len() ==> op_guild(#[trigger] ops[j]) != g,
    ensures
        lookup_spec(apply_ops(m, ops), g) == (match ops[i] {
            BindingOp::Bind(_, c) => Some(c),
            BindingOp::Unbind(_) => None,
        }),
    decreases ops.len(),
{
    let m1 = apply_op(m, ops[0]);
    let rest = ops.skip(1);
    if i == 0 {
        assert(forall|j: int| 0 <= j < rest.len() ==> op_guild(#[trigger] rest[j]) != g);
        lemma_lookup_ignores_other_guilds(m1, rest, g);
    } else {
        assert(rest[i - 1] == ops[i]);
        assert(forall|j: int| i - 1 < j < rest.len() ==> op_guild(#[trigger] rest[j]) != g);
        lemma_lookup_follows_most_recent(m1, rest, i - 1, g);
    }
}

} // verus!
