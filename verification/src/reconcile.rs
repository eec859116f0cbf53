//! Aligning the recorded state with the configured plants.

use crate::name_map::{lemma_seen_all, lemma_seen_next, seen, NameMap};
use crate::plants::{Config, Plant, PlantStatus, State};
use vstd::prelude::*;

verus! {

/// The state that belongs to a configuration: it has exactly the configured
/// plants, each with the status it had before, or as never watered where it
/// had none.
pub open spec fn reconciled(
    config: Map<Seq<char>, Plant>,
    state: Map<Seq<char>, PlantStatus>,
) -> Map<Seq<char>, PlantStatus> {
    Map::new(
        |name: Seq<char>| config.contains_key(name),
        |name: Seq<char>|
            if state.contains_key(name) {
                state[name]
            } else {
                PlantStatus::never()
            },
    )
}

/// Reconciling a state that was reconciled with the same configuration
/// changes nothing.
pub proof fn lemma_reconcile_idempotent(
    config: Map<Seq<char>, Plant>,
    state: Map<Seq<char>, PlantStatus>,
)
    ensures
        reconciled(config, reconciled(config, state)) == reconciled(config, state),
{
    assert(reconciled(config, reconciled(config, state)) =~= reconciled(config, state));
}

/// A reconciled state holds the configured plants and no others.
pub proof fn lemma_reconcile_same_plants(
    config: Map<Seq<char>, Plant>,
    state: Map<Seq<char>, PlantStatus>,
)
    ensures
        reconciled(config, state).dom() == config.dom(),
{
    assert(reconciled(config, state).dom() =~= config.dom());
}

/// Reconciling never changes when a plant was last watered: a plant that
/// stays keeps its status, and a state that already holds the configured
/// plants stays as it is.
pub proof fn lemma_reconcile_keeps_status(
    config: Map<Seq<char>, Plant>,
    state: Map<Seq<char>, PlantStatus>,
)
    ensures
        forall|name: Seq<char>|
            config.contains_key(name) && state.contains_key(name) ==> reconciled(
                config,
                state,
            )[name] == state[name],
        state.dom() == config.dom() ==> reconciled(config, state) == state,
{
    if state.dom() == config.dom() {
        assert(reconciled(config, state) =~= state);
    }
}

/// Drops the status of every plant that is no longer configured, and gives
/// every configured plant without a status that of a plant never watered.
pub fn sync_state_with_config(config: &Config, state: &mut State)
    ensures
        final(state)@ == reconciled(config@, old(state)@),
        final(state)@.dom() == config@.dom(),
{
    let mut kept: NameMap<PlantStatus> = NameMap::new();
    let recorded = state.plants.len();
    let mut i: usize = 0;
    while i < recorded
        invariant
            *state == *old(state),
            recorded == state.plants.keys().len(),
            i <= recorded,
            forall|name: Seq<char>|
                kept@.contains_key(name) <==> config@.contains_key(name) && seen(
                    state.plants.keys(),
                    i as int,
                    name,
                ),
            forall|name: Seq<char>| kept@.contains_key(name) ==> kept@[name] == state@[name],
        decreases recorded - i,
    {
        let name = state.plants.key(i);
        if config.plants.contains_key(name.as_str()) {
            let status = *state.plants.value(i);
            kept.insert(name.clone(), status);
        }
        proof {
            lemma_seen_next(state.plants.keys(), i as int);
        }
        i += 1;
    }
    proof {
        state.plants.lemma_keys_are_domain();
        lemma_seen_all(state.plants.keys());
    }
    let configured = config.plants.len();
    let mut j: usize = 0;
    while j < configured
        invariant
            *state == *old(state),
            configured == config.plants.keys().len(),
            j <= configured,
            forall|name: Seq<char>|
                kept@.contains_key(name) <==> config@.contains_key(name) && (state@.contains_key(
                    name,
                ) || seen(config.plants.keys(), j as int, name)),
            forall|name: Seq<char>|
                kept@.contains_key(name) ==> kept@[name] == reconciled(config@, state@)[name],
        decreases configured - j,
    {
        let name = config.plants.key(j);
        if !kept.contains_key(name.as_str()) {
            kept.insert(name.clone(), PlantStatus::default());
        }
        proof {
            lemma_seen_next(config.plants.keys(), j as int);
        }
        j += 1;
    }
    proof {
        config.plants.lemma_keys_are_domain();
        lemma_seen_all(config.plants.keys());
        assert(kept@ =~= reconciled(config@, state@));
        assert(reconciled(config@, state@).dom() =~= config@.dom());
    }
    state.plants = kept;
}

} // verus!
