//! Recording that plants were watered.

use crate::nag::{due, is_overdue};
use crate::name_map::{lemma_not_seen_before, lemma_seen_all, lemma_seen_next, seen};
use crate::plants::{Config, Plant, PlantStatus, State};
use crate::reconcile::{reconciled, sync_state_with_config};
use crate::time::Timestamp;
use vstd::prelude::*;

verus! {

/// Which plants a watering is recorded for.
#[derive(Debug, PartialEq, Eq)]
pub enum WaterRequest {
    /// Every plant that is due.
    All,
    /// The plants with these names, due or not.
    Targeted(Vec<String>),
}

/// Why nothing was recorded.
#[derive(Debug, PartialEq, Eq)]
pub enum WaterError {
    /// The request names a plant that is not configured.
    NoSuchPlant(String),
}

/// The names in a list of strings.
pub open spec fn names_in(plants: Seq<String>) -> Seq<Seq<char>> {
    Seq::new(plants.len(), |i: int| plants[i]@)
}

/// Whether `names[at]` is the first name that is not configured.
pub open spec fn first_unknown_at(
    config: Map<Seq<char>, Plant>,
    names: Seq<Seq<char>>,
    at: int,
) -> bool {
    &&& 0 <= at < names.len()
    &&& !config.contains_key(names[at])
    &&& forall|j: int| 0 <= j < at ==> config.contains_key(#[trigger] names[j])
}

/// Whether every name is that of a configured plant.
pub open spec fn all_known(config: Map<Seq<char>, Plant>, names: Seq<Seq<char>>) -> bool {
    forall|i: int| 0 <= i < names.len() ==> config.contains_key(#[trigger] names[i])
}

/// The state after every plant that is due at `now` was watered at `now`.
pub open spec fn watered_all(
    config: Map<Seq<char>, Plant>,
    state: Map<Seq<char>, PlantStatus>,
    now: Timestamp,
) -> Map<Seq<char>, PlantStatus> {
    Map::new(
        |name: Seq<char>| state.contains_key(name),
        |name: Seq<char>|
            if config.contains_key(name) && due(config[name], state[name], now) {
                PlantStatus { last_watered: now }
            } else {
                state[name]
            },
    )
}

/// The state after the plants called `names` were watered at `now`.
pub open spec fn watered_named(
    state: Map<Seq<char>, PlantStatus>,
    names: Seq<Seq<char>>,
    now: Timestamp,
) -> Map<Seq<char>, PlantStatus> {
    Map::new(
        |name: Seq<char>| state.contains_key(name),
        |name: Seq<char>|
            if names.contains(name) {
                PlantStatus { last_watered: now }
            } else {
                state[name]
            },
    )
}

/// The state that a request leaves behind where it succeeds.
pub open spec fn watered(
    config: Map<Seq<char>, Plant>,
    state: Map<Seq<char>, PlantStatus>,
    now: Timestamp,
    request: WaterRequest,
) -> Map<Seq<char>, PlantStatus> {
    match request {
        WaterRequest::All => watered_all(config, state, now),
        WaterRequest::Targeted(plants) => watered_named(state, names_in(plants@), now),
    }
}

/// Whether a request is refused: it names a plant that is not configured.
pub open spec fn refused(config: Map<Seq<char>, Plant>, request: WaterRequest) -> bool {
    match request {
        WaterRequest::All => false,
        WaterRequest::Targeted(plants) => !all_known(config, names_in(plants@)),
    }
}

/// Whether `error` is the one that a refused request gets: it holds the
/// first name of the request that is not configured.
pub open spec fn names_first_unknown(
    config: Map<Seq<char>, Plant>,
    request: WaterRequest,
    error: WaterError,
) -> bool {
    match (request, error) {
        (WaterRequest::Targeted(plants), WaterError::NoSuchPlant(name)) => exists|at: int|
            first_unknown_at(config, names_in(plants@), at) && #[trigger] names_in(plants@)[at]
                == name@,
        _ => false,
    }
}

/// The first of `plants` that is not configured, if there is one.
pub fn find_unknown(config: &Config, plants: &Vec<String>) -> (unknown: Option<usize>)
    ensures
        match unknown {
            Some(at) => first_unknown_at(config@, names_in(plants@), at as int),
            None => all_known(config@, names_in(plants@)),
        },
{
    let n = plants.len();
    let mut i: usize = 0;
    while i < n
        invariant
            n == plants@.len(),
            i <= n,
            forall|j: int| 0 <= j < i ==> config@.contains_key(#[trigger] names_in(plants@)[j]),
        decreases n - i,
    {
        if !config.plants.contains_key(plants[i].as_str()) {
            return Some(i);
        }
        i += 1;
    }
    None
}

/// Sets the last watering of every plant that is due at `now` to `now`.
pub fn water_all(config: &Config, state: &mut State, now: Timestamp)
    requires
        old(state)@.dom() == config@.dom(),
    ensures
        final(state)@ == watered_all(config@, old(state)@, now),
{
    let configured = config.plants.len();
    let ghost before = state@;
    let mut i: usize = 0;
    while i < configured
        invariant
            before == old(state)@,
            before.dom() == config@.dom(),
            configured == config.plants.keys().len(),
            config.plants.keys().no_duplicates(),
            i <= configured,
            state@.dom() == before.dom(),
            forall|name: Seq<char>|
                state@.contains_key(name) ==> #[trigger] state@[name] == if seen(
                    config.plants.keys(),
                    i as int,
                    name,
                ) {
                    watered_all(config@, before, now)[name]
                } else {
                    before[name]
                },
        decreases configured - i,
    {
        let name = config.plants.key(i);
        let plant = config.plants.value(i);
        let ghost names = config.plants.keys();
        let ghost so_far = state@;
        proof {
            lemma_seen_next(names, i as int);
            lemma_not_seen_before(names, i as int);
            assert(before.dom().contains(name@));
            assert(so_far[name@] == before[name@]);
        }
        let last_watered = state.plants.get(name.as_str()).unwrap().last_watered;
        let days = now.days_since(&last_watered);
        if is_overdue(days, plant) {
            state.plants.insert(name.clone(), PlantStatus { last_watered: now });
            proof {
                assert(state@.dom() =~= before.dom());
            }
        }
        i += 1;
    }
    proof {
        config.plants.lemma_keys_are_domain();
        lemma_seen_all(config.plants.keys());
        assert(state@ =~= watered_all(config@, before, now));
    }
}

/// Sets the last watering of each of `plants` to `now`.
pub fn water_named(state: &mut State, plants: &Vec<String>, now: Timestamp)
    requires
        forall|i: int| 0 <= i < plants@.len() ==> old(state)@.contains_key(#[trigger] plants@[i]@),
    ensures
        final(state)@ == watered_named(old(state)@, names_in(plants@), now),
{
    let n = plants.len();
    let ghost before = state@;
    let ghost names = names_in(plants@);
    let mut i: usize = 0;
    while i < n
        invariant
            before == old(state)@,
            names == names_in(plants@),
            n == plants@.len(),
            i <= n,
            forall|j: int| 0 <= j < plants@.len() ==> before.contains_key(#[trigger] plants@[j]@),
            state@.dom() == before.dom(),
            forall|name: Seq<char>|
                state@.contains_key(name) ==> #[trigger] state@[name] == if seen(
                    names,
                    i as int,
                    name,
                ) {
                    PlantStatus { last_watered: now }
                } else {
                    before[name]
                },
        decreases n - i,
    {
        proof {
            lemma_seen_next(names, i as int);
            assert(before.contains_key(plants@[i as int]@));
        }
        let ghost so_far = state@;
        state.plants.insert(plants[i].clone(), PlantStatus { last_watered: now });
        proof {
            assert(names[i as int] == plants@[i as int]@);
            assert(state@.dom() =~= before.dom());
            assert forall|name: Seq<char>| state@.contains_key(name) implies #[trigger] state@[name]
                == if seen(names, i + 1, name) {
                PlantStatus { last_watered: now }
            } else {
                before[name]
            } by {
                if name != names[i as int] {
                    assert(state@[name] == so_far[name]);
                }
            }
        }
        i += 1;
    }
    proof {
        lemma_seen_all(names);
        assert(state@ =~= watered_named(before, names, now));
    }
}

/// Decides whether a request can be carried out: it can unless it names a
/// plant that is not configured. The error holds the first such name.
pub fn check_request(config: &Config, request: &WaterRequest) -> (checked: Result<(), WaterError>)
    ensures
        checked is Err <==> refused(config@, *request),
        checked is Err ==> names_first_unknown(config@, *request, checked->Err_0),
{
    match request {
        WaterRequest::All => Ok(()),
        WaterRequest::Targeted(plants) => {
            match find_unknown(config, plants) {
                Some(at) => {
                    assert(names_in(plants@)[at as int] == plants@[at as int]@);
                    Err(WaterError::NoSuchPlant(plants[at].clone()))
                },
                None => Ok(()),
            }
        },
    }
}

/// Carries out a request that names no unknown plant, on a reconciled state.
pub fn apply_request(config: &Config, state: &mut State, now: Timestamp, request: &WaterRequest)
    requires
        old(state)@.dom() == config@.dom(),
        !refused(config@, *request),
    ensures
        final(state)@ == watered(config@, old(state)@, now, *request),
{
    match request {
        WaterRequest::All => {
            water_all(config, state, now);
        },
        WaterRequest::Targeted(plants) => {
            proof {
                assert forall|i: int| 0 <= i < plants@.len() implies state@.contains_key(
                    #[trigger] plants@[i]@,
                ) by {
                    assert(names_in(plants@)[i] == plants@[i]@);
                }
            }
            water_named(state, plants, now);
        },
    }
}

/// Records a watering at `now` in a reconciled state.
///
/// A request for all plants waters those that are due. A request for named
/// plants waters each of them, unless one of the names is not configured:
/// then the state stays as it was and the error holds the first such name.
pub fn water(config: &Config, state: &mut State, now: Timestamp, request: &WaterRequest) -> (done:
    Result<(), WaterError>)
    requires
        old(state)@.dom() == config@.dom(),
    ensures
        done is Err <==> refused(config@, *request),
        match done {
            Ok(_) => final(state)@ == watered(config@, old(state)@, now, *request),
            Err(error) => *final(state) == *old(state) && names_first_unknown(
                config@,
                *request,
                error,
            ),
        },
{
    match check_request(config, request) {
        Ok(_) => {
            apply_request(config, state, now, request);
            Ok(())
        },
        Err(error) => Err(error),
    }
}

/// Checks the request, reconciles `state` with `config`, and records the
/// watering at `now`.
///
/// Where the request names a plant that is not configured, nothing happens
/// to the state, not even the reconciliation.
pub fn cmd_water(config: &Config, state: &mut State, now: Timestamp, request: &WaterRequest) -> (done:
    Result<(), WaterError>)
    ensures
        done is Err <==> refused(config@, *request),
        match done {
            Ok(_) => final(state)@ == watered(
                config@,
                reconciled(config@, old(state)@),
                now,
                *request,
            ) && final(state)@.dom() == config@.dom(),
            Err(error) => *final(state) == *old(state) && names_first_unknown(
                config@,
                *request,
                error,
            ),
        },
{
    match check_request(config, request) {
        Ok(_) => {
            sync_state_with_config(config, state);
            apply_request(config, state, now, request);
            proof {
                lemma_watering_keeps_plants(config@, reconciled(config@, old(state)@), now, *request);
            }
            Ok(())
        },
        Err(error) => Err(error),
    }
}

/// A watering changes when plants were watered, never which plants there are.
pub proof fn lemma_watering_keeps_plants(
    config: Map<Seq<char>, Plant>,
    state: Map<Seq<char>, PlantStatus>,
    now: Timestamp,
    request: WaterRequest,
)
    ensures
        watered(config, state, now, request).dom() == state.dom(),
{
    assert(watered(config, state, now, request).dom() =~= state.dom());
}

impl WaterError {
    /// The text of the error, for the user.
    pub open spec fn message_text(self) -> Seq<char> {
        match self {
            WaterError::NoSuchPlant(name) => "no plant named "@ + name@ + " in config"@,
        }
    }

    /// The text of the error, for the user.
    pub fn message(&self) -> (text: String)
        ensures
            text@ == self.message_text(),
    {
        match self {
            WaterError::NoSuchPlant(name) => {
                let mut text = "no plant named ".to_owned();
                text.append(name.as_str());
                text.append(" in config");
                text
            },
        }
    }
}

/// A watering of named plants gives each of them the same moment, `now`,
/// and leaves every other plant as it was.
pub proof fn lemma_named_share_now(
    state: Map<Seq<char>, PlantStatus>,
    names: Seq<Seq<char>>,
    now: Timestamp,
)
    ensures
        watered_named(state, names, now).dom() == state.dom(),
        forall|name: Seq<char>|
            state.contains_key(name) && names.contains(name) ==> #[trigger] watered_named(
                state,
                names,
                now,
            )[name].last_watered == now,
        forall|name: Seq<char>|
            state.contains_key(name) && !names.contains(name) ==> #[trigger] watered_named(
                state,
                names,
                now,
            )[name] == state[name],
{
    assert(watered_named(state, names, now).dom() =~= state.dom());
}

/// A watering of all plants gives `now` to the plants that are due and
/// leaves those that are not yet due as they were.
pub proof fn lemma_all_waters_only_due(
    config: Map<Seq<char>, Plant>,
    state: Map<Seq<char>, PlantStatus>,
    now: Timestamp,
)
    requires
        state.dom() == config.dom(),
    ensures
        watered_all(config, state, now).dom() == state.dom(),
        forall|name: Seq<char>|
            state.contains_key(name) && due(config[name], state[name], now)
                ==> #[trigger] watered_all(config, state, now)[name].last_watered == now,
        forall|name: Seq<char>|
            state.contains_key(name) && !due(config[name], state[name], now)
                ==> #[trigger] watered_all(config, state, now)[name] == state[name],
{
    assert(watered_all(config, state, now).dom() =~= state.dom());
}

} // verus!
