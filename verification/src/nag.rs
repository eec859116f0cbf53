//! Finding the plants that are due for watering.

use crate::name_map::{lemma_not_seen_before, lemma_seen_all, lemma_seen_next, seen};
use crate::plants::{Config, Plant, PlantStatus, State};
use crate::reconcile::{reconciled, sync_state_with_config};
use crate::text::{decimal, push_decimal};
use crate::time::{whole_days_between, Timestamp};
use vstd::prelude::*;

verus! {

/// A plant is overdue once as many days have passed as its interval has.
pub open spec fn overdue(days: int, interval: int) -> bool {
    days >= interval
}

/// The whole days since the plant with `status` was watered, as of `now`.
pub open spec fn days_unwatered(status: PlantStatus, now: Timestamp) -> int {
    whole_days_between(now@, status.last_watered@)
}

/// Whether the plant with `status` needs watering at `now`.
pub open spec fn due(plant: Plant, status: PlantStatus, now: Timestamp) -> bool {
    overdue(days_unwatered(status, now), plant.watering_interval as int)
}

/// Whether a plant that was last watered `days` days ago needs watering.
pub fn is_overdue(days: i64, plant: &Plant) -> (needs_water: bool)
    ensures
        needs_water == overdue(days as int, plant.watering_interval as int),
{
    days >= 0 && days as u64 >= plant.watering_interval
}

/// A plant is overdue on the very day its interval has passed.
pub proof fn lemma_overdue_at_interval(days: int, interval: int)
    requires
        days == interval,
    ensures
        overdue(days, interval),
{
}

/// A plant that needs watering, with the days since it was last watered.
#[derive(Debug, PartialEq, Eq)]
pub struct Overdue {
    pub name: String,
    pub days: i64,
}

impl Overdue {
    /// The line that tells the user about this plant.
    pub open spec fn message_text(self) -> Seq<char> {
        "Plant needs watering: "@ + self.name@ + " ("@ + decimal(self.days as int)
            + " days since last watered)"@
    }

    /// The line that tells the user about this plant.
    pub fn message(&self) -> (text: String)
        ensures
            text@ == self.message_text(),
    {
        let mut text = "Plant needs watering: ".to_owned();
        text.append(self.name.as_str());
        text.append(" (");
        push_decimal(&mut text, self.days);
        text.append(" days since last watered)");
        text
    }
}

/// Whether `name` is the name of one of the plants in `found`.
pub open spec fn listed(found: Seq<Overdue>, name: Seq<char>) -> bool {
    exists|i: int| 0 <= i < found.len() && (#[trigger] found[i]).name@ == name
}

/// Adding a plant to a list lists that plant besides those that were listed.
pub proof fn lemma_listed_push(found: Seq<Overdue>, added: Overdue)
    ensures
        forall|name: Seq<char>|
            listed(found.push(added), name) <==> (listed(found, name) || name == added.name@),
{
    let longer = found.push(added);
    assert forall|name: Seq<char>|
        listed(longer, name) <==> (listed(found, name) || name == added.name@) by {
        if listed(longer, name) {
            let i = choose|i: int| 0 <= i < longer.len() && (#[trigger] longer[i]).name@ == name;
            if i < found.len() {
                assert(found[i].name@ == name);
            }
        }
        if listed(found, name) {
            let i = choose|i: int| 0 <= i < found.len() && (#[trigger] found[i]).name@ == name;
            assert(longer[i].name@ == name);
        }
        if name == added.name@ {
            assert(longer[found.len() as int].name@ == name);
        }
    }
}

/// What a list of overdue plants must hold for `state` at `now`: every plant
/// that is due, once, with its days since the last watering, and nothing else.
pub open spec fn is_overdue_list(
    config: Map<Seq<char>, Plant>,
    state: Map<Seq<char>, PlantStatus>,
    now: Timestamp,
    found: Seq<Overdue>,
) -> bool {
    &&& forall|name: Seq<char>| #[trigger]
        listed(found, name) <==> state.contains_key(name) && due(config[name], state[name], now)
    &&& forall|i: int|
        0 <= i < found.len() ==> (#[trigger] found[i]).days == days_unwatered(
            state[found[i].name@],
            now,
        )
    &&& forall|i: int, j: int|
        0 <= i < j < found.len() ==> (#[trigger] found[i]).name@ != (#[trigger] found[j]).name@
}

/// Lists the plants of a reconciled state that need watering at `now`.
pub fn nag(config: &Config, state: &State, now: Timestamp) -> (found: Vec<Overdue>)
    requires
        state@.dom() == config@.dom(),
    ensures
        is_overdue_list(config@, state@, now, found@),
{
    let mut found: Vec<Overdue> = Vec::new();
    let recorded = state.plants.len();
    let mut i: usize = 0;
    proof {
        lemma_seen_all(state.plants.keys());
    }
    while i < recorded
        invariant
            state@.dom() == config@.dom(),
            recorded == state.plants.keys().len(),
            state.plants.keys().no_duplicates(),
            i <= recorded,
            forall|name: Seq<char>| #[trigger]
                listed(found@, name) <==> seen(state.plants.keys(), i as int, name) && due(
                    config@[name],
                    state@[name],
                    now,
                ),
            forall|k: int|
                0 <= k < found@.len() ==> (#[trigger] found@[k]).days == days_unwatered(
                    state@[found@[k].name@],
                    now,
                ),
            forall|k: int, m: int|
                0 <= k < m < found@.len() ==> (#[trigger] found@[k]).name@ != (
                #[trigger] found@[m]).name@,
        decreases recorded - i,
    {
        let name = state.plants.key(i);
        let status = state.plants.value(i);
        let days = now.days_since(&status.last_watered);
        let ghost before = found@;
        let ghost names = state.plants.keys();
        proof {
            lemma_seen_next(names, i as int);
            lemma_not_seen_before(names, i as int);
            assert(config@.dom().contains(name@));
        }
        let plant = config.plants.get(name.as_str()).unwrap();
        if is_overdue(days, plant) {
            let entry = Overdue { name: name.clone(), days };
            proof {
                lemma_listed_push(before, entry);
                assert(due(config@[name@], state@[name@], now));
                assert(!listed(before, name@));
            }
            found.push(entry);
            proof {
                assert forall|name: Seq<char>| #[trigger]
                    listed(found@, name) <==> seen(names, i + 1, name) && due(
                        config@[name],
                        state@[name],
                        now,
                    ) by {
                    assert(listed(before, name) <==> seen(names, i as int, name) && due(
                        config@[name],
                        state@[name],
                        now,
                    ));
                }
                assert forall|k: int, m: int| 0 <= k < m < found@.len() implies (
                #[trigger] found@[k]).name@ != (#[trigger] found@[m]).name@ by {
                    if m == before.len() {
                        assert(before[k].name@ == found@[k].name@);
                        assert(listed(before, before[k].name@));
                    }
                }
            }
        } else {
            proof {
                assert(!due(config@[name@], state@[name@], now));
                assert forall|name: Seq<char>| #[trigger]
                    listed(found@, name) <==> seen(names, i + 1, name) && due(
                        config@[name],
                        state@[name],
                        now,
                    ) by {
                    assert(listed(before, name) <==> seen(names, i as int, name) && due(
                        config@[name],
                        state@[name],
                        now,
                    ));
                }
            }
        }
        i += 1;
    }
    proof {
        state.plants.lemma_keys_are_domain();
        lemma_seen_all(state.plants.keys());
    }
    found
}

/// Reconciles `state` with `config` and lists the plants that need watering
/// at `now`. Apart from the reconciliation the state stays as it was: no
/// plant's last watering changes.
pub fn cmd_nag(config: &Config, state: &mut State, now: Timestamp) -> (found: Vec<Overdue>)
    ensures
        final(state)@ == reconciled(config@, old(state)@),
        final(state)@.dom() == config@.dom(),
        is_overdue_list(config@, final(state)@, now, found@),
{
    sync_state_with_config(config, state);
    nag(config, state, now)
}

} // verus!
