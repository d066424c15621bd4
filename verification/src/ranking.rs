//! Ranking protocol stacks against the caller's preferences.
//!
//! A stack is removed when it lacks a required property or offers a
//! prohibited one. What remains is ranked by the number of preferences it
//! meets: one point for each preferred property that it offers and for each
//! avoided property that it does not.

use vstd::prelude::*;
use crate::selection_properties::PreferenceLevel;
use crate::selection_properties::ProtocolCapabilities;
use crate::selection_properties::SelectionProperty;
use crate::selection_properties::ServiceLevel;
use crate::selection_properties::PROPERTY_COUNT;
use crate::selection_properties::registry_view;
use crate::transport_properties::TransportProperties;

verus! {

/// Whether a preference rules out a stack with the given service level.
pub open spec fn excludes(preference: PreferenceLevel, service: ServiceLevel) -> bool {
    ||| preference == PreferenceLevel::Require && service == ServiceLevel::NotProvided
    ||| preference == PreferenceLevel::Prohibit && service != ServiceLevel::NotProvided
}

/// Whether a stack with the given service level meets a preference that
/// counts towards its rank.
pub open spec fn favours(preference: PreferenceLevel, service: ServiceLevel) -> bool {
    ||| preference == PreferenceLevel::Prefer && service != ServiceLevel::NotProvided
    ||| preference == PreferenceLevel::Avoid && service == ServiceLevel::NotProvided
}

/// Whether a stack is compatible with the preferences.
pub open spec fn survives(
    preferences: Map<SelectionProperty, PreferenceLevel>,
    capabilities: Map<SelectionProperty, ServiceLevel>,
) -> bool {
    forall|p: SelectionProperty| !excludes(#[trigger] preferences[p], capabilities[p])
}

/// What one property adds to the rank of a stack.
pub open spec fn points(
    preferences: Map<SelectionProperty, PreferenceLevel>,
    capabilities: Map<SelectionProperty, ServiceLevel>,
    property: SelectionProperty,
) -> int {
    if favours(preferences[property], capabilities[property]) {
        1
    } else {
        0
    }
}

/// The points of the first `n` properties.
pub open spec fn rank_below(
    preferences: Map<SelectionProperty, PreferenceLevel>,
    capabilities: Map<SelectionProperty, ServiceLevel>,
    n: int,
) -> int
    decreases n,
{
    if n <= 0 {
        0
    } else {
        rank_below(preferences, capabilities, n - 1) + points(
            preferences,
            capabilities,
            SelectionProperty::at(n - 1),
        )
    }
}

/// The rank of a stack: the number of preferences that it meets.
pub open spec fn rank(
    preferences: Map<SelectionProperty, PreferenceLevel>,
    capabilities: Map<SelectionProperty, ServiceLevel>,
) -> int {
    rank_below(preferences, capabilities, PROPERTY_COUNT as int)
}

/// The compatible stacks of a table with their ranks, in the table's order.
pub open spec fn ranked(
    preferences: Map<SelectionProperty, PreferenceLevel>,
    registry: Seq<(&'static str, Map<SelectionProperty, ServiceLevel>)>,
) -> Seq<(&'static str, u8)>
    decreases registry.len(),
{
    if registry.len() == 0 {
        Seq::empty()
    } else {
        let rest = ranked(preferences, registry.drop_last());
        let entry = registry.last();
        if survives(preferences, entry.1) {
            rest.push((entry.0, rank(preferences, entry.1) as u8))
        } else {
            rest
        }
    }
}

/// A rank lies between zero and the number of properties.
pub proof fn lemma_rank_bounds(
    preferences: Map<SelectionProperty, PreferenceLevel>,
    capabilities: Map<SelectionProperty, ServiceLevel>,
    n: int,
)
    requires
        0 <= n,
    ensures
        0 <= rank_below(preferences, capabilities, n) <= n,
    decreases n,
{
    if n > 0 {
        lemma_rank_bounds(preferences, capabilities, n - 1);
    }
}

/// Decides whether a stack is compatible with the preferences, and ranks it
/// if it is.
pub fn evaluate(properties: &TransportProperties, capabilities: &ProtocolCapabilities) -> (outcome:
    Option<u8>)
    ensures
        outcome is Some <==> survives(properties@, capabilities@),
        outcome matches Some(r) ==> r == rank(properties@, capabilities@),
{
    let mut score: u8 = 0;
    let mut i: usize = 0;
    while i < PROPERTY_COUNT
        invariant
            i <= PROPERTY_COUNT,
            score == rank_below(properties@, capabilities@, i as int),
            score <= i,
            forall|k: int|
                0 <= k < i ==> !excludes(
                    #[trigger] properties.selection_properties@[k],
                    capabilities.service_levels@[k],
                ),
        decreases PROPERTY_COUNT - i,
    {
        let preference = properties.selection_properties[i];
        let service = capabilities.service_levels[i];
        proof {
            SelectionProperty::lemma_at(i as int);
        }
        let ghost property = SelectionProperty::at(i as int);
        assert(properties@[property] == preference);
        assert(capabilities@[property] == service);
        match preference {
            PreferenceLevel::Require => {
                if service == ServiceLevel::NotProvided {
                    return None;
                }
            },
            PreferenceLevel::Prefer => {
                if service != ServiceLevel::NotProvided {
                    score += 1;
                }
            },
            PreferenceLevel::Ignore => {},
            PreferenceLevel::Avoid => {
                if service == ServiceLevel::NotProvided {
                    score += 1;
                }
            },
            PreferenceLevel::Prohibit => {
                if service != ServiceLevel::NotProvided {
                    return None;
                }
            },
        }
        i += 1;
    }
    proof {
        assert forall|p: SelectionProperty| !excludes(
            #[trigger] properties@[p],
            capabilities@[p],
        ) by {
            p.lemma_positions();
            assert(properties@[p] == properties.selection_properties@[p.position()]);
        }
    }
    Some(score)
}

/// Ranks the compatible stacks of a table, keeping the table's order.
pub fn rank_protocols(
    properties: &TransportProperties,
    registry: &Vec<(&'static str, ProtocolCapabilities)>,
) -> (ranks: Vec<(&'static str, u8)>)
    ensures
        ranks@ == ranked(properties@, registry_view(registry@)),
{
    let mut ranks: Vec<(&'static str, u8)> = Vec::new();
    let mut i: usize = 0;
    while i < registry.len()
        invariant
            i <= registry@.len(),
            ranks@ == ranked(properties@, registry_view(registry@).take(i as int)),
        decreases registry@.len() - i,
    {
        let outcome = evaluate(properties, &registry[i].1);
        proof {
            let table = registry_view(registry@);
            assert(table.take(i + 1).drop_last() =~= table.take(i as int));
            assert(table.take(i + 1).last() == (registry@[i as int].0, registry@[i as int].1@));
        }
        if let Some(r) = outcome {
            ranks.push((registry[i].0, r));
        }
        i += 1;
    }
    proof {
        let table = registry_view(registry@);
        assert(table.take(i as int) =~= table);
    }
    ranks
}

/// A compatible stack lacks no required property and offers no prohibited
/// one.
pub proof fn lemma_survivor(
    preferences: Map<SelectionProperty, PreferenceLevel>,
    capabilities: Map<SelectionProperty, ServiceLevel>,
    property: SelectionProperty,
)
    requires
        survives(preferences, capabilities),
    ensures
        !(preferences[property] == PreferenceLevel::Require && capabilities[property]
            == ServiceLevel::NotProvided),
        !(preferences[property] == PreferenceLevel::Prohibit && capabilities[property]
            != ServiceLevel::NotProvided),
{
    assert(!excludes(preferences[property], capabilities[property]));
}

/// Filter soundness. Every stack that is ranked stands in the table, and
/// there is no property that is required and that the stack does not
/// provide, nor one that is prohibited and that the stack does provide.
pub proof fn lemma_filter_sound(
    preferences: Map<SelectionProperty, PreferenceLevel>,
    registry: Seq<(&'static str, Map<SelectionProperty, ServiceLevel>)>,
    k: int,
    property: SelectionProperty,
) -> (j: int)
    requires
        0 <= k < ranked(preferences, registry).len(),
    ensures
        0 <= j < registry.len(),
        registry[j].0 == ranked(preferences, registry)[k].0,
        rank(preferences, registry[j].1) == ranked(preferences, registry)[k].1,
        !(preferences[property] == PreferenceLevel::Require && registry[j].1[property]
            == ServiceLevel::NotProvided),
        !(preferences[property] == PreferenceLevel::Prohibit && registry[j].1[property]
            != ServiceLevel::NotProvided),
{
    lemma_ranked_are_survivors(preferences, registry);
    let j = choose|j: int|
        0 <= j < registry.len() && survives(preferences, registry[j].1) && ranked(
            preferences,
            registry,
        )[k] == (registry[j].0, rank(preferences, registry[j].1) as u8);
    lemma_survivor(preferences, registry[j].1, property);
    lemma_rank_bounds(preferences, registry[j].1, PROPERTY_COUNT as int);
    j
}

/// Every ranked stack is a compatible stack of the table under its own
/// identifier and with its own rank, and every compatible stack of the table
/// is ranked.
pub proof fn lemma_ranked_are_survivors(
    preferences: Map<SelectionProperty, PreferenceLevel>,
    registry: Seq<(&'static str, Map<SelectionProperty, ServiceLevel>)>,
)
    ensures
        forall|k: int|
            0 <= k < ranked(preferences, registry).len() ==> exists|j: int|
                0 <= j < registry.len() && survives(preferences, registry[j].1) && (
                #[trigger] ranked(preferences, registry)[k]) == (
                    registry[j].0,
                    rank(preferences, registry[j].1) as u8,
                ),
        forall|j: int|
            0 <= j < registry.len() && survives(preferences, (#[trigger] registry[j]).1)
                ==> ranked(preferences, registry).contains(
                (registry[j].0, rank(preferences, registry[j].1) as u8),
            ),
        ranked(preferences, registry).len() <= registry.len(),
    decreases registry.len(),
{
    if registry.len() > 0 {
        let shorter = registry.drop_last();
        let entry = registry.last();
        let last = registry.len() - 1;
        lemma_ranked_are_survivors(preferences, shorter);
        let rest = ranked(preferences, shorter);
        let all = ranked(preferences, registry);
        assert forall|k: int| 0 <= k < all.len() implies exists|j: int|
            0 <= j < registry.len() && survives(preferences, registry[j].1) && (#[trigger] all[k])
                == (registry[j].0, rank(preferences, registry[j].1) as u8) by {
            if k < rest.len() {
                assert(all[k] == rest[k]);
                let j = choose|j: int|
                    0 <= j < shorter.len() && survives(preferences, shorter[j].1) && rest[k] == (
                        shorter[j].0,
                        rank(preferences, shorter[j].1) as u8,
                    );
                assert(shorter[j] == registry[j]);
            } else {
                assert(registry[last] == entry);
            }
        }
        assert forall|j: int|
            0 <= j < registry.len() && survives(
                preferences,
                (#[trigger] registry[j]).1,
            ) implies all.contains((registry[j].0, rank(preferences, registry[j].1) as u8)) by {
            let item = (registry[j].0, rank(preferences, registry[j].1) as u8);
            if j < last {
                assert(shorter[j] == registry[j]);
                assert(rest.contains(item));
                let k = choose|k: int| 0 <= k < rest.len() && rest[k] == item;
                assert(all[k] == item);
            } else {
                assert(all[all.len() - 1] == item);
            }
        }
    }
}

/// Where the identifiers of a table differ from one another, so do those of
/// its ranked stacks.
pub proof fn lemma_ranked_names_distinct(
    preferences: Map<SelectionProperty, PreferenceLevel>,
    registry: Seq<(&'static str, Map<SelectionProperty, ServiceLevel>)>,
)
    requires
        forall|i: int, j: int| 0 <= i < j < registry.len() ==> registry[i].0 != registry[j].0,
    ensures
        forall|u: int, v: int|
            0 <= u < v < ranked(preferences, registry).len() ==> ranked(preferences, registry)[u].0
                != ranked(preferences, registry)[v].0,
    decreases registry.len(),
{
    if registry.len() > 0 {
        let shorter = registry.drop_last();
        let last = registry.len() - 1;
        let rest = ranked(preferences, shorter);
        let all = ranked(preferences, registry);
        assert forall|i: int, j: int| 0 <= i < j < shorter.len() implies shorter[i].0
            != shorter[j].0 by {
            assert(shorter[i] == registry[i] && shorter[j] == registry[j]);
        }
        lemma_ranked_names_distinct(preferences, shorter);
        lemma_ranked_are_survivors(preferences, shorter);
        assert forall|u: int, v: int| 0 <= u < v < all.len() implies all[u].0 != all[v].0 by {
            assert(all[u] == rest[u]);
            if v < rest.len() {
                assert(all[v] == rest[v]);
            } else {
                let j = choose|j: int|
                    0 <= j < shorter.len() && survives(preferences, shorter[j].1) && rest[u] == (
                        shorter[j].0,
                        rank(preferences, shorter[j].1) as u8,
                    );
                assert(shorter[j] == registry[j]);
                assert(all[v].0 == registry[last].0);
            }
        }
    }
}

/// Rank monotonicity, first half: preferring a property that a stack offers
/// does not lower the rank of the stack.
pub proof fn lemma_prefer_does_not_lower_rank(
    preferences: Map<SelectionProperty, PreferenceLevel>,
    capabilities: Map<SelectionProperty, ServiceLevel>,
    property: SelectionProperty,
)
    requires
        capabilities[property] != ServiceLevel::NotProvided,
    ensures
        rank(preferences.insert(property, PreferenceLevel::Prefer), capabilities) >= rank(
            preferences,
            capabilities,
        ),
{
    lemma_prefer_below(preferences, capabilities, property, PROPERTY_COUNT as int);
}

proof fn lemma_prefer_below(
    preferences: Map<SelectionProperty, PreferenceLevel>,
    capabilities: Map<SelectionProperty, ServiceLevel>,
    property: SelectionProperty,
    n: int,
)
    requires
        capabilities[property] != ServiceLevel::NotProvided,
    ensures
        rank_below(preferences.insert(property, PreferenceLevel::Prefer), capabilities, n)
            >= rank_below(preferences, capabilities, n),
    decreases n,
{
    if n > 0 {
        lemma_prefer_below(preferences, capabilities, property, n - 1);
    }
}

/// Rank monotonicity, second half: avoiding a property that a stack offers
/// does not raise the rank of the stack.
pub proof fn lemma_avoid_does_not_raise_rank(
    preferences: Map<SelectionProperty, PreferenceLevel>,
    capabilities: Map<SelectionProperty, ServiceLevel>,
    property: SelectionProperty,
)
    requires
        capabilities[property] != ServiceLevel::NotProvided,
    ensures
        rank(preferences.insert(property, PreferenceLevel::Avoid), capabilities) <= rank(
            preferences,
            capabilities,
        ),
{
    lemma_avoid_below(preferences, capabilities, property, PROPERTY_COUNT as int);
}

proof fn lemma_avoid_below(
    preferences: Map<SelectionProperty, PreferenceLevel>,
    capabilities: Map<SelectionProperty, ServiceLevel>,
    property: SelectionProperty,
    n: int,
)
    requires
        capabilities[property] != ServiceLevel::NotProvided,
    ensures
        rank_below(preferences.insert(property, PreferenceLevel::Avoid), capabilities, n)
            <= rank_below(preferences, capabilities, n),
    decreases n,
{
    if n > 0 {
        lemma_avoid_below(preferences, capabilities, property, n - 1);
    }
}

} // verus!
