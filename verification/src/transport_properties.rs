//! The caller's preferences: a preference level for every selection property.

use vstd::prelude::*;
use crate::selection_properties::PreferenceLevel;
use crate::selection_properties::SelectionProperty;

verus! {

/// A preference level for every selection property.
#[derive(Debug, Clone, Copy)]
#[verifier::ext_equal]
pub struct TransportProperties {
    pub selection_properties: [PreferenceLevel; 13],
}

impl View for TransportProperties {
    type V = Map<SelectionProperty, PreferenceLevel>;

    open spec fn view(&self) -> Map<SelectionProperty, PreferenceLevel> {
        Map::total(|p: SelectionProperty| self.level(p))
    }
}

/// The preference of the default profile for a property: reliability,
/// ordering and congestion control are required; message boundaries,
/// zero-RTT, multistreaming and multipath are preferred; the rest is ignored.
pub open spec fn default_level(property: SelectionProperty) -> PreferenceLevel {
    match property {
        SelectionProperty::Reliability => PreferenceLevel::Require,
        SelectionProperty::PreserveOrder => PreferenceLevel::Require,
        SelectionProperty::CongestionControl => PreferenceLevel::Require,
        SelectionProperty::PreserveMsgBoundaries => PreferenceLevel::Prefer,
        SelectionProperty::ZeroRttMsg => PreferenceLevel::Prefer,
        SelectionProperty::Multistreaming => PreferenceLevel::Prefer,
        SelectionProperty::Multipath => PreferenceLevel::Prefer,
        _ => PreferenceLevel::Ignore,
    }
}

/// The default profile as a map.
pub open spec fn default_preferences() -> Map<SelectionProperty, PreferenceLevel> {
    Map::total(|p: SelectionProperty| default_level(p))
}

impl TransportProperties {
    /// The preference level of a property.
    pub open spec fn level(&self, property: SelectionProperty) -> PreferenceLevel {
        self.selection_properties@[property.position()]
    }

    /// These properties with the level of `property` replaced.
    pub open spec fn with(self, property: SelectionProperty, level: PreferenceLevel) -> Self {
        TransportProperties {
            selection_properties: vstd::array::spec_array_update(
                self.selection_properties,
                property.position(),
                level,
            ),
        }
    }

    /// Replacing the level of one property changes the map at that
    /// property and nowhere else.
    pub proof fn lemma_with(self, property: SelectionProperty, level: PreferenceLevel)
        ensures
            self.with(property, level)@ == self@.insert(property, level),
    {
        let updated = self.with(property, level);
        assert forall|q: SelectionProperty| updated@[q] == self@.insert(property, level)[q] by {
            q.lemma_positions();
            property.lemma_positions();
        }
    }

    /// Whether this is the default profile.
    pub open spec fn is_default(&self) -> bool {
        self@ == default_preferences()
    }

    /// The preference level of a property.
    pub fn get(&self, property: SelectionProperty) -> (level: PreferenceLevel)
        ensures
            level == self.level(property),
    {
        self.selection_properties[property.index()]
    }

    /// Sets the preference level of a property, leaving the others as they are.
    pub fn add(&mut self, property: SelectionProperty, preference_level: PreferenceLevel)
        ensures
            *final(self) == old(self).with(property, preference_level),
            final(self)@ == old(self)@.insert(property, preference_level),
    {
        self.selection_properties[property.index()] = preference_level;
        proof {
            old(self).lemma_with(property, preference_level);
        }
    }

    /// Requires a property.
    pub fn require(&mut self, property: SelectionProperty)
        ensures
            *final(self) == old(self).with(property, PreferenceLevel::Require),
            final(self)@ == old(self)@.insert(property, PreferenceLevel::Require),
    {
        self.add(property, PreferenceLevel::Require);
    }

    /// Prefers a property.
    pub fn prefer(&mut self, property: SelectionProperty)
        ensures
            *final(self) == old(self).with(property, PreferenceLevel::Prefer),
            final(self)@ == old(self)@.insert(property, PreferenceLevel::Prefer),
    {
        self.add(property, PreferenceLevel::Prefer);
    }

    /// Ignores a property.
    pub fn ignore(&mut self, property: SelectionProperty)
        ensures
            *final(self) == old(self).with(property, PreferenceLevel::Ignore),
            final(self)@ == old(self)@.insert(property, PreferenceLevel::Ignore),
    {
        self.add(property, PreferenceLevel::Ignore);
    }

    /// Avoids a property.
    pub fn avoid(&mut self, property: SelectionProperty)
        ensures
            *final(self) == old(self).with(property, PreferenceLevel::Avoid),
            final(self)@ == old(self)@.insert(property, PreferenceLevel::Avoid),
    {
        self.add(property, PreferenceLevel::Avoid);
    }

    /// Prohibits a property.
    pub fn prohibit(&mut self, property: SelectionProperty)
        ensures
            *final(self) == old(self).with(property, PreferenceLevel::Prohibit),
            final(self)@ == old(self)@.insert(property, PreferenceLevel::Prohibit),
    {
        self.add(property, PreferenceLevel::Prohibit);
    }
}

impl Default for TransportProperties {
    /// The default profile.
    fn default() -> (properties: TransportProperties)
        ensures
            properties.is_default(),
    {
        let properties = TransportProperties {
            selection_properties: [
                PreferenceLevel::Require,
                PreferenceLevel::Prefer,
                PreferenceLevel::Ignore,
                PreferenceLevel::Require,
                PreferenceLevel::Prefer,
                PreferenceLevel::Prefer,
                PreferenceLevel::Ignore,
                PreferenceLevel::Ignore,
                PreferenceLevel::Require,
                PreferenceLevel::Prefer,
                PreferenceLevel::Ignore,
                PreferenceLevel::Ignore,
                PreferenceLevel::Ignore,
            ],
        };
        proof {
            assert forall|p: SelectionProperty| properties@[p] == default_level(p) by {
                p.lemma_positions();
            }
            assert(properties@ =~= default_preferences());
        }
        properties
    }
}

} // verus!
