//! Selection properties, preference levels, service levels, and the static
//! table of what each supported protocol stack offers.

use vstd::prelude::*;

verus! {

/// How strongly the caller wants a property.
#[derive(Debug, Clone, Copy, PartialEq, Eq, Structural)]
pub enum PreferenceLevel {
    /// Select only protocols providing the property, fail otherwise.
    Require,
    /// Prefer protocols providing the property, proceed otherwise.
    Prefer,
    /// No preference.
    Ignore,
    /// Prefer protocols not providing the property, proceed otherwise.
    Avoid,
    /// Select only protocols not providing the property, fail otherwise.
    Prohibit,
}

/// How a protocol supports a property.
#[derive(Debug, Clone, Copy, PartialEq, Eq, Structural)]
pub enum ServiceLevel {
    Provided,
    Optional,
    NotProvided,
}

/// The transport capabilities that a caller can ask for.
#[derive(Debug, Clone, Copy, PartialEq, Eq, Structural)]
pub enum SelectionProperty {
    Reliability,
    PreserveMsgBoundaries,
    PerMsgReliability,
    PreserveOrder,
    ZeroRttMsg,
    Multistreaming,
    PerMsgChecksumLenSend,
    PerMsgChecksumLenRecv,
    CongestionControl,
    Multipath,
    Direction,
    RetransmitNotify,
    SoftErrorNotify,
}

/// Number of selection properties.
pub const PROPERTY_COUNT: usize = 13;

impl SelectionProperty {
    /// Position of the property in declaration order.
    pub open spec fn position(self) -> int {
        match self {
            SelectionProperty::Reliability => 0,
            SelectionProperty::PreserveMsgBoundaries => 1,
            SelectionProperty::PerMsgReliability => 2,
            SelectionProperty::PreserveOrder => 3,
            SelectionProperty::ZeroRttMsg => 4,
            SelectionProperty::Multistreaming => 5,
            SelectionProperty::PerMsgChecksumLenSend => 6,
            SelectionProperty::PerMsgChecksumLenRecv => 7,
            SelectionProperty::CongestionControl => 8,
            SelectionProperty::Multipath => 9,
            SelectionProperty::Direction => 10,
            SelectionProperty::RetransmitNotify => 11,
            SelectionProperty::SoftErrorNotify => 12,
        }
    }

    /// The property at a position; `Reliability` stands in for positions
    /// that no property has.
    pub open spec fn at(position: int) -> SelectionProperty {
        if position == 1 {
            SelectionProperty::PreserveMsgBoundaries
        } else if position == 2 {
            SelectionProperty::PerMsgReliability
        } else if position == 3 {
            SelectionProperty::PreserveOrder
        } else if position == 4 {
            SelectionProperty::ZeroRttMsg
        } else if position == 5 {
            SelectionProperty::Multistreaming
        } else if position == 6 {
            SelectionProperty::PerMsgChecksumLenSend
        } else if position == 7 {
            SelectionProperty::PerMsgChecksumLenRecv
        } else if position == 8 {
            SelectionProperty::CongestionControl
        } else if position == 9 {
            SelectionProperty::Multipath
        } else if position == 10 {
            SelectionProperty::Direction
        } else if position == 11 {
            SelectionProperty::RetransmitNotify
        } else if position == 12 {
            SelectionProperty::SoftErrorNotify
        } else {
            SelectionProperty::Reliability
        }
    }

    /// Positions and properties correspond one to one.
    pub proof fn lemma_positions(self)
        ensures
            0 <= self.position() < PROPERTY_COUNT,
            Self::at(self.position()) == self,
    {
    }

    /// Every position below the count belongs to a property.
    pub proof fn lemma_at(position: int)
        requires
            0 <= position < PROPERTY_COUNT,
        ensures
            Self::at(position).position() == position,
    {
    }

    /// Position of the property in declaration order.
    pub fn index(self) -> (i: usize)
        ensures
            i == self.position(),
            i < PROPERTY_COUNT,
    {
        match self {
            SelectionProperty::Reliability => 0,
            SelectionProperty::PreserveMsgBoundaries => 1,
            SelectionProperty::PerMsgReliability => 2,
            SelectionProperty::PreserveOrder => 3,
            SelectionProperty::ZeroRttMsg => 4,
            SelectionProperty::Multistreaming => 5,
            SelectionProperty::PerMsgChecksumLenSend => 6,
            SelectionProperty::PerMsgChecksumLenRecv => 7,
            SelectionProperty::CongestionControl => 8,
            SelectionProperty::Multipath => 9,
            SelectionProperty::Direction => 10,
            SelectionProperty::RetransmitNotify => 11,
            SelectionProperty::SoftErrorNotify => 12,
        }
    }
}

/// What one protocol stack offers: a service level for every property.
#[derive(Debug, Clone, Copy)]
pub struct ProtocolCapabilities {
    pub service_levels: [ServiceLevel; 13],
}

impl View for ProtocolCapabilities {
    type V = Map<SelectionProperty, ServiceLevel>;

    open spec fn view(&self) -> Map<SelectionProperty, ServiceLevel> {
        Map::total(|p: SelectionProperty| self.level(p))
    }
}

impl ProtocolCapabilities {
    /// The service level of a property.
    pub open spec fn level(&self, property: SelectionProperty) -> ServiceLevel {
        self.service_levels@[property.position()]
    }

    /// The service level of a property.
    pub fn get(&self, property: SelectionProperty) -> (level: ServiceLevel)
        ensures
            level == self.level(property),
    {
        self.service_levels[property.index()]
    }
}

/// What TCP offers.
pub open spec fn tcp_level(property: SelectionProperty) -> ServiceLevel {
    match property {
        SelectionProperty::Reliability => ServiceLevel::Provided,
        SelectionProperty::PreserveOrder => ServiceLevel::Provided,
        SelectionProperty::ZeroRttMsg => ServiceLevel::Optional,
        SelectionProperty::CongestionControl => ServiceLevel::Provided,
        SelectionProperty::Multipath => ServiceLevel::Optional,
        SelectionProperty::Direction => ServiceLevel::Provided,
        SelectionProperty::RetransmitNotify => ServiceLevel::Provided,
        SelectionProperty::SoftErrorNotify => ServiceLevel::Provided,
        _ => ServiceLevel::NotProvided,
    }
}

/// What UDP offers.
pub open spec fn udp_level(property: SelectionProperty) -> ServiceLevel {
    match property {
        SelectionProperty::PreserveMsgBoundaries => ServiceLevel::Provided,
        SelectionProperty::ZeroRttMsg => ServiceLevel::Provided,
        SelectionProperty::Direction => ServiceLevel::Provided,
        SelectionProperty::SoftErrorNotify => ServiceLevel::Provided,
        _ => ServiceLevel::NotProvided,
    }
}

/// What QUIC offers.
pub open spec fn quic_level(property: SelectionProperty) -> ServiceLevel {
    match property {
        SelectionProperty::Reliability => ServiceLevel::Provided,
        SelectionProperty::PreserveOrder => ServiceLevel::Provided,
        SelectionProperty::ZeroRttMsg => ServiceLevel::Optional,
        SelectionProperty::Multistreaming => ServiceLevel::Optional,
        SelectionProperty::CongestionControl => ServiceLevel::Provided,
        SelectionProperty::Direction => ServiceLevel::Provided,
        SelectionProperty::SoftErrorNotify => ServiceLevel::Provided,
        _ => ServiceLevel::NotProvided,
    }
}

/// The table of supported protocol stacks: each identifier with what the
/// stack offers, in the order in which ties between equally ranked stacks
/// are broken.
pub open spec fn supported_protocols() -> Seq<(&'static str, Map<SelectionProperty, ServiceLevel>)> {
    seq![
        ("tcp", Map::total(|p: SelectionProperty| tcp_level(p))),
        ("udp", Map::total(|p: SelectionProperty| udp_level(p))),
        ("quic", Map::total(|p: SelectionProperty| quic_level(p))),
    ]
}

/// A table of protocol stacks as a sequence of identifiers with capability maps.
pub open spec fn registry_view(registry: Seq<(&'static str, ProtocolCapabilities)>) -> Seq<
    (&'static str, Map<SelectionProperty, ServiceLevel>),
> {
    registry.map_values(|entry: (&'static str, ProtocolCapabilities)| (entry.0, entry.1@))
}

/// The identifiers of the supported protocol stacks differ from one another.
pub proof fn lemma_supported_protocols_distinct()
    ensures
        forall|i: int, j: int|
            0 <= i < j < supported_protocols().len() ==> supported_protocols()[i].0
                != supported_protocols()[j].0,
{
    reveal_strlit("tcp");
    reveal_strlit("udp");
    reveal_strlit("quic");
    assert("tcp"@.len() == 3 && "udp"@.len() == 3 && "quic"@.len() == 4);
    assert("tcp"@[0] != "udp"@[0]);
}

/// The supported protocol stacks with what each offers.
pub fn get_supported_protocols() -> (registry: Vec<(&'static str, ProtocolCapabilities)>)
    ensures
        registry_view(registry@) == supported_protocols(),
{
    let tcp = ProtocolCapabilities {
        service_levels: [
            ServiceLevel::Provided,
            ServiceLevel::NotProvided,
            ServiceLevel::NotProvided,
            ServiceLevel::Provided,
            ServiceLevel::Optional,
            ServiceLevel::NotProvided,
            ServiceLevel::NotProvided,
            ServiceLevel::NotProvided,
            ServiceLevel::Provided,
            ServiceLevel::Optional,
            ServiceLevel::Provided,
            ServiceLevel::Provided,
            ServiceLevel::Provided,
        ],
    };
    let udp = ProtocolCapabilities {
        service_levels: [
            ServiceLevel::NotProvided,
            ServiceLevel::Provided,
            ServiceLevel::NotProvided,
            ServiceLevel::NotProvided,
            ServiceLevel::Provided,
            ServiceLevel::NotProvided,
            ServiceLevel::NotProvided,
            ServiceLevel::NotProvided,
            ServiceLevel::NotProvided,
            ServiceLevel::NotProvided,
            ServiceLevel::Provided,
            ServiceLevel::NotProvided,
            ServiceLevel::Provided,
        ],
    };
    let quic = ProtocolCapabilities {
        service_levels: [
            ServiceLevel::Provided,
            ServiceLevel::NotProvided,
            ServiceLevel::NotProvided,
            ServiceLevel::Provided,
            ServiceLevel::Optional,
            ServiceLevel::Optional,
            ServiceLevel::NotProvided,
            ServiceLevel::NotProvided,
            ServiceLevel::Provided,
            ServiceLevel::NotProvided,
            ServiceLevel::Provided,
            ServiceLevel::NotProvided,
            ServiceLevel::Provided,
        ],
    };
    let mut registry: Vec<(&'static str, ProtocolCapabilities)> = Vec::new();
    registry.push(("tcp", tcp));
    registry.push(("udp", udp));
    registry.push(("quic", quic));
    proof {
        assert(tcp@ =~= supported_protocols()[0].1);
        assert(udp@ =~= supported_protocols()[1].1);
        assert(quic@ =~= supported_protocols()[2].1);
        assert(registry_view(registry@) =~= supported_protocols());
    }
    registry
}

} // verus!
