use rs_taps::error::TapsError;
use rs_taps::framer::HttpClientFramer;
use rs_taps::http_codec::{HttpRequest, HttpResponse};
use rs_taps::preconnection::Preconnection;
use rs_taps::ranking::{evaluate, rank_protocols};
use rs_taps::selection_properties::{
    get_supported_protocols, PreferenceLevel, ProtocolCapabilities, SelectionProperty,
    ServiceLevel, PROPERTY_COUNT,
};
use rs_taps::transport_properties::TransportProperties;

const ALL_PROPERTIES: [SelectionProperty; 13] = [
    SelectionProperty::Reliability,
    SelectionProperty::PreserveMsgBoundaries,
    SelectionProperty::PerMsgReliability,
    SelectionProperty::PreserveOrder,
    SelectionProperty::ZeroRttMsg,
    SelectionProperty::Multistreaming,
    SelectionProperty::PerMsgChecksumLenSend,
    SelectionProperty::PerMsgChecksumLenRecv,
    SelectionProperty::CongestionControl,
    SelectionProperty::Multipath,
    SelectionProperty::Direction,
    SelectionProperty::RetransmitNotify,
    SelectionProperty::SoftErrorNotify,
];

fn all_ignored() -> TransportProperties {
    let mut properties = TransportProperties::default();
    for property in ALL_PROPERTIES {
        properties.ignore(property);
    }
    properties
}

fn capabilities_of(name: &str) -> ProtocolCapabilities {
    for (protocol, capabilities) in get_supported_protocols() {
        if protocol == name {
            return capabilities;
        }
    }
    panic!("no such protocol: {}", name);
}

fn preconnection_with(
    properties: Option<TransportProperties>,
    framer: &HttpClientFramer,
) -> Preconnection<'_, HttpRequest, HttpResponse, HttpClientFramer> {
    Preconnection::new(None, None, properties, framer)
}

#[test]
fn property_positions_follow_declaration_order() {
    assert_eq!(PROPERTY_COUNT, 13);
    for (position, property) in ALL_PROPERTIES.iter().enumerate() {
        assert_eq!(property.index(), position);
    }
}

#[test]
fn registry_lists_tcp_udp_quic_in_order() {
    let registry = get_supported_protocols();
    let names: Vec<&str> = registry.iter().map(|entry| entry.0).collect();
    assert_eq!(names, vec!["tcp", "udp", "quic"]);
}

#[test]
fn registry_holds_the_capability_table() {
    let provided = ServiceLevel::Provided;
    let optional = ServiceLevel::Optional;
    let absent = ServiceLevel::NotProvided;
    let table = [
        (SelectionProperty::Reliability, provided, absent, provided),
        (SelectionProperty::PreserveMsgBoundaries, absent, provided, absent),
        (SelectionProperty::PerMsgReliability, absent, absent, absent),
        (SelectionProperty::PreserveOrder, provided, absent, provided),
        (SelectionProperty::ZeroRttMsg, optional, provided, optional),
        (SelectionProperty::Multistreaming, absent, absent, optional),
        (SelectionProperty::PerMsgChecksumLenSend, absent, absent, absent),
        (SelectionProperty::PerMsgChecksumLenRecv, absent, absent, absent),
        (SelectionProperty::CongestionControl, provided, absent, provided),
        (SelectionProperty::Multipath, optional, absent, absent),
        (SelectionProperty::Direction, provided, provided, provided),
        (SelectionProperty::RetransmitNotify, provided, absent, absent),
        (SelectionProperty::SoftErrorNotify, provided, provided, provided),
    ];
    let tcp = capabilities_of("tcp");
    let udp = capabilities_of("udp");
    let quic = capabilities_of("quic");
    for (property, in_tcp, in_udp, in_quic) in table {
        assert_eq!(tcp.get(property), in_tcp, "tcp {:?}", property);
        assert_eq!(udp.get(property), in_udp, "udp {:?}", property);
        assert_eq!(quic.get(property), in_quic, "quic {:?}", property);
    }
}

#[test]
fn default_profile_matches_the_table() {
    let properties = TransportProperties::default();
    let expected = [
        (SelectionProperty::Reliability, PreferenceLevel::Require),
        (SelectionProperty::PreserveOrder, PreferenceLevel::Require),
        (SelectionProperty::CongestionControl, PreferenceLevel::Require),
        (SelectionProperty::PreserveMsgBoundaries, PreferenceLevel::Prefer),
        (SelectionProperty::ZeroRttMsg, PreferenceLevel::Prefer),
        (SelectionProperty::Multistreaming, PreferenceLevel::Prefer),
        (SelectionProperty::Multipath, PreferenceLevel::Prefer),
        (SelectionProperty::PerMsgReliability, PreferenceLevel::Ignore),
        (SelectionProperty::PerMsgChecksumLenSend, PreferenceLevel::Ignore),
        (SelectionProperty::PerMsgChecksumLenRecv, PreferenceLevel::Ignore),
        (SelectionProperty::Direction, PreferenceLevel::Ignore),
        (SelectionProperty::RetransmitNotify, PreferenceLevel::Ignore),
        (SelectionProperty::SoftErrorNotify, PreferenceLevel::Ignore),
    ];
    for (property, level) in expected {
        assert_eq!(properties.get(property), level, "{:?}", property);
    }
}

#[test]
fn add_changes_one_property_only() {
    let mut properties = TransportProperties::default();
    properties.add(SelectionProperty::Direction, PreferenceLevel::Prohibit);
    assert_eq!(properties.get(SelectionProperty::Direction), PreferenceLevel::Prohibit);
    let unchanged = TransportProperties::default();
    for property in ALL_PROPERTIES {
        if property != SelectionProperty::Direction {
            assert_eq!(properties.get(property), unchanged.get(property));
        }
    }
}

#[test]
fn shorthand_setters_set_their_level() {
    let mut properties = TransportProperties::default();
    properties.require(SelectionProperty::Multipath);
    assert_eq!(properties.get(SelectionProperty::Multipath), PreferenceLevel::Require);
    properties.prefer(SelectionProperty::Multipath);
    assert_eq!(properties.get(SelectionProperty::Multipath), PreferenceLevel::Prefer);
    properties.ignore(SelectionProperty::Multipath);
    assert_eq!(properties.get(SelectionProperty::Multipath), PreferenceLevel::Ignore);
    properties.avoid(SelectionProperty::Multipath);
    assert_eq!(properties.get(SelectionProperty::Multipath), PreferenceLevel::Avoid);
    properties.prohibit(SelectionProperty::Multipath);
    assert_eq!(properties.get(SelectionProperty::Multipath), PreferenceLevel::Prohibit);
}

#[test]
fn transport_properties_are_copied_by_value() {
    let original = TransportProperties::default();
    let mut copy = original;
    copy.prohibit(SelectionProperty::Reliability);
    assert_eq!(original.get(SelectionProperty::Reliability), PreferenceLevel::Require);
    assert_eq!(copy.get(SelectionProperty::Reliability), PreferenceLevel::Prohibit);
}

#[test]
fn default_profile_ranks_tcp_and_quic_at_two() {
    let ranks = rank_protocols(&TransportProperties::default(), &get_supported_protocols());
    assert_eq!(ranks, vec![("tcp", 2u8), ("quic", 2u8)]);
}

#[test]
fn requiring_reliability_eliminates_udp() {
    let mut properties = all_ignored();
    properties.require(SelectionProperty::Reliability);
    let ranks = rank_protocols(&properties, &get_supported_protocols());
    assert_eq!(ranks, vec![("tcp", 0u8), ("quic", 0u8)]);
}

#[test]
fn prohibiting_an_offered_property_eliminates_the_stack() {
    let mut properties = all_ignored();
    properties.prohibit(SelectionProperty::Multistreaming);
    let ranks = rank_protocols(&properties, &get_supported_protocols());
    assert_eq!(ranks, vec![("tcp", 0u8), ("udp", 0u8)]);
}

#[test]
fn prefer_counts_provided_and_optional() {
    let mut properties = all_ignored();
    properties.prefer(SelectionProperty::ZeroRttMsg);
    properties.prefer(SelectionProperty::PerMsgReliability);
    let ranks = rank_protocols(&properties, &get_supported_protocols());
    assert_eq!(ranks, vec![("tcp", 1u8), ("udp", 1u8), ("quic", 1u8)]);
}

#[test]
fn avoid_counts_what_is_not_provided() {
    let mut properties = all_ignored();
    properties.avoid(SelectionProperty::Reliability);
    properties.avoid(SelectionProperty::Multipath);
    let ranks = rank_protocols(&properties, &get_supported_protocols());
    assert_eq!(ranks, vec![("tcp", 0u8), ("udp", 2u8), ("quic", 1u8)]);
}

#[test]
fn ignore_has_no_effect() {
    let ranks = rank_protocols(&all_ignored(), &get_supported_protocols());
    assert_eq!(ranks, vec![("tcp", 0u8), ("udp", 0u8), ("quic", 0u8)]);
}

#[test]
fn evaluate_gives_none_for_an_excluded_stack() {
    let properties = TransportProperties::default();
    assert_eq!(evaluate(&properties, &capabilities_of("udp")), None);
    assert_eq!(evaluate(&properties, &capabilities_of("tcp")), Some(2));
}

#[test]
fn survivors_lack_nothing_required_and_offer_nothing_prohibited() {
    let levels = [
        PreferenceLevel::Require,
        PreferenceLevel::Prefer,
        PreferenceLevel::Ignore,
        PreferenceLevel::Avoid,
        PreferenceLevel::Prohibit,
    ];
    let registry = get_supported_protocols();
    for first in ALL_PROPERTIES {
        for second in ALL_PROPERTIES {
            for first_level in levels {
                for second_level in levels {
                    let mut properties = all_ignored();
                    properties.add(first, first_level);
                    properties.add(second, second_level);
                    for (name, _) in rank_protocols(&properties, &registry) {
                        let capabilities = capabilities_of(name);
                        for property in ALL_PROPERTIES {
                            let service = capabilities.get(property);
                            match properties.get(property) {
                                PreferenceLevel::Require => {
                                    assert_ne!(service, ServiceLevel::NotProvided)
                                }
                                PreferenceLevel::Prohibit => {
                                    assert_eq!(service, ServiceLevel::NotProvided)
                                }
                                _ => {}
                            }
                        }
                    }
                }
            }
        }
    }
}

#[test]
fn preferring_an_offered_property_does_not_lower_the_rank() {
    let base = all_ignored();
    for (_, capabilities) in get_supported_protocols() {
        for property in ALL_PROPERTIES {
            if capabilities.get(property) == ServiceLevel::NotProvided {
                continue;
            }
            let before = evaluate(&base, &capabilities).unwrap();
            let mut preferred = base;
            preferred.prefer(property);
            assert!(evaluate(&preferred, &capabilities).unwrap() >= before);
            assert_eq!(evaluate(&preferred, &capabilities).unwrap(), before + 1);
        }
    }
}

#[test]
fn avoiding_an_offered_property_does_not_raise_the_rank() {
    let mut base = all_ignored();
    base.prefer(SelectionProperty::Direction);
    for (_, capabilities) in get_supported_protocols() {
        let before = evaluate(&base, &capabilities).unwrap();
        assert_eq!(before, 1);
        let mut avoiding = base;
        avoiding.avoid(SelectionProperty::Direction);
        assert!(evaluate(&avoiding, &capabilities).unwrap() <= before);
        assert_eq!(evaluate(&avoiding, &capabilities).unwrap(), 0);
    }
}

#[test]
fn ranks_of_a_preconnection_use_its_properties() {
    let framer = HttpClientFramer;
    let mut properties = all_ignored();
    properties.prefer(SelectionProperty::Multistreaming);
    let ranks = preconnection_with(Some(properties), &framer)
        .calculate_candidate_protocol_ranks()
        .unwrap();
    assert_eq!(ranks, vec![("tcp", 0u8), ("udp", 0u8), ("quic", 1u8)]);
}

#[test]
fn ranks_of_a_preconnection_without_properties_use_the_default_profile() {
    let framer = HttpClientFramer;
    let ranks = preconnection_with(None, &framer).calculate_candidate_protocol_ranks().unwrap();
    assert_eq!(ranks, vec![("tcp", 2u8), ("quic", 2u8)]);
}

#[test]
fn no_compatible_protocol_stack() {
    let framer = HttpClientFramer;
    let mut properties = TransportProperties::default();
    properties.require(SelectionProperty::PreserveMsgBoundaries);
    let outcome = preconnection_with(Some(properties), &framer).calculate_candidate_protocol_ranks();
    assert!(matches!(outcome, Err(TapsError::NoCompatibleProtocolStacks)));
}
