//! The names of ICMPv6 message types and the descriptions of their codes.
use vstd::prelude::*;

use crate::network::described;

verus! {
pub enum ICMPv6Types {
    DestUnreachable,
    PacketTooBig,
    TimeExceeded,
    ParameterProblem,
    PrivateExperimentation1,
    PrivateExperimentation2,
    ReservedForErrorExpansion,
    EchoRequest,
    EchoReply,
    MulticastListenerQuery,
    MulticastListenerReport,
    MulticastListenerDone,
    RouterSolicitation,
    RouterAdvertisement,
    NeighborSolicitation,
    NeighborAdvertisement,
    RedirectMessage,
    RouterRenumbering,
    NodeInformationQuery,
    NodeInformationResponse,
    InverseNeighborDiscoverySolicitation,
    InverseNeighborDiscoveryAdvertisement,
    MLDv2Report,
    HomeAgentAddressDiscoveryRequest,
    HomeAgentAddressDiscoveryReply,
    MobilePrefixSolicitation,
    MobilePrefixAdvertisement,
    CertificationPathSolicitation,
    CertificationPathAdvertisement,
    MulticastRouterAdvertisement,
    MulticastRouterSolicitation,
    MulticastRouterTermination,
    RplControlMessage,
    ExtEchoRequest,
    ExtEchoReply,
    PrivateExperimentation3,
    PrivateExperimentation4,
    ReservedForInformationalExpansion,
}

pub enum DestUnreachableCodes {
    NoRouteToDestination,
    CommunicationAdministrativelyProhibited,
    BeyondScopeOfSourceAddress,
    AddressUnreachable,
    PortUnreachable,
    SourceAddressFailedPolicy,
    RejectRouteToDestination,
    ErrorInSourceRoutingHeader,
}

pub enum TimeExceededCodes {
    HopLimitExceededInTransit,
    FragmentReassemblyTimeExceeded,
}

pub enum ParameterProblemCodes {
    ErroneousHeaderField,
    UnrecognizedNextHeader,
    UnrecognizedIpv6Option,
}

pub enum RouterRenumberingCodes {
    Command,
    Result,
    SequenceNumberReset,
}

pub enum NodeInformationQueryCodes {
    Ipv6AddressSubject,
    NameOrNoop,
    Ipv4AddressSubject,
}

pub enum NodeInformationResponseCodes {
    SuccessfulReply,
    ResponderRefuses,
    QueryTypeUnknown,
}

pub enum ExtEchoReplyCodes {
    NoError,
    MalformedQuery,
    NoSuchInterface,
    NoSuchTableEntry,
    MultipleInterfacesSatisfyQuery,
}

/// The name of an ICMPv6 message type; "Unknown" for a type without one.
pub open spec fn spec_name_of_type(icmp_type: u8) -> Seq<char> {
    match icmp_type {
        1 => "Destination Unreachable"@,
        2 => "Packet Too Big"@,
        3 => "Time Exceeded"@,
        4 => "Parameter Problem"@,
        100 => "Private Experimentation"@,
        101 => "Private Experimentation"@,
        127 => "Reserved for Error Expansion"@,
        128 => "Echo Request"@,
        129 => "Echo Reply"@,
        130 => "Multicast Listener Query"@,
        131 => "Multicast Listener Report"@,
        132 => "Multicast Listener Done"@,
        133 => "Router Solicitation"@,
        134 => "Router Advertisement"@,
        135 => "Neighbor Solicitation"@,
        136 => "Neighbor Advertisement"@,
        137 => "Redirect Message"@,
        138 => "Router Renumbering"@,
        139 => "ICMP Node Information Query"@,
        140 => "ICMP Node Information Response"@,
        141 => "Inverse Neighbor Discovery Solicitation"@,
        142 => "Inverse Neighbor Discovery Advertisement"@,
        143 => "MLDv2 Report"@,
        144 => "Home Agent Address Discovery Request"@,
        145 => "Home Agent Address Discovery Reply"@,
        146 => "Mobile Prefix Solicitation"@,
        147 => "Mobile Prefix Advertisement"@,
        148 => "Certification Path Solicitation"@,
        149 => "Certification Path Advertisement"@,
        151 => "Multicast Router Advertisement"@,
        152 => "Multicast Router Solicitation"@,
        153 => "Multicast Router Termination"@,
        155 => "RPL Control Message"@,
        160 => "Extended Echo Request"@,
        161 => "Extended Echo Reply"@,
        200 => "Private Experimentation"@,
        201 => "Private Experimentation"@,
        255 => "Reserved for Informational Expansion"@,
        _ => "Unknown"@,
    }
}

fn name_of_type(icmp_type: u8) -> (r: &'static str)
    ensures
        r@ == spec_name_of_type(icmp_type),
{
    match icmp_type {
        1 => "Destination Unreachable",
        2 => "Packet Too Big",
        3 => "Time Exceeded",
        4 => "Parameter Problem",
        100 => "Private Experimentation",
        101 => "Private Experimentation",
        127 => "Reserved for Error Expansion",
        128 => "Echo Request",
        129 => "Echo Reply",
        130 => "Multicast Listener Query",
        131 => "Multicast Listener Report",
        132 => "Multicast Listener Done",
        133 => "Router Solicitation",
        134 => "Router Advertisement",
        135 => "Neighbor Solicitation",
        136 => "Neighbor Advertisement",
        137 => "Redirect Message",
        138 => "Router Renumbering",
        139 => "ICMP Node Information Query",
        140 => "ICMP Node Information Response",
        141 => "Inverse Neighbor Discovery Solicitation",
        142 => "Inverse Neighbor Discovery Advertisement",
        143 => "MLDv2 Report",
        144 => "Home Agent Address Discovery Request",
        145 => "Home Agent Address Discovery Reply",
        146 => "Mobile Prefix Solicitation",
        147 => "Mobile Prefix Advertisement",
        148 => "Certification Path Solicitation",
        149 => "Certification Path Advertisement",
        151 => "Multicast Router Advertisement",
        152 => "Multicast Router Solicitation",
        153 => "Multicast Router Termination",
        155 => "RPL Control Message",
        160 => "Extended Echo Request",
        161 => "Extended Echo Reply",
        200 => "Private Experimentation",
        201 => "Private Experimentation",
        255 => "Reserved for Informational Expansion",
        _ => "Unknown",
    }
}

/// Each name belongs to its own types, as the IANA registry of ICMPv6 message types
/// assigns them: a type is named "Echo Reply" exactly when it is 129, "Echo Request"
/// exactly when it is 128, and so on; "Private Experimentation" names 100, 101, 200 and
/// 201, and "Unknown" every type that the registry leaves unnamed.
pub proof fn lemma_type_names(t: u8)
    ensures
        spec_name_of_type(t) == "Destination Unreachable"@ <==> t == 1,
        spec_name_of_type(t) == "Packet Too Big"@ <==> t == 2,
        spec_name_of_type(t) == "Time Exceeded"@ <==> t == 3,
        spec_name_of_type(t) == "Parameter Problem"@ <==> t == 4,
        spec_name_of_type(t) == "Private Experimentation"@ <==> t == 100 || t == 101 || t == 200 || t == 201,
        spec_name_of_type(t) == "Reserved for Error Expansion"@ <==> t == 127,
        spec_name_of_type(t) == "Echo Request"@ <==> t == 128,
        spec_name_of_type(t) == "Echo Reply"@ <==> t == 129,
        spec_name_of_type(t) == "Multicast Listener Query"@ <==> t == 130,
        spec_name_of_type(t) == "Multicast Listener Report"@ <==> t == 131,
        spec_name_of_type(t) == "Multicast Listener Done"@ <==> t == 132,
        spec_name_of_type(t) == "Router Solicitation"@ <==> t == 133,
        spec_name_of_type(t) == "Router Advertisement"@ <==> t == 134,
        spec_name_of_type(t) == "Neighbor Solicitation"@ <==> t == 135,
        spec_name_of_type(t) == "Neighbor Advertisement"@ <==> t == 136,
        spec_name_of_type(t) == "Redirect Message"@ <==> t == 137,
        spec_name_of_type(t) == "Router Renumbering"@ <==> t == 138,
        spec_name_of_type(t) == "ICMP Node Information Query"@ <==> t == 139,
        spec_name_of_type(t) == "ICMP Node Information Response"@ <==> t == 140,
        spec_name_of_type(t) == "Inverse Neighbor Discovery Solicitation"@ <==> t == 141,
        spec_name_of_type(t) == "Inverse Neighbor Discovery Advertisement"@ <==> t == 142,
        spec_name_of_type(t) == "MLDv2 Report"@ <==> t == 143,
        spec_name_of_type(t) == "Home Agent Address Discovery Request"@ <==> t == 144,
        spec_name_of_type(t) == "Home Agent Address Discovery Reply"@ <==> t == 145,
        spec_name_of_type(t) == "Mobile Prefix Solicitation"@ <==> t == 146,
        spec_name_of_type(t) == "Mobile Prefix Advertisement"@ <==> t == 147,
        spec_name_of_type(t) == "Certification Path Solicitation"@ <==> t == 148,
        spec_name_of_type(t) == "Certification Path Advertisement"@ <==> t == 149,
        spec_name_of_type(t) == "Multicast Router Advertisement"@ <==> t == 151,
        spec_name_of_type(t) == "Multicast Router Solicitation"@ <==> t == 152,
        spec_name_of_type(t) == "Multicast Router Termination"@ <==> t == 153,
        spec_name_of_type(t) == "RPL Control Message"@ <==> t == 155,
        spec_name_of_type(t) == "Extended Echo Request"@ <==> t == 160,
        spec_name_of_type(t) == "Extended Echo Reply"@ <==> t == 161,
        spec_name_of_type(t) == "Reserved for Informational Expansion"@ <==> t == 255,
        spec_name_of_type(t) == "Unknown"@ <==> !(t == 1 || t == 2 || t == 3 || t == 4 || t == 100 || t == 101 || t == 200 || t == 201 || t == 127 || t == 128 || t == 129 || t == 130 || t == 131 || t == 132 || t == 133 || t == 134 || t == 135 || t == 136 || t == 137 || t == 138 || t == 139 || t == 140 || t == 141 || t == 142 || t == 143 || t == 144 || t == 145 || t == 146 || t == 147 || t == 148 || t == 149 || t == 151 || t == 152 || t == 153 || t == 155 || t == 160 || t == 161 || t == 255),
{
    reveal_strlit("Destination Unreachable");
    reveal_strlit("Packet Too Big");
    reveal_strlit("Time Exceeded");
    reveal_strlit("Parameter Problem");
    reveal_strlit("Private Experimentation");
    reveal_strlit("Reserved for Error Expansion");
    reveal_strlit("Echo Request");
    reveal_strlit("Echo Reply");
    reveal_strlit("Multicast Listener Query");
    reveal_strlit("Multicast Listener Report");
    reveal_strlit("Multicast Listener Done");
    reveal_strlit("Router Solicitation");
    reveal_strlit("Router Advertisement");
    reveal_strlit("Neighbor Solicitation");
    reveal_strlit("Neighbor Advertisement");
    reveal_strlit("Redirect Message");
    reveal_strlit("Router Renumbering");
    reveal_strlit("ICMP Node Information Query");
    reveal_strlit("ICMP Node Information Response");
    reveal_strlit("Inverse Neighbor Discovery Solicitation");
    reveal_strlit("Inverse Neighbor Discovery Advertisement");
    reveal_strlit("MLDv2 Report");
    reveal_strlit("Home Agent Address Discovery Request");
    reveal_strlit("Home Agent Address Discovery Reply");
    reveal_strlit("Mobile Prefix Solicitation");
    reveal_strlit("Mobile Prefix Advertisement");
    reveal_strlit("Certification Path Solicitation");
    reveal_strlit("Certification Path Advertisement");
    reveal_strlit("Multicast Router Advertisement");
    reveal_strlit("Multicast Router Solicitation");
    reveal_strlit("Multicast Router Termination");
    reveal_strlit("RPL Control Message");
    reveal_strlit("Extended Echo Request");
    reveal_strlit("Extended Echo Reply");
    reveal_strlit("Reserved for Informational Expansion");
    reveal_strlit("Unknown");
    assert("Destination Unreachable"@.len() == 23);
    assert("Destination Unreachable"@[0] == 'D');
    assert("Packet Too Big"@.len() == 14);
    assert("Time Exceeded"@.len() == 13);
    assert("Parameter Problem"@.len() == 17);
    assert("Private Experimentation"@.len() == 23);
    assert("Private Experimentation"@[0] == 'P');
    assert("Reserved for Error Expansion"@.len() == 28);
    assert("Reserved for Error Expansion"@[0] == 'R');
    assert("Echo Request"@.len() == 12);
    assert("Echo Request"@[0] == 'E');
    assert("Echo Reply"@.len() == 10);
    assert("Multicast Listener Query"@.len() == 24);
    assert("Multicast Listener Report"@.len() == 25);
    assert("Multicast Listener Done"@.len() == 23);
    assert("Multicast Listener Done"@[0] == 'M');
    assert("Router Solicitation"@.len() == 19);
    assert("Router Solicitation"@[0] == 'R');
    assert("Router Solicitation"@[1] == 'o');
    assert("Router Advertisement"@.len() == 20);
    assert("Neighbor Solicitation"@.len() == 21);
    assert("Neighbor Solicitation"@[0] == 'N');
    assert("Neighbor Advertisement"@.len() == 22);
    assert("Redirect Message"@.len() == 16);
    assert("Router Renumbering"@.len() == 18);
    assert("ICMP Node Information Query"@.len() == 27);
    assert("ICMP Node Information Query"@[0] == 'I');
    assert("ICMP Node Information Response"@.len() == 30);
    assert("ICMP Node Information Response"@[0] == 'I');
    assert("Inverse Neighbor Discovery Solicitation"@.len() == 39);
    assert("Inverse Neighbor Discovery Advertisement"@.len() == 40);
    assert("MLDv2 Report"@.len() == 12);
    assert("MLDv2 Report"@[0] == 'M');
    assert("Home Agent Address Discovery Request"@.len() == 36);
    assert("Home Agent Address Discovery Request"@[0] == 'H');
    assert("Home Agent Address Discovery Reply"@.len() == 34);
    assert("Mobile Prefix Solicitation"@.len() == 26);
    assert("Mobile Prefix Advertisement"@.len() == 27);
    assert("Mobile Prefix Advertisement"@[0] == 'M');
    assert("Certification Path Solicitation"@.len() == 31);
    assert("Certification Path Advertisement"@.len() == 32);
    assert("Multicast Router Advertisement"@.len() == 30);
    assert("Multicast Router Advertisement"@[0] == 'M');
    assert("Multicast Router Solicitation"@.len() == 29);
    assert("Multicast Router Termination"@.len() == 28);
    assert("Multicast Router Termination"@[0] == 'M');
    assert("RPL Control Message"@.len() == 19);
    assert("RPL Control Message"@[0] == 'R');
    assert("RPL Control Message"@[1] == 'P');
    assert("Extended Echo Request"@.len() == 21);
    assert("Extended Echo Request"@[0] == 'E');
    assert("Extended Echo Reply"@.len() == 19);
    assert("Extended Echo Reply"@[0] == 'E');
    assert("Reserved for Informational Expansion"@.len() == 36);
    assert("Reserved for Informational Expansion"@[0] == 'R');
    assert("Unknown"@.len() == 7);
}

pub open spec fn spec_dest_unreachable_description(code: u8) -> Option<Seq<char>> {
    match code {
        0 => Some("No route to destination."@),
        1 => Some("Communication with destination administratively prohibited."@),
        2 => Some("Beyond scope of source address."@),
        3 => Some("Address unreachable."@),
        4 => Some("Port unreachable."@),
        5 => Some("Source address failed ingress/egress policy."@),
        6 => Some("Reject route to destination."@),
        7 => Some("Error in Source Routing Header."@),
        _ => None,
    }
}

/// Each Destination Unreachable description belongs to its own code: the description of code `c` is the
/// one listed for `c`, and no other code has it; codes that are not listed have none.
pub proof fn lemma_dest_unreachable_codes(c: u8)
    ensures
        spec_dest_unreachable_description(c) == Some("No route to destination."@) <==> c == 0,
        spec_dest_unreachable_description(c) == Some("Communication with destination administratively prohibited."@) <==> c == 1,
        spec_dest_unreachable_description(c) == Some("Beyond scope of source address."@) <==> c == 2,
        spec_dest_unreachable_description(c) == Some("Address unreachable."@) <==> c == 3,
        spec_dest_unreachable_description(c) == Some("Port unreachable."@) <==> c == 4,
        spec_dest_unreachable_description(c) == Some("Source address failed ingress/egress policy."@) <==> c == 5,
        spec_dest_unreachable_description(c) == Some("Reject route to destination."@) <==> c == 6,
        spec_dest_unreachable_description(c) == Some("Error in Source Routing Header."@) <==> c == 7,
        spec_dest_unreachable_description(c) is None <==> !(c == 0 || c == 1 || c == 2 || c == 3 || c == 4 || c == 5 || c == 6 || c == 7),
{
    reveal_strlit("No route to destination.");
    reveal_strlit("Communication with destination administratively prohibited.");
    reveal_strlit("Beyond scope of source address.");
    reveal_strlit("Address unreachable.");
    reveal_strlit("Port unreachable.");
    reveal_strlit("Source address failed ingress/egress policy.");
    reveal_strlit("Reject route to destination.");
    reveal_strlit("Error in Source Routing Header.");
    assert("No route to destination."@.len() == 24);
    assert("Communication with destination administratively prohibited."@.len() == 59);
    assert("Beyond scope of source address."@.len() == 31);
    assert("Beyond scope of source address."@[0] == 'B');
    assert("Address unreachable."@.len() == 20);
    assert("Port unreachable."@.len() == 17);
    assert("Source address failed ingress/egress policy."@.len() == 44);
    assert("Reject route to destination."@.len() == 28);
    assert("Error in Source Routing Header."@.len() == 31);
    assert("Error in Source Routing Header."@[0] == 'E');
}

fn dest_unreachable_description(code: u8) -> (r: Option<&'static str>)
    ensures
        described(r) == spec_dest_unreachable_description(code),
{
    Some(
        match code {
            0 => "No route to destination.",
            1 => "Communication with destination administratively prohibited.",
            2 => "Beyond scope of source address.",
            3 => "Address unreachable.",
            4 => "Port unreachable.",
            5 => "Source address failed ingress/egress policy.",
            6 => "Reject route to destination.",
            7 => "Error in Source Routing Header.",
            _ => return None,
        },
    )
}

pub open spec fn spec_time_exceeded_description(code: u8) -> Option<Seq<char>> {
    match code {
        0 => Some("Hop limit exceeded in transit."@),
        1 => Some("Fragment reassembly time exceeded."@),
        _ => None,
    }
}

/// Each Time Exceeded description belongs to its own code: the description of code `c` is the
/// one listed for `c`, and no other code has it; codes that are not listed have none.
pub proof fn lemma_time_exceeded_codes(c: u8)
    ensures
        spec_time_exceeded_description(c) == Some("Hop limit exceeded in transit."@) <==> c == 0,
        spec_time_exceeded_description(c) == Some("Fragment reassembly time exceeded."@) <==> c == 1,
        spec_time_exceeded_description(c) is None <==> !(c == 0 || c == 1),
{
    reveal_strlit("Hop limit exceeded in transit.");
    reveal_strlit("Fragment reassembly time exceeded.");
    assert("Hop limit exceeded in transit."@.len() == 30);
    assert("Fragment reassembly time exceeded."@.len() == 34);
}

fn time_exceeded_description(code: u8) -> (r: Option<&'static str>)
    ensures
        described(r) == spec_time_exceeded_description(code),
{
    Some(
        match code {
            0 => "Hop limit exceeded in transit.",
            1 => "Fragment reassembly time exceeded.",
            _ => return None,
        },
    )
}

pub open spec fn spec_parameter_problem_description(code: u8) -> Option<Seq<char>> {
    match code {
        0 => Some("Erroneous header field encountered."@),
        1 => Some("Unrecognized Next Header type encountered."@),
        2 => Some("Unrecognized IPv6 option encountered."@),
        _ => None,
    }
}

/// Each Parameter Problem description belongs to its own code: the description of code `c` is the
/// one listed for `c`, and no other code has it; codes that are not listed have none.
pub proof fn lemma_parameter_problem_codes(c: u8)
    ensures
        spec_parameter_problem_description(c) == Some("Erroneous header field encountered."@) <==> c == 0,
        spec_parameter_problem_description(c) == Some("Unrecognized Next Header type encountered."@) <==> c == 1,
        spec_parameter_problem_description(c) == Some("Unrecognized IPv6 option encountered."@) <==> c == 2,
        spec_parameter_problem_description(c) is None <==> !(c == 0 || c == 1 || c == 2),
{
    reveal_strlit("Erroneous header field encountered.");
    reveal_strlit("Unrecognized Next Header type encountered.");
    reveal_strlit("Unrecognized IPv6 option encountered.");
    assert("Erroneous header field encountered."@.len() == 35);
    assert("Unrecognized Next Header type encountered."@.len() == 42);
    assert("Unrecognized IPv6 option encountered."@.len() == 37);
}

fn parameter_problem_description(code: u8) -> (r: Option<&'static str>)
    ensures
        described(r) == spec_parameter_problem_description(code),
{
    Some(
        match code {
            0 => "Erroneous header field encountered.",
            1 => "Unrecognized Next Header type encountered.",
            2 => "Unrecognized IPv6 option encountered.",
            _ => return None,
        },
    )
}

pub open spec fn spec_router_renumbering_description(code: u8) -> Option<Seq<char>> {
    match code {
        0 => Some("Router renumbering command."@),
        1 => Some("Router renumbering result."@),
        255 => Some("Sequence number reset."@),
        _ => None,
    }
}

/// Each Router Renumbering description belongs to its own code: the description of code `c` is the
/// one listed for `c`, and no other code has it; codes that are not listed have none.
pub proof fn lemma_router_renumbering_codes(c: u8)
    ensures
        spec_router_renumbering_description(c) == Some("Router renumbering command."@) <==> c == 0,
        spec_router_renumbering_description(c) == Some("Router renumbering result."@) <==> c == 1,
        spec_router_renumbering_description(c) == Some("Sequence number reset."@) <==> c == 255,
        spec_router_renumbering_description(c) is None <==> !(c == 0 || c == 1 || c == 255),
{
    reveal_strlit("Router renumbering command.");
    reveal_strlit("Router renumbering result.");
    reveal_strlit("Sequence number reset.");
    assert("Router renumbering command."@.len() == 27);
    assert("Router renumbering result."@.len() == 26);
    assert("Sequence number reset."@.len() == 22);
}

fn router_renumbering_description(code: u8) -> (r: Option<&'static str>)
    ensures
        described(r) == spec_router_renumbering_description(code),
{
    Some(
        match code {
            0 => "Router renumbering command.",
            1 => "Router renumbering result.",
            255 => "Sequence number reset.",
            _ => return None,
        },
    )
}

pub open spec fn spec_node_information_query_description(code: u8) -> Option<Seq<char>> {
    match code {
        0 => Some("The Data field contains an IPv6 address which is the subject of this query."@),
        1 => Some("The Data field contains a name which is the subject of this query, or is empty (NOOP)."@),
        2 => Some("The Data field contains an IPv4 address which is the subject of this query."@),
        _ => None,
    }
}

/// Each Node Information Query description belongs to its own code: the description of code `c` is the
/// one listed for `c`, and no other code has it; codes that are not listed have none.
pub proof fn lemma_node_information_query_codes(c: u8)
    ensures
        spec_node_information_query_description(c) == Some("The Data field contains an IPv6 address which is the subject of this query."@) <==> c == 0,
        spec_node_information_query_description(c) == Some("The Data field contains a name which is the subject of this query, or is empty (NOOP)."@) <==> c == 1,
        spec_node_information_query_description(c) == Some("The Data field contains an IPv4 address which is the subject of this query."@) <==> c == 2,
        spec_node_information_query_description(c) is None <==> !(c == 0 || c == 1 || c == 2),
{
    reveal_strlit("The Data field contains an IPv6 address which is the subject of this query.");
    reveal_strlit("The Data field contains a name which is the subject of this query, or is empty (NOOP).");
    reveal_strlit("The Data field contains an IPv4 address which is the subject of this query.");
    assert("The Data field contains an IPv6 address which is the subject of this query."@.len() == 75);
    assert("The Data field contains an IPv6 address which is the subject of this query."@[30] == '6');
    assert("The Data field contains a name which is the subject of this query, or is empty (NOOP)."@.len() == 86);
    assert("The Data field contains an IPv4 address which is the subject of this query."@.len() == 75);
    assert("The Data field contains an IPv4 address which is the subject of this query."@[30] == '4');
}

fn node_information_query_description(code: u8) -> (r: Option<&'static str>)
    ensures
        described(r) == spec_node_information_query_description(code),
{
    Some(
        match code {
            0 => "The Data field contains an IPv6 address which is the subject of this query.",
            1 => "The Data field contains a name which is the subject of this query, or is empty (NOOP).",
            2 => "The Data field contains an IPv4 address which is the subject of this query.",
            _ => return None,
        },
    )
}

pub open spec fn spec_node_information_response_description(code: u8) -> Option<Seq<char>> {
    match code {
        0 => Some("A successful reply."@),
        1 => Some("The responder refuses to supply the answer."@),
        2 => Some("The query type of the Query is unknown to the responder."@),
        _ => None,
    }
}

/// Each Node Information Response description belongs to its own code: the description of code `c` is the
/// one listed for `c`, and no other code has it; codes that are not listed have none.
pub proof fn lemma_node_information_response_codes(c: u8)
    ensures
        spec_node_information_response_description(c) == Some("A successful reply."@) <==> c == 0,
        spec_node_information_response_description(c) == Some("The responder refuses to supply the answer."@) <==> c == 1,
        spec_node_information_response_description(c) == Some("The query type of the Query is unknown to the responder."@) <==> c == 2,
        spec_node_information_response_description(c) is None <==> !(c == 0 || c == 1 || c == 2),
{
    reveal_strlit("A successful reply.");
    reveal_strlit("The responder refuses to supply the answer.");
    reveal_strlit("The query type of the Query is unknown to the responder.");
    assert("A successful reply."@.len() == 19);
    assert("The responder refuses to supply the answer."@.len() == 43);
    assert("The query type of the Query is unknown to the responder."@.len() == 56);
}

fn node_information_response_description(code: u8) -> (r: Option<&'static str>)
    ensures
        described(r) == spec_node_information_response_description(code),
{
    Some(
        match code {
            0 => "A successful reply.",
            1 => "The responder refuses to supply the answer.",
            2 => "The query type of the Query is unknown to the responder.",
            _ => return None,
        },
    )
}

pub open spec fn spec_ext_echo_reply_description(code: u8) -> Option<Seq<char>> {
    match code {
        0 => Some("No Error"@),
        1 => Some("Malformed Query"@),
        2 => Some("No Such Interface"@),
        3 => Some("No Such Table Entry"@),
        4 => Some("Multiple Interfaces Satisfy Query"@),
        _ => None,
    }
}

/// Each Extended Echo Reply description belongs to its own code: the description of code `c` is the
/// one listed for `c`, and no other code has it; codes that are not listed have none.
pub proof fn lemma_ext_echo_reply_codes(c: u8)
    ensures
        spec_ext_echo_reply_description(c) == Some("No Error"@) <==> c == 0,
        spec_ext_echo_reply_description(c) == Some("Malformed Query"@) <==> c == 1,
        spec_ext_echo_reply_description(c) == Some("No Such Interface"@) <==> c == 2,
        spec_ext_echo_reply_description(c) == Some("No Such Table Entry"@) <==> c == 3,
        spec_ext_echo_reply_description(c) == Some("Multiple Interfaces Satisfy Query"@) <==> c == 4,
        spec_ext_echo_reply_description(c) is None <==> !(c == 0 || c == 1 || c == 2 || c == 3 || c == 4),
{
    reveal_strlit("No Error");
    reveal_strlit("Malformed Query");
    reveal_strlit("No Such Interface");
    reveal_strlit("No Such Table Entry");
    reveal_strlit("Multiple Interfaces Satisfy Query");
    assert("No Error"@.len() == 8);
    assert("Malformed Query"@.len() == 15);
    assert("No Such Interface"@.len() == 17);
    assert("No Such Table Entry"@.len() == 19);
    assert("Multiple Interfaces Satisfy Query"@.len() == 33);
}

fn ext_echo_reply_description(code: u8) -> (r: Option<&'static str>)
    ensures
        described(r) == spec_ext_echo_reply_description(code),
{
    Some(
        match code {
            0 => "No Error",
            1 => "Malformed Query",
            2 => "No Such Interface",
            3 => "No Such Table Entry",
            4 => "Multiple Interfaces Satisfy Query",
            _ => return None,
        },
    )
}

/// The description of code `code` of an ICMPv6 message of type `icmp_type`, for the
/// types whose codes have descriptions.
pub open spec fn spec_code_description(icmp_type: u8, code: u8) -> Option<Seq<char>> {
    match icmp_type {
        1 => spec_dest_unreachable_description(code),
        3 => spec_time_exceeded_description(code),
        4 => spec_parameter_problem_description(code),
        138 => spec_router_renumbering_description(code),
        139 => spec_node_information_query_description(code),
        140 => spec_node_information_response_description(code),
        161 => spec_ext_echo_reply_description(code),
        _ => None,
    }
}

/// Which codes are described: Destination Unreachable (1) has eight
/// described codes from 0, Time Exceeded (3) two, Parameter Problem (4) three, Router
/// Renumbering (138) codes 0, 1 and 255, the Node Information Query (139) and Response
/// (140) three each, and Extended Echo Reply (161) five; no other type has
/// described codes.
pub proof fn lemma_described_codes(t: u8, c: u8)
    ensures
        spec_code_description(t, c) is Some <==> (t == 1 && c <= 7) || (t == 3 && c <= 1) || (t == 4 && c <= 2) || (t == 138 && (c <= 1 || c == 255)) || (t == 139 && c <= 2) || (t == 140 && c <= 2) || (t == 161 && c <= 4),
{
}

/// The type's name, followed by ": " and the code's description where it has one.
pub open spec fn spec_describe(icmp_type: u8, code: u8) -> Seq<char> {
    match spec_code_description(icmp_type, code) {
        Some(description) => spec_name_of_type(icmp_type) + ": "@ + description,
        None => spec_name_of_type(icmp_type),
    }
}

/// A description starts with the type's name; where the code is described, a colon, a
/// space and the code's description follow, and otherwise nothing does.
pub proof fn lemma_describe_layout(t: u8, c: u8)
    ensures
        ({
            let d = spec_describe(t, c);
            let name = spec_name_of_type(t);
            &&& d.take(name.len() as int) == name
            &&& spec_code_description(t, c) is None ==> d == name
            &&& spec_code_description(t, c) matches Some(cd) ==> {
                &&& d.len() == name.len() + 2 + cd.len()
                &&& d[name.len() as int] == ':'
                &&& d[name.len() + 1int] == ' '
                &&& d.skip(name.len() + 2int) == cd
            }
        }),
{
    reveal_strlit(": ");
    let d = spec_describe(t, c);
    let name = spec_name_of_type(t);
    if let Some(cd) = spec_code_description(t, c) {
        assert(": "@.len() == 2 && ": "@[0] == ':' && ": "@[1] == ' ');
        assert(d.take(name.len() as int) =~= name);
        assert(d.skip(name.len() + 2int) =~= cd);
    } else {
        assert(d.take(name.len() as int) =~= name);
    }
}

pub fn describe(icmp_type: u8, code: u8) -> (r: String)
    ensures
        r@ == spec_describe(icmp_type, code),
{
    let name = name_of_type(icmp_type);

    let code_description = match icmp_type {
        1 => dest_unreachable_description(code),
        3 => time_exceeded_description(code),
        4 => parameter_problem_description(code),
        138 => router_renumbering_description(code),
        139 => node_information_query_description(code),
        140 => node_information_response_description(code),
        161 => ext_echo_reply_description(code),
        _ => None,
    };

    match code_description {
        Some(description) => {
            let mut s = String::from_str(name);
            s.append(": ");
            s.append(description);
            s
        },
        None => String::from_str(name),
    }
}

} // verus!
