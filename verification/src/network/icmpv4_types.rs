//! The names of ICMP message types and the descriptions of their codes.
use vstd::prelude::*;

use crate::network::described;

verus! {

pub enum ICMPTypes {
    EchoReply,
    DestUnreachable,
    SourceQuench,
    Redirect,
    EchoRequest,
    RouterAdvertisement,
    RouterSolicitation,
    TimeExceeded,
    BadIPHeader,
    Timestamp,
    TimestampReply,
    Traceroute,
    ExtEchoRequest,
    ExtEchoReply,
}

pub enum DestUnreachableCodes {
    NetworkUnreachable,
    HostUnreachable,
    ProtocolUnreachable,
    PortUnreachable,
    FragmentationNeededAndDFSet,
    SourceRouteFailed,
    DestinationNetworkUnknown,
    DestinationHostUnknown,
    SourceHostIsolated,
    NetworkAdministrativelyProhibited,
    HostAdministrativelyProhibited,
    NetworkUnreachableForTos,
    HostUnreachableForTos,
    CommunicationAdministrativelyProhibited,
    HostPrecedenceViolation,
    PrecedenceCutoff,
}

pub enum RedirectCodes {
    Network,
    Host,
    TosAndNetwork,
    TosAndHost,
}

pub enum BadIPHeaderCodes {
    PointerIndicatesError,
    MissingRequiredOption,
    BadLength,
}

pub enum ExtEchoReplyCodes {
    NoError,
    MalformedQuery,
    NoSuchInterface,
    NoSuchTableEntry,
    MultipleInterfacesSatisfyQuery,
}

/// The name of an ICMP message type; "Unknown" for a type without one.
pub open spec fn spec_name_of_type(icmp_type: u8) -> Seq<char> {
    match icmp_type {
        0 => "Echo Reply"@,
        3 => "Destination Unreachable"@,
        4 => "Source Quench (deprecated)"@,
        5 => "Redirect"@,
        8 => "Echo Request"@,
        9 => "Router Advertisement"@,
        10 => "Router Solicitation"@,
        11 => "Time Exceeded"@,
        12 => "Parameter Problem: Bad IP Header"@,
        13 => "Timestamp"@,
        14 => "Timestamp Reply"@,
        30 => "Traceroute (deprecated)"@,
        42 => "Extended Echo Request"@,
        43 => "Extended Echo Reply"@,
        _ => "Unknown"@,
    }
}

fn name_of_type(icmp_type: u8) -> (r: &'static str)
    ensures
        r@ == spec_name_of_type(icmp_type),
{
    match icmp_type {
        0 => "Echo Reply",
        3 => "Destination Unreachable",
        4 => "Source Quench (deprecated)",
        5 => "Redirect",
        8 => "Echo Request",
        9 => "Router Advertisement",
        10 => "Router Solicitation",
        11 => "Time Exceeded",
        12 => "Parameter Problem: Bad IP Header",
        13 => "Timestamp",
        14 => "Timestamp Reply",
        30 => "Traceroute (deprecated)",
        42 => "Extended Echo Request",
        43 => "Extended Echo Reply",
        _ => "Unknown",
    }
}

/// Each name belongs to its own type, as the IANA registry of ICMP message types assigns
/// them: a type is named "Echo Reply" exactly when it is 0, "Echo Request" exactly when
/// it is 8, and so on, and "Unknown" every type that the registry leaves unnamed here.
pub proof fn lemma_type_names(t: u8)
    ensures
        spec_name_of_type(t) == "Echo Reply"@ <==> t == 0,
        spec_name_of_type(t) == "Destination Unreachable"@ <==> t == 3,
        spec_name_of_type(t) == "Source Quench (deprecated)"@ <==> t == 4,
        spec_name_of_type(t) == "Redirect"@ <==> t == 5,
        spec_name_of_type(t) == "Echo Request"@ <==> t == 8,
        spec_name_of_type(t) == "Router Advertisement"@ <==> t == 9,
        spec_name_of_type(t) == "Router Solicitation"@ <==> t == 10,
        spec_name_of_type(t) == "Time Exceeded"@ <==> t == 11,
        spec_name_of_type(t) == "Parameter Problem: Bad IP Header"@ <==> t == 12,
        spec_name_of_type(t) == "Timestamp"@ <==> t == 13,
        spec_name_of_type(t) == "Timestamp Reply"@ <==> t == 14,
        spec_name_of_type(t) == "Traceroute (deprecated)"@ <==> t == 30,
        spec_name_of_type(t) == "Extended Echo Request"@ <==> t == 42,
        spec_name_of_type(t) == "Extended Echo Reply"@ <==> t == 43,
        spec_name_of_type(t) == "Unknown"@ <==> !(t == 0 || t == 3 || t == 4 || t == 5 || t == 8 || t == 9 || t == 10 || t == 11 || t == 12 || t == 13 || t == 14 || t == 30 || t == 42 || t == 43),
{
    reveal_strlit("Echo Reply");
    reveal_strlit("Destination Unreachable");
    reveal_strlit("Source Quench (deprecated)");
    reveal_strlit("Redirect");
    reveal_strlit("Echo Request");
    reveal_strlit("Router Advertisement");
    reveal_strlit("Router Solicitation");
    reveal_strlit("Time Exceeded");
    reveal_strlit("Parameter Problem: Bad IP Header");
    reveal_strlit("Timestamp");
    reveal_strlit("Timestamp Reply");
    reveal_strlit("Traceroute (deprecated)");
    reveal_strlit("Extended Echo Request");
    reveal_strlit("Extended Echo Reply");
    reveal_strlit("Unknown");
    assert("Echo Reply"@.len() == 10);
    assert("Destination Unreachable"@.len() == 23);
    assert("Destination Unreachable"@[0] == 'D');
    assert("Source Quench (deprecated)"@.len() == 26);
    assert("Redirect"@.len() == 8);
    assert("Echo Request"@.len() == 12);
    assert("Router Advertisement"@.len() == 20);
    assert("Router Solicitation"@.len() == 19);
    assert("Router Solicitation"@[0] == 'R');
    assert("Time Exceeded"@.len() == 13);
    assert("Parameter Problem: Bad IP Header"@.len() == 32);
    assert("Timestamp"@.len() == 9);
    assert("Timestamp Reply"@.len() == 15);
    assert("Traceroute (deprecated)"@.len() == 23);
    assert("Traceroute (deprecated)"@[0] == 'T');
    assert("Extended Echo Request"@.len() == 21);
    assert("Extended Echo Reply"@.len() == 19);
    assert("Extended Echo Reply"@[0] == 'E');
    assert("Unknown"@.len() == 7);
}

pub open spec fn spec_dest_unreachable_description(code: u8) -> Option<Seq<char>> {
    match code {
        0 => Some("Network unreachable error."@),
        1 => Some("Host unreachable error."@),
        2 => Some("Protocol unreachable error (the designated transport protocol is not supported)."@),
        3 => Some("Port unreachable error (the designated protocol is unable to inform the host of the incoming message)."@),
        4 => Some("The datagram is too big. Packet fragmentation is required but the 'don't fragment' (DF) flag is on."@),
        5 => Some("Source route failed error."@),
        6 => Some("Destination network unknown error."@),
        7 => Some("Destination host unknown error."@),
        8 => Some("Source host isolated error."@),
        9 => Some("The destination network is administratively prohibited."@),
        10 => Some("The destination host is administratively prohibited."@),
        11 => Some("The network is unreachable for Type Of Service."@),
        12 => Some("The host is unreachable for Type Of Service."@),
        13 => Some("Communication administratively prohibited (administrative filtering prevents packet from being forwarded)."@),
        14 => Some("Host precedence violation (indicates the requested precedence is not permitted for the combination of host or network and port)."@),
        15 => Some("Precedence cutoff in effect (precedence of datagram is below the level set by the network administrators)."@),
        _ => None,
    }
}

/// Each Destination Unreachable description belongs to its own code: the description of code `c` is the
/// one listed for `c`, and no other code has it; codes that are not listed have none.
pub proof fn lemma_dest_unreachable_codes(c: u8)
    ensures
        spec_dest_unreachable_description(c) == Some("Network unreachable error."@) <==> c == 0,
        spec_dest_unreachable_description(c) == Some("Host unreachable error."@) <==> c == 1,
        spec_dest_unreachable_description(c) == Some("Protocol unreachable error (the designated transport protocol is not supported)."@) <==> c == 2,
        spec_dest_unreachable_description(c) == Some("Port unreachable error (the designated protocol is unable to inform the host of the incoming message)."@) <==> c == 3,
        spec_dest_unreachable_description(c) == Some("The datagram is too big. Packet fragmentation is required but the 'don't fragment' (DF) flag is on."@) <==> c == 4,
        spec_dest_unreachable_description(c) == Some("Source route failed error."@) <==> c == 5,
        spec_dest_unreachable_description(c) == Some("Destination network unknown error."@) <==> c == 6,
        spec_dest_unreachable_description(c) == Some("Destination host unknown error."@) <==> c == 7,
        spec_dest_unreachable_description(c) == Some("Source host isolated error."@) <==> c == 8,
        spec_dest_unreachable_description(c) == Some("The destination network is administratively prohibited."@) <==> c == 9,
        spec_dest_unreachable_description(c) == Some("The destination host is administratively prohibited."@) <==> c == 10,
        spec_dest_unreachable_description(c) == Some("The network is unreachable for Type Of Service."@) <==> c == 11,
        spec_dest_unreachable_description(c) == Some("The host is unreachable for Type Of Service."@) <==> c == 12,
        spec_dest_unreachable_description(c) == Some("Communication administratively prohibited (administrative filtering prevents packet from being forwarded)."@) <==> c == 13,
        spec_dest_unreachable_description(c) == Some("Host precedence violation (indicates the requested precedence is not permitted for the combination of host or network and port)."@) <==> c == 14,
        spec_dest_unreachable_description(c) == Some("Precedence cutoff in effect (precedence of datagram is below the level set by the network administrators)."@) <==> c == 15,
        spec_dest_unreachable_description(c) is None <==> !(c == 0 || c == 1 || c == 2 || c == 3 || c == 4 || c == 5 || c == 6 || c == 7 || c == 8 || c == 9 || c == 10 || c == 11 || c == 12 || c == 13 || c == 14 || c == 15),
{
    reveal_strlit("Network unreachable error.");
    reveal_strlit("Host unreachable error.");
    reveal_strlit("Protocol unreachable error (the designated transport protocol is not supported).");
    reveal_strlit("Port unreachable error (the designated protocol is unable to inform the host of the incoming message).");
    reveal_strlit("The datagram is too big. Packet fragmentation is required but the 'don't fragment' (DF) flag is on.");
    reveal_strlit("Source route failed error.");
    reveal_strlit("Destination network unknown error.");
    reveal_strlit("Destination host unknown error.");
    reveal_strlit("Source host isolated error.");
    reveal_strlit("The destination network is administratively prohibited.");
    reveal_strlit("The destination host is administratively prohibited.");
    reveal_strlit("The network is unreachable for Type Of Service.");
    reveal_strlit("The host is unreachable for Type Of Service.");
    reveal_strlit("Communication administratively prohibited (administrative filtering prevents packet from being forwarded).");
    reveal_strlit("Host precedence violation (indicates the requested precedence is not permitted for the combination of host or network and port).");
    reveal_strlit("Precedence cutoff in effect (precedence of datagram is below the level set by the network administrators).");
    assert("Network unreachable error."@.len() == 26);
    assert("Network unreachable error."@[0] == 'N');
    assert("Host unreachable error."@.len() == 23);
    assert("Protocol unreachable error (the designated transport protocol is not supported)."@.len() == 80);
    assert("Port unreachable error (the designated protocol is unable to inform the host of the incoming message)."@.len() == 102);
    assert("The datagram is too big. Packet fragmentation is required but the 'don't fragment' (DF) flag is on."@.len() == 99);
    assert("Source route failed error."@.len() == 26);
    assert("Source route failed error."@[0] == 'S');
    assert("Destination network unknown error."@.len() == 34);
    assert("Destination host unknown error."@.len() == 31);
    assert("Source host isolated error."@.len() == 27);
    assert("The destination network is administratively prohibited."@.len() == 55);
    assert("The destination host is administratively prohibited."@.len() == 52);
    assert("The network is unreachable for Type Of Service."@.len() == 47);
    assert("The host is unreachable for Type Of Service."@.len() == 44);
    assert("Communication administratively prohibited (administrative filtering prevents packet from being forwarded)."@.len() == 106);
    assert("Communication administratively prohibited (administrative filtering prevents packet from being forwarded)."@[0] == 'C');
    assert("Host precedence violation (indicates the requested precedence is not permitted for the combination of host or network and port)."@.len() == 128);
    assert("Precedence cutoff in effect (precedence of datagram is below the level set by the network administrators)."@.len() == 106);
    assert("Precedence cutoff in effect (precedence of datagram is below the level set by the network administrators)."@[0] == 'P');
}

fn dest_unreachable_description(code: u8) -> (r: Option<&'static str>)
    ensures
        described(r) == spec_dest_unreachable_description(code),
{
    Some(
        match code {
            0 => "Network unreachable error.",
            1 => "Host unreachable error.",
            2 => "Protocol unreachable error (the designated transport protocol is not supported).",
            3 => "Port unreachable error (the designated protocol is unable to inform the host of the incoming message).",
            4 => "The datagram is too big. Packet fragmentation is required but the 'don't fragment' (DF) flag is on.",
            5 => "Source route failed error.",
            6 => "Destination network unknown error.",
            7 => "Destination host unknown error.",
            8 => "Source host isolated error.",
            9 => "The destination network is administratively prohibited.",
            10 => "The destination host is administratively prohibited.",
            11 => "The network is unreachable for Type Of Service.",
            12 => "The host is unreachable for Type Of Service.",
            13 => "Communication administratively prohibited (administrative filtering prevents packet from being forwarded).",
            14 => "Host precedence violation (indicates the requested precedence is not permitted for the combination of host or network and port).",
            15 => "Precedence cutoff in effect (precedence of datagram is below the level set by the network administrators).",
            _ => return None,
        },
    )
}

pub open spec fn spec_redirect_description(code: u8) -> Option<Seq<char>> {
    match code {
        0 => Some("Redirect for Network"@),
        1 => Some("Redirect for Host"@),
        2 => Some("Redirect for Type of Service and Network"@),
        3 => Some("Redirect for Type of Service and Host"@),
        _ => None,
    }
}

/// Each Redirect description belongs to its own code: the description of code `c` is the
/// one listed for `c`, and no other code has it; codes that are not listed have none.
pub proof fn lemma_redirect_codes(c: u8)
    ensures
        spec_redirect_description(c) == Some("Redirect for Network"@) <==> c == 0,
        spec_redirect_description(c) == Some("Redirect for Host"@) <==> c == 1,
        spec_redirect_description(c) == Some("Redirect for Type of Service and Network"@) <==> c == 2,
        spec_redirect_description(c) == Some("Redirect for Type of Service and Host"@) <==> c == 3,
        spec_redirect_description(c) is None <==> !(c == 0 || c == 1 || c == 2 || c == 3),
{
    reveal_strlit("Redirect for Network");
    reveal_strlit("Redirect for Host");
    reveal_strlit("Redirect for Type of Service and Network");
    reveal_strlit("Redirect for Type of Service and Host");
    assert("Redirect for Network"@.len() == 20);
    assert("Redirect for Host"@.len() == 17);
    assert("Redirect for Type of Service and Network"@.len() == 40);
    assert("Redirect for Type of Service and Host"@.len() == 37);
}

fn redirect_description(code: u8) -> (r: Option<&'static str>)
    ensures
        described(r) == spec_redirect_description(code),
{
    Some(
        match code {
            0 => "Redirect for Network",
            1 => "Redirect for Host",
            2 => "Redirect for Type of Service and Network",
            3 => "Redirect for Type of Service and Host",
            _ => return None,
        },
    )
}

pub open spec fn spec_bad_ip_header_description(code: u8) -> Option<Seq<char>> {
    match code {
        0 => Some("Pointer indicates the error"@),
        1 => Some("Missing a required option"@),
        2 => Some("Bad length"@),
        _ => None,
    }
}

/// Each Bad IP Header description belongs to its own code: the description of code `c` is the
/// one listed for `c`, and no other code has it; codes that are not listed have none.
pub proof fn lemma_bad_ip_header_codes(c: u8)
    ensures
        spec_bad_ip_header_description(c) == Some("Pointer indicates the error"@) <==> c == 0,
        spec_bad_ip_header_description(c) == Some("Missing a required option"@) <==> c == 1,
        spec_bad_ip_header_description(c) == Some("Bad length"@) <==> c == 2,
        spec_bad_ip_header_description(c) is None <==> !(c == 0 || c == 1 || c == 2),
{
    reveal_strlit("Pointer indicates the error");
    reveal_strlit("Missing a required option");
    reveal_strlit("Bad length");
    assert("Pointer indicates the error"@.len() == 27);
    assert("Missing a required option"@.len() == 25);
    assert("Bad length"@.len() == 10);
}

fn bad_ip_header_description(code: u8) -> (r: Option<&'static str>)
    ensures
        described(r) == spec_bad_ip_header_description(code),
{
    Some(
        match code {
            0 => "Pointer indicates the error",
            1 => "Missing a required option",
            2 => "Bad length",
            _ => return None,
        },
    )
}

pub open spec fn spec_ext_echo_reply_description(code: u8) -> Option<Seq<char>> {
    match code {
        0 => Some("No Error"@),
        1 => Some("Malformed Query"@),
        2 => Some("No Such Interface"@),
        3 => Some("No Such Table Entry"@),
        4 => Some("Multiple Interfaces Satisfy Query"@),
        _ => None,
    }
}

/// Each Extended Echo Reply description belongs to its own code: the description of code `c` is the
/// one listed for `c`, and no other code has it; codes that are not listed have none.
pub proof fn lemma_ext_echo_reply_codes(c: u8)
    ensures
        spec_ext_echo_reply_description(c) == Some("No Error"@) <==> c == 0,
        spec_ext_echo_reply_description(c) == Some("Malformed Query"@) <==> c == 1,
        spec_ext_echo_reply_description(c) == Some("No Such Interface"@) <==> c == 2,
        spec_ext_echo_reply_description(c) == Some("No Such Table Entry"@) <==> c == 3,
        spec_ext_echo_reply_description(c) == Some("Multiple Interfaces Satisfy Query"@) <==> c == 4,
        spec_ext_echo_reply_description(c) is None <==> !(c == 0 || c == 1 || c == 2 || c == 3 || c == 4),
{
    reveal_strlit("No Error");
    reveal_strlit("Malformed Query");
    reveal_strlit("No Such Interface");
    reveal_strlit("No Such Table Entry");
    reveal_strlit("Multiple Interfaces Satisfy Query");
    assert("No Error"@.len() == 8);
    assert("Malformed Query"@.len() == 15);
    assert("No Such Interface"@.len() == 17);
    assert("No Such Table Entry"@.len() == 19);
    assert("Multiple Interfaces Satisfy Query"@.len() == 33);
}

fn ext_echo_reply_description(code: u8) -> (r: Option<&'static str>)
    ensures
        described(r) == spec_ext_echo_reply_description(code),
{
    Some(
        match code {
            0 => "No Error",
            1 => "Malformed Query",
            2 => "No Such Interface",
            3 => "No Such Table Entry",
            4 => "Multiple Interfaces Satisfy Query",
            _ => return None,
        },
    )
}

/// The description of code `code` of an ICMP message of type `icmp_type`, for the
/// types whose codes have descriptions.
pub open spec fn spec_code_description(icmp_type: u8, code: u8) -> Option<Seq<char>> {
    match icmp_type {
        3 => spec_dest_unreachable_description(code),
        5 => spec_redirect_description(code),
        12 => spec_bad_ip_header_description(code),
        43 => spec_ext_echo_reply_description(code),
        _ => None,
    }
}

/// Which codes are described: Destination Unreachable (3) has sixteen
/// described codes, Redirect (5) four, Parameter Problem (12) three and Extended Echo
/// Reply (43) five, all numbered from 0; no other type has
/// described codes.
pub proof fn lemma_described_codes(t: u8, c: u8)
    ensures
        spec_code_description(t, c) is Some <==> (t == 3 && c <= 15) || (t == 5 && c <= 3) || (t == 12 && c <= 2) || (t == 43 && c <= 4),
{
}

/// The type's name, followed by ": " and the code's description where it has one.
pub open spec fn spec_describe(icmp_type: u8, code: u8) -> Seq<char> {
    match spec_code_description(icmp_type, code) {
        Some(description) => spec_name_of_type(icmp_type) + ": "@ + description,
        None => spec_name_of_type(icmp_type),
    }
}

/// A description starts with the type's name; where the code is described, a colon, a
/// space and the code's description follow, and otherwise nothing does.
pub proof fn lemma_describe_layout(t: u8, c: u8)
    ensures
        ({
            let d = spec_describe(t, c);
            let name = spec_name_of_type(t);
            &&& d.take(name.len() as int) == name
            &&& spec_code_description(t, c) is None ==> d == name
            &&& spec_code_description(t, c) matches Some(cd) ==> {
                &&& d.len() == name.len() + 2 + cd.len()
                &&& d[name.len() as int] == ':'
                &&& d[name.len() + 1int] == ' '
                &&& d.skip(name.len() + 2int) == cd
            }
        }),
{
    reveal_strlit(": ");
    let d = spec_describe(t, c);
    let name = spec_name_of_type(t);
    if let Some(cd) = spec_code_description(t, c) {
        assert(": "@.len() == 2 && ": "@[0] == ':' && ": "@[1] == ' ');
        assert(d.take(name.len() as int) =~= name);
        assert(d.skip(name.len() + 2int) =~= cd);
    } else {
        assert(d.take(name.len() as int) =~= name);
    }
}

pub fn describe(icmp_type: u8, code: u8) -> (r: String)
    ensures
        r@ == spec_describe(icmp_type, code),
{
    let name = name_of_type(icmp_type);

    let code_description = match icmp_type {
        3 => dest_unreachable_description(code),
        5 => redirect_description(code),
        12 => bad_ip_header_description(code),
        43 => ext_echo_reply_description(code),
        _ => None,
    };

    match code_description {
        Some(description) => {
            let mut s = String::from_str(name);
            s.append(": ");
            s.append(description);
            s
        },
        None => String::from_str(name),
    }
}

} // verus!
