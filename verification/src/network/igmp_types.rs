//! The names of IGMP message types.
use vstd::prelude::*;

verus! {

pub enum IGMPTypes {
    MembershipQuery,
    V1MembershipReport,
    V2MembershipReport,
    LeaveGroup,
    V3MembershipReport,
}

/// The name of an IGMP message type; "Unknown" for a type without one.
pub open spec fn spec_name_of_type(igmp_type: u8) -> Seq<char> {
    match igmp_type {
        0x11 => "Membership Query"@,
        0x12 => "IGMPv1 Membership Report"@,
        0x16 => "IGMPv2 Membership Report"@,
        0x17 => "Leave Group"@,
        0x22 => "IGMPv3 Membership Report"@,
        _ => "Unknown"@,
    }
}

fn name_of_type(igmp_type: u8) -> (r: &'static str)
    ensures
        r@ == spec_name_of_type(igmp_type),
{
    match igmp_type {
        0x11 => "Membership Query",
        0x12 => "IGMPv1 Membership Report",
        0x16 => "IGMPv2 Membership Report",
        0x17 => "Leave Group",
        0x22 => "IGMPv3 Membership Report",
        _ => "Unknown",
    }
}

/// Each name belongs to its own type: a type is named "Membership Query" exactly when it
/// is 0x11, "IGMPv1 Membership Report" exactly when it is 0x12, "IGMPv2 Membership
/// Report" 0x16, "Leave Group" 0x17, "IGMPv3 Membership Report" 0x22, and "Unknown"
/// every other type.
pub proof fn lemma_type_names(t: u8)
    ensures
        spec_name_of_type(t) == "Membership Query"@ <==> t == 0x11,
        spec_name_of_type(t) == "IGMPv1 Membership Report"@ <==> t == 0x12,
        spec_name_of_type(t) == "IGMPv2 Membership Report"@ <==> t == 0x16,
        spec_name_of_type(t) == "Leave Group"@ <==> t == 0x17,
        spec_name_of_type(t) == "IGMPv3 Membership Report"@ <==> t == 0x22,
        spec_name_of_type(t) == "Unknown"@ <==> !(t == 0x11 || t == 0x12 || t == 0x16 || t == 0x17 || t == 0x22),
{
    reveal_strlit("Membership Query");
    reveal_strlit("IGMPv1 Membership Report");
    reveal_strlit("IGMPv2 Membership Report");
    reveal_strlit("Leave Group");
    reveal_strlit("IGMPv3 Membership Report");
    reveal_strlit("Unknown");
    assert("Membership Query"@.len() == 16);
    assert("IGMPv1 Membership Report"@.len() == 24);
    assert("IGMPv1 Membership Report"@[5] == '1');
    assert("IGMPv2 Membership Report"@.len() == 24);
    assert("IGMPv2 Membership Report"@[5] == '2');
    assert("Leave Group"@.len() == 11);
    assert("IGMPv3 Membership Report"@.len() == 24);
    assert("IGMPv3 Membership Report"@[5] == '3');
    assert("Unknown"@.len() == 7);
}

pub fn describe(igmp_type: u8) -> (r: String)
    ensures
        r@ == spec_name_of_type(igmp_type),
{
    String::from_str(name_of_type(igmp_type))
}

} // verus!
