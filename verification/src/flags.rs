//! TCP control-bit names.
//!
//! A captured TCP segment carries its control bits in one byte of the header;
//! events derived from raw capture record the names of the bits that are set,
//! in a fixed order.

use vstd::prelude::*;
use vstd::string::StringExecFns;

verus! {

/// Mask of the FIN control bit in a TCP header's flag byte.
pub const TCP_FIN: u8 = 0x01;
/// Mask of the SYN control bit.
pub const TCP_SYN: u8 = 0x02;
/// Mask of the RST control bit.
pub const TCP_RST: u8 = 0x04;
/// Mask of the PSH control bit.
pub const TCP_PSH: u8 = 0x08;
/// Mask of the ACK control bit.
pub const TCP_ACK: u8 = 0x10;
/// Mask of the URG control bit.
pub const TCP_URG: u8 = 0x20;
/// Mask of the ECE control bit.
pub const TCP_ECE: u8 = 0x40;
/// Mask of the CWR control bit.
pub const TCP_CWR: u8 = 0x80;

/// The name of one control bit, as a singleton sequence when the bit is set
/// in `flags`, and empty otherwise.
pub open spec fn spec_bit_name(flags: u8, mask: u8, name: Seq<char>) -> Seq<Seq<char>> {
    if flags & mask != 0 {
        seq![name]
    } else {
        Seq::empty()
    }
}

/// The names of the control bits set in `flags`, ordered
/// FIN, SYN, RST, PSH, ACK, URG, ECE, CWR.
pub open spec fn spec_flag_names(flags: u8) -> Seq<Seq<char>> {
    spec_bit_name(flags, TCP_FIN, "FIN"@) + spec_bit_name(flags, TCP_SYN, "SYN"@)
        + spec_bit_name(flags, TCP_RST, "RST"@) + spec_bit_name(flags, TCP_PSH, "PSH"@)
        + spec_bit_name(flags, TCP_ACK, "ACK"@) + spec_bit_name(flags, TCP_URG, "URG"@)
        + spec_bit_name(flags, TCP_ECE, "ECE"@) + spec_bit_name(flags, TCP_CWR, "CWR"@)
}

/// Appends `name` to `r` when the `mask` bit is set in `flags`.
fn push_bit_name(r: &mut Vec<String>, flags: u8, mask: u8, name: &str)
    ensures
        final(r).deep_view() == old(r).deep_view() + spec_bit_name(flags, mask, name@),
{
    if flags & mask != 0 {
        r.push(String::from_str(name));
    }
    proof {
        assert(r.deep_view() =~~= old(r).deep_view() + spec_bit_name(flags, mask, name@));
    }
}

/// The names of the control bits set in `flags`, in the fixed header order.
pub fn tcp_flags_to_iter(flags: u8) -> (r: Vec<String>)
    ensures
        r.deep_view() == spec_flag_names(flags),
{
    let mut r: Vec<String> = Vec::new();
    push_bit_name(&mut r, flags, TCP_FIN, "FIN");
    push_bit_name(&mut r, flags, TCP_SYN, "SYN");
    push_bit_name(&mut r, flags, TCP_RST, "RST");
    push_bit_name(&mut r, flags, TCP_PSH, "PSH");
    push_bit_name(&mut r, flags, TCP_ACK, "ACK");
    push_bit_name(&mut r, flags, TCP_URG, "URG");
    push_bit_name(&mut r, flags, TCP_ECE, "ECE");
    push_bit_name(&mut r, flags, TCP_CWR, "CWR");
    proof {
        assert(r.deep_view() =~~= spec_flag_names(flags));
    }
    r
}

} // verus!
