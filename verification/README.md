# parser

A verified parser for pcap capture files and for the protocols of the packets they
hold: Ethernet and Linux cooked-capture (SLL) frames, ARP, IPv4 (with options),
IPv6 (with extension headers), ICMP, ICMPv6, IGMP (versions 1 to 3), TCP (with
options) and UDP.

Every parser is stated against a specification over byte sequences: the value it
returns where the bytes hold a packet that it parses, and `None` exactly where they
do not (too few bytes, or a protocol, type or field value that is not parsed).

- `src/byteorder.rs`: big- and little-endian numbers.
- `src/pcap/`: the cursor over bytes, the global header, the packet records.
- `src/link/`, `src/network/`, `src/transport/`: the protocols of each layer.
- `src/layer.rs`: frames and packets of all layers, and the entry points
  `parse_pcap` and `parse_packet` (and their `try_` forms, which return `None`
  where the others require valid input).
- `app/`: a program that parses every capture file under `./data`.
