//! Synthetic car traffic for the lab simulator: Ethernet frames as a
//! vehicle would send them.

use crate::wire::{be16, put_u16};
use vstd::prelude::*;

verus! {

/// The 14-byte Ethernet header of a simulated frame: broadcast destination,
/// source 00:01:02:03:04:05, EtherType IPv4.
pub open spec fn sim_ethernet_header() -> Seq<u8> {
    seq![0xffu8, 0xff, 0xff, 0xff, 0xff, 0xff, 0x00, 0x01, 0x02, 0x03, 0x04, 0x05] + be16(0x0800)
}

fn push_all(out: &mut Vec<u8>, data: &[u8])
    ensures
        final(out)@ == old(out)@ + data@,
{
    let mut i: usize = 0;
    while i < data.len()
        invariant
            i <= data@.len(),
            out@ == old(out)@ + data@.take(i as int),
        decreases data@.len() - i,
    {
        out.push(data[i]);
        i = i + 1;
        assert(out@ =~= old(out)@ + data@.take(i as int));
    }
    assert(data@.take(data@.len() as int) =~= data@);
}

/// A simulated IPv4 Ethernet frame carrying `payload`.
pub fn fake_ethernet_ipv4(payload: &[u8]) -> (frame: Vec<u8>)
    ensures
        frame@ == sim_ethernet_header() + payload@,
{
    let mut b: Vec<u8> = vec![0xffu8, 0xff, 0xff, 0xff, 0xff, 0xff, 0x00, 0x01, 0x02, 0x03, 0x04, 0x05];
    put_u16(&mut b, 0x0800);
    push_all(&mut b, payload);
    assert(b@ =~= sim_ethernet_header() + payload@);
    b
}

/// A simulated broadcast to UDP `port`: the port (big-endian), then the
/// payload, in an IPv4 Ethernet frame.
pub fn fake_ethernet_udp_broadcast(port: u16, payload: &[u8]) -> (frame: Vec<u8>)
    ensures
        frame@ == sim_ethernet_header() + be16(port) + payload@,
{
    let mut body: Vec<u8> = Vec::new();
    put_u16(&mut body, port);
    push_all(&mut body, payload);
    let f = fake_ethernet_ipv4(body.as_slice());
    assert(f@ =~= sim_ethernet_header() + be16(port) + payload@);
    f
}

} // verus!
