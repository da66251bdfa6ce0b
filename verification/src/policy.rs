//! The impairment policy applied to each packet: drop what is too large,
//! drop at random, delay the rest.

use crate::config::ManglerConfig;
use crate::packet::{Packet, PacketView};
use vstd::prelude::*;

verus! {

/// The payload is longer than the configured limit.
pub open spec fn spec_oversize(p: PacketView, c: ManglerConfig) -> bool {
    p.content.len() > c.max_payload_size
}

/// A loss draw, uniform over the parts per billion, falls under the
/// configured loss probability.
pub open spec fn spec_lost(c: ManglerConfig, loss_draw: nat) -> bool {
    loss_draw < c.loss_ppb
}

/// The packet with its release time moved forward by the ping and by the
/// jitter drawn for it.
pub open spec fn spec_delayed(p: PacketView, c: ManglerConfig, jitter_draw: nat) -> PacketView {
    PacketView {
        release_time: (p.release_time + c.ping_nanos + jitter_draw) as nat,
        content: p.content,
    }
}

/// The delayed packet's release time fits the clock for every jitter draw
/// that the configuration allows.
pub open spec fn delay_in_range(p: PacketView, c: ManglerConfig) -> bool {
    p.release_time + c.ping_nanos + c.jitter_nanos <= u64::MAX
}

/// What becomes of a packet under the policy: nothing if it is too large
/// or lost, else the delayed packet.
pub open spec fn spec_mangle(
    p: PacketView,
    c: ManglerConfig,
    loss_draw: nat,
    jitter_draw: nat,
) -> Option<PacketView> {
    if spec_oversize(p, c) || spec_lost(c, loss_draw) {
        None
    } else {
        Some(spec_delayed(p, c, jitter_draw))
    }
}

/// Whether the packet's payload exceeds the configured limit.
pub fn exceeds_payload_limit(packet: &Packet, config: &ManglerConfig) -> (b: bool)
    ensures
        b == spec_oversize(packet@, *config),
{
    packet.content.len() > config.max_payload_size
}

/// Whether the packet can be delayed under the configuration without its
/// release time running past the end of the clock.
pub fn can_delay(packet: &Packet, config: &ManglerConfig) -> (b: bool)
    ensures
        b == delay_in_range(packet@, *config),
{
    match packet.release_time.checked_add(config.ping_nanos) {
        Some(t) => t.checked_add(config.jitter_nanos).is_some(),
        None => false,
    }
}

/// Whether a loss draw discards the packet.
pub fn is_lost(config: &ManglerConfig, loss_draw: u64) -> (b: bool)
    ensures
        b == spec_lost(*config, loss_draw as nat),
{
    loss_draw < config.loss_ppb as u64
}

/// Moves the packet's release time forward by the ping and the drawn jitter.
pub fn delay(packet: Packet, config: &ManglerConfig, jitter_draw: u64) -> (delayed: Packet)
    requires
        packet.release_time + config.ping_nanos + jitter_draw <= u64::MAX,
    ensures
        delayed@ == spec_delayed(packet@, *config, jitter_draw as nat),
{
    let mut delayed = packet;
    delayed.release_time = delayed.release_time + config.ping_nanos + jitter_draw;
    delayed
}

/// Applies the whole policy to one packet, for the given draws.
///
/// Returns `None` exactly when the packet is too large or the loss draw
/// discards it; otherwise the packet comes back unchanged but for its
/// release time.
pub fn mangle(
    packet: Packet,
    config: &ManglerConfig,
    loss_draw: u64,
    jitter_draw: u64,
) -> (r: Option<Packet>)
    requires
        spec_mangle(packet@, *config, loss_draw as nat, jitter_draw as nat) is Some
            ==> packet.release_time + config.ping_nanos + jitter_draw <= u64::MAX,
    ensures
        match spec_mangle(packet@, *config, loss_draw as nat, jitter_draw as nat) {
            Some(m) => r is Some && r->Some_0@ == m,
            None => r is None,
        },
{
    if exceeds_payload_limit(&packet, config) {
        return None;
    }
    if is_lost(config, loss_draw) {
        return None;
    }
    Some(delay(packet, config, jitter_draw))
}

} // verus!
