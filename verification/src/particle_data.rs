use vstd::prelude::*;

verus! {

/// Kind of a transported particle.  Only neutron behaviour is modelled by
/// the walk engine; the other kinds exist so that callers can tag sources.
#[derive(Debug, Clone, Copy, PartialEq, Eq, Structural)]
pub enum ParticleType {
    Neutron,
    Photon,
    Electron,
    Positron,
}

/// Life-cycle state of one particle history.  A history is `Alive` from
/// birth until an absorption terminates it; absorption is terminal.
#[derive(Debug, Clone, Copy, PartialEq, Eq, Structural)]
pub enum ParticleStatus {
    Alive,
    Absorbed,
}

} // verus!
