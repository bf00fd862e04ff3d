//! Pairing orchestration: the decisions of one pairing flow, from offering an
//! invitation to committing the new member. The pairing session itself (its
//! transcript, SAS and confirmations) is kept by the caller, who reports the
//! outcome of each session step; the flow decides the next phase and the
//! action the platform performs.

use vstd::prelude::*;
use uuid::Uuid;
use crate::ids::DeviceId;

verus! {

#[verifier::external_type_specification]
#[verifier::external_body]
pub struct ExUuid(Uuid);

/// High-level phases of a pairing flow.
#[derive(Clone, Copy, Debug, Default, PartialEq, Eq, Structural, Hash)]
pub enum PairingPhase {
    #[default]
    Idle,
    Offering,
    Discovering,
    Connecting,
    ConfirmingSas,
    Committing,
    Paired,
    Failed,
    Cancelled,
}

/// What the platform must perform next.
#[derive(Debug, PartialEq, Eq)]
pub enum PairingAction {
    /// Show the pairing QR code / invitation.
    ShowQr { session_id: Uuid },
    /// Discover the peer on the LAN.
    Discover,
    /// Connect to the peer's endpoint.
    Connect { ip: String, port: u16 },
    /// Display the SAS for the user to compare.
    ShowSas { sas: String },
    /// Wait for the peer's user to confirm the SAS.
    AwaitPeerConfirmation,
    /// Commit the peer into the membership graph.
    CommitMember { device: DeviceId },
    /// Pairing is complete.
    Done,
}

/// What the pairing session answered to a confirmation.
#[derive(Clone, Copy, Debug, PartialEq, Eq, Structural, Hash)]
pub enum Confirmation {
    /// The session refused the confirmation.
    Refused,
    /// Accepted; the other side has not confirmed yet.
    AwaitingPeer,
    /// Accepted; both sides have now confirmed and the session is paired.
    BothConfirmed,
}

/// Drives one pairing from offer to committed membership.
pub struct PairingFlow {
    phase: PairingPhase,
    session_id: Uuid,
    remote_device: Option<DeviceId>,
    sas: Option<String>,
}

impl PairingFlow {
    pub closed spec fn spec_phase(&self) -> PairingPhase {
        self.phase
    }

    pub closed spec fn spec_session_id(&self) -> Uuid {
        self.session_id
    }

    pub closed spec fn spec_remote(&self) -> Option<DeviceId> {
        self.remote_device
    }

    pub closed spec fn spec_sas(&self) -> Option<Seq<char>> {
        match self.sas {
            Some(s) => Some(s@),
            None => None,
        }
    }

    /// Begin a new pairing flow with a fresh offer.
    pub fn new(session_id: Uuid) -> (f: Self)
        ensures
            f.spec_phase() == PairingPhase::Offering,
            f.spec_session_id() == session_id,
            f.spec_remote() is None,
            f.spec_sas() is None,
    {
        PairingFlow { phase: PairingPhase::Offering, session_id, remote_device: None, sas: None }
    }

    pub fn phase(&self) -> (p: PairingPhase)
        ensures
            p == self.spec_phase(),
    {
        self.phase
    }

    pub fn session_id(&self) -> (id: Uuid)
        ensures
            id == self.spec_session_id(),
    {
        self.session_id
    }

    /// The peer's identity once the handshake has authenticated it.
    pub fn remote_device(&self) -> (d: Option<DeviceId>)
        ensures
            d == self.spec_remote(),
    {
        self.remote_device
    }

    /// The SAS, available once the handshake transcript has been set.
    pub fn sas(&self) -> (r: Option<String>)
        ensures
            match r {
                Some(t) => self.spec_sas() == Some(t@),
                None => self.spec_sas() is None,
            },
    {
        match &self.sas {
            Some(s) => Some(s.clone()),
            None => None,
        }
    }

    /// Present the offer; the platform shows the QR code and we discover.
    pub fn start_offering(&mut self) -> (a: PairingAction)
        ensures
            final(self).spec_phase() == PairingPhase::Offering,
            final(self).spec_session_id() == old(self).spec_session_id(),
            final(self).spec_sas() == old(self).spec_sas(),
            final(self).spec_remote() == old(self).spec_remote(),
            a == (PairingAction::ShowQr { session_id: old(self).spec_session_id() }),
    {
        self.phase = PairingPhase::Offering;
        PairingAction::ShowQr { session_id: self.session_id }
    }

    /// The platform observed an inbound pairing request; discover the peer.
    pub fn on_peer_detected(&mut self) -> (a: PairingAction)
        ensures
            final(self).spec_phase() == PairingPhase::Discovering,
            final(self).spec_session_id() == old(self).spec_session_id(),
            final(self).spec_sas() == old(self).spec_sas(),
            final(self).spec_remote() == old(self).spec_remote(),
            a == PairingAction::Discover,
    {
        self.phase = PairingPhase::Discovering;
        PairingAction::Discover
    }

    /// A candidate endpoint was found; connect to it. `session_connecting`
    /// tells whether the session accepted the move from offered to
    /// connecting; if it did not, the flow has failed.
    pub fn on_discovered(&mut self, ip: &str, port: u16, session_connecting: bool) -> (a:
        PairingAction)
        ensures
            final(self).spec_phase() == if session_connecting {
                PairingPhase::Connecting
            } else {
                PairingPhase::Failed
            },
            final(self).spec_session_id() == old(self).spec_session_id(),
            final(self).spec_sas() == old(self).spec_sas(),
            final(self).spec_remote() == old(self).spec_remote(),
            a matches PairingAction::Connect { ip: i, port: p } && i@ == ip@ && p == port,
    {
        self.phase = PairingPhase::Connecting;
        if !session_connecting {
            self.phase = PairingPhase::Failed;
        }
        PairingAction::Connect { ip: ip.to_owned(), port }
    }

    /// The Noise XX handshake with `remote_device` completed. `sas` is the
    /// short authentication string the session derived from the transcript,
    /// or `None` when the session refused the transcript.
    pub fn on_connected(&mut self, sas: Option<String>, remote_device: DeviceId) -> (a:
        PairingAction)
        ensures
            final(self).spec_remote() == Some(remote_device),
            final(self).spec_session_id() == old(self).spec_session_id(),
            final(self).spec_sas() == match sas { Some(t) => Some(t@), None => old(self).spec_sas() },
            sas is Some ==> final(self).spec_phase() == PairingPhase::ConfirmingSas && (
            a matches PairingAction::ShowSas { sas: s } && s@ == sas->0@),
            sas is None ==> final(self).spec_phase() == PairingPhase::Failed && a
                == PairingAction::Done,
    {
        self.remote_device = Some(remote_device);
        self.phase = PairingPhase::ConfirmingSas;
        match sas {
            Some(s) => {
                self.sas = Some(s.clone());
                PairingAction::ShowSas { sas: s }
            },
            None => {
                self.phase = PairingPhase::Failed;
                PairingAction::Done
            },
        }
    }

    /// The next step after a confirmation: commit the member once both sides
    /// confirmed, keep waiting while only one did, fail when refused.
    fn after_confirmation(&mut self, outcome: Confirmation) -> (a: PairingAction)
        ensures
            final(self).spec_session_id() == old(self).spec_session_id(),
            final(self).spec_sas() == old(self).spec_sas(),
            final(self).spec_remote() == old(self).spec_remote(),
            final(self).spec_phase() == confirmed_phase(outcome),
            confirmed_action(outcome, old(self).spec_remote(), a),
    {
        match outcome {
            Confirmation::BothConfirmed => {
                self.phase = PairingPhase::Committing;
                let device = match self.remote_device {
                    Some(d) => d,
                    None => DeviceId::from_bytes([0u8; 32]),
                };
                assert(self.remote_device is None ==> device.bytes@ =~= Seq::new(32, |_i: int| 0u8));
                PairingAction::CommitMember { device }
            },
            Confirmation::AwaitingPeer => {
                self.phase = PairingPhase::ConfirmingSas;
                PairingAction::AwaitPeerConfirmation
            },
            Confirmation::Refused => {
                self.phase = PairingPhase::Failed;
                PairingAction::Done
            },
        }
    }

    /// The local user confirmed the SAS; `outcome` is the session's answer.
    pub fn confirm_local(&mut self, outcome: Confirmation) -> (a: PairingAction)
        ensures
            final(self).spec_session_id() == old(self).spec_session_id(),
            final(self).spec_sas() == old(self).spec_sas(),
            final(self).spec_remote() == old(self).spec_remote(),
            final(self).spec_phase() == confirmed_phase(outcome),
            confirmed_action(outcome, old(self).spec_remote(), a),
    {
        self.after_confirmation(outcome)
    }

    /// The peer reported its user confirmed the SAS; `outcome` is the
    /// session's answer.
    pub fn confirm_remote(&mut self, outcome: Confirmation) -> (a: PairingAction)
        ensures
            final(self).spec_session_id() == old(self).spec_session_id(),
            final(self).spec_sas() == old(self).spec_sas(),
            final(self).spec_remote() == old(self).spec_remote(),
            final(self).spec_phase() == confirmed_phase(outcome),
            confirmed_action(outcome, old(self).spec_remote(), a),
    {
        self.after_confirmation(outcome)
    }

    /// The membership commit completed; pairing is done.
    pub fn on_member_committed(&mut self) -> (a: PairingAction)
        ensures
            final(self).spec_phase() == PairingPhase::Paired,
            final(self).spec_session_id() == old(self).spec_session_id(),
            final(self).spec_sas() == old(self).spec_sas(),
            final(self).spec_remote() == old(self).spec_remote(),
            a == PairingAction::Done,
    {
        self.phase = PairingPhase::Paired;
        PairingAction::Done
    }

    /// Cancel an in-flight pairing.
    pub fn cancel(&mut self)
        ensures
            final(self).spec_phase() == PairingPhase::Cancelled,
            final(self).spec_session_id() == old(self).spec_session_id(),
            final(self).spec_sas() == old(self).spec_sas(),
            final(self).spec_remote() == old(self).spec_remote(),
    {
        self.phase = PairingPhase::Cancelled;
    }

    /// Mark an expired flow.
    pub fn mark_expired(&mut self)
        ensures
            final(self).spec_phase() == PairingPhase::Failed,
            final(self).spec_session_id() == old(self).spec_session_id(),
            final(self).spec_sas() == old(self).spec_sas(),
            final(self).spec_remote() == old(self).spec_remote(),
    {
        self.phase = PairingPhase::Failed;
    }
}

/// The phase a confirmation leads to.
pub open spec fn confirmed_phase(outcome: Confirmation) -> PairingPhase {
    match outcome {
        Confirmation::BothConfirmed => PairingPhase::Committing,
        Confirmation::AwaitingPeer => PairingPhase::ConfirmingSas,
        Confirmation::Refused => PairingPhase::Failed,
    }
}

/// The action a confirmation leads to; the member committed is the
/// authenticated peer, or the all-zero id if none was recorded.
pub open spec fn confirmed_action(outcome: Confirmation, remote: Option<DeviceId>, a: PairingAction) -> bool {
    match outcome {
        Confirmation::BothConfirmed => a matches PairingAction::CommitMember { device } && match remote {
            Some(d) => device == d,
            None => device.bytes@ == Seq::new(32, |_i: int| 0u8),
        },
        Confirmation::AwaitingPeer => a == PairingAction::AwaitPeerConfirmation,
        Confirmation::Refused => a == PairingAction::Done,
    }
}

/// A member is committed only once both sides have confirmed the SAS.
pub proof fn lemma_commit_needs_both_confirmations(
    outcome: Confirmation,
    remote: Option<DeviceId>,
    a: PairingAction,
)
    requires
        confirmed_action(outcome, remote, a),
    ensures
        a is CommitMember <==> outcome == Confirmation::BothConfirmed,
        confirmed_phase(outcome) == PairingPhase::Committing <==> outcome
            == Confirmation::BothConfirmed,
{
}

} // verus!
