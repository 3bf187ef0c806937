//! The units of work a node performs, with their priorities.
use vstd::prelude::*;
use crate::sap::{Peer, SectionAuthorityProvider, SectionSig, SignedNodeState};
use crate::wire::{Dst, WireMsg};
use crate::xor_space::XorName;

verus! {

/// The work a node can be asked to do.
#[derive(Debug)]
pub enum Cmd {
    /// Drop links to peers that are no longer used or connected.
    CleanupPeerLinks,
    /// Handle a message received from `sender`.
    HandleMsg { sender: Peer, wire_msg: WireMsg },
    /// Handle a timeout scheduled with `ScheduleDkgTimeout`.
    HandleDkgTimeout(u64),
    /// Handle a peer detected as lost.
    HandlePeerLost(Peer),
    /// Handle agreement on a proposal (given as its bytes).
    HandleAgreement { proposal: Vec<u8>, sig: SectionSig },
    /// Handle a node joining.
    HandleNewNodeOnline(SignedNodeState),
    /// Handle a node leaving.
    HandleNodeLeft(SignedNodeState),
    /// Handle agreement on new elders.
    HandleNewEldersAgreement { proposal: Vec<u8>, sig: SectionSig },
    /// Handle the outcome of a key generation session we took part in.
    HandleDkgOutcome { section_auth: SectionAuthorityProvider, generation: u64 },
    /// Handle a key generation failure observed by a majority.
    HandleDkgFailure(Vec<u8>),
    /// Send a message to `recipients`.
    SendMsg { recipients: Vec<Peer>, wire_msg: WireMsg },
    /// Send stored data, a batch at a time, to `recipient`.
    EnqueueDataForReplication { recipient: Peer, data_batch: Vec<XorName> },
    /// Sign and send a system message (given as its priority and payload).
    SignOutgoingSystemMsg { msg_priority: i32, payload: Vec<u8>, dst: Dst },
    /// Send a message to `delivery_group_size` of `recipients`.
    SendMsgDeliveryGroup { recipients: Vec<Peer>, delivery_group_size: usize, wire_msg: WireMsg },
    /// Raise `HandleDkgTimeout(token)` after `duration_ms` milliseconds.
    ScheduleDkgTimeout { duration_ms: u64, token: u64 },
    /// Propose the named peers as offline.
    ProposeOffline(Vec<XorName>),
    /// Ask all elders to test the connectivity to a node.
    StartConnectivityTest(XorName),
    /// Test the connectivity to a node.
    TestConnectivity(XorName),
    /// Note in fault detection that sending message `msg_id` to `peer` failed.
    HandleFailedSendToNode { peer: Peer, msg_id: [u8; 16] },
}

impl Cmd {
    /// The priority of a command: control-plane decisions first, background
    /// maintenance last, messages at their own priority.
    pub open spec fn priority_spec(&self) -> i32 {
        match self {
            Cmd::HandleAgreement { .. } => 10i32,
            Cmd::HandleNewEldersAgreement { .. } => 10i32,
            Cmd::HandleDkgOutcome { .. } => 10i32,
            Cmd::HandleDkgFailure(_) => 10i32,
            Cmd::HandlePeerLost(_) => 10i32,
            Cmd::HandleNodeLeft(_) => 10i32,
            Cmd::ProposeOffline(_) => 10i32,
            Cmd::HandleDkgTimeout(_) => 9i32,
            Cmd::HandleNewNodeOnline(_) => 9i32,
            Cmd::EnqueueDataForReplication { .. } => 9i32,
            Cmd::ScheduleDkgTimeout { .. } => 8i32,
            Cmd::StartConnectivityTest(_) => 8i32,
            Cmd::TestConnectivity(_) => 8i32,
            Cmd::HandleFailedSendToNode { .. } => 9i32,
            Cmd::HandleMsg { wire_msg, .. } => wire_msg.priority,
            Cmd::SendMsg { wire_msg, .. } => wire_msg.priority,
            Cmd::SignOutgoingSystemMsg { msg_priority, .. } => *msg_priority,
            Cmd::SendMsgDeliveryGroup { wire_msg, .. } => wire_msg.priority,
            Cmd::CleanupPeerLinks => -10i32,
        }
    }

    /// The priority of the command.
    pub fn priority(&self) -> (r: i32)
        ensures
            r == self.priority_spec(),
    {
        match self {
            Cmd::HandleAgreement { .. } => 10,
            Cmd::HandleNewEldersAgreement { .. } => 10,
            Cmd::HandleDkgOutcome { .. } => 10,
            Cmd::HandleDkgFailure(_) => 10,
            Cmd::HandlePeerLost(_) => 10,
            Cmd::HandleNodeLeft(_) => 10,
            Cmd::ProposeOffline(_) => 10,
            Cmd::HandleDkgTimeout(_) => 9,
            Cmd::HandleNewNodeOnline(_) => 9,
            Cmd::EnqueueDataForReplication { .. } => 9,
            Cmd::ScheduleDkgTimeout { .. } => 8,
            Cmd::StartConnectivityTest(_) => 8,
            Cmd::TestConnectivity(_) => 8,
            Cmd::HandleFailedSendToNode { .. } => 9,
            Cmd::HandleMsg { wire_msg, .. } => wire_msg.priority,
            Cmd::SendMsg { wire_msg, .. } => wire_msg.priority,
            Cmd::SignOutgoingSystemMsg { msg_priority, .. } => *msg_priority,
            Cmd::SendMsgDeliveryGroup { wire_msg, .. } => wire_msg.priority,
            Cmd::CleanupPeerLinks => -10,
        }
    }

    /// The name of the command's kind.
    pub open spec fn name_spec(&self) -> Seq<char> {
        match self {
            Cmd::CleanupPeerLinks => "CleanupPeerLinks"@,
            Cmd::HandleMsg { .. } => "HandleMsg"@,
            Cmd::HandleDkgTimeout(_) => "HandleDkgTimeout"@,
            Cmd::HandlePeerLost(_) => "HandlePeerLost"@,
            Cmd::HandleAgreement { .. } => "HandleAgreement"@,
            Cmd::HandleNewNodeOnline(_) => "HandleNewNodeOnline"@,
            Cmd::HandleNodeLeft(_) => "HandleNodeLeft"@,
            Cmd::HandleNewEldersAgreement { .. } => "HandleNewEldersAgreement"@,
            Cmd::HandleDkgOutcome { .. } => "HandleDkgOutcome"@,
            Cmd::HandleDkgFailure(_) => "HandleDkgFailure"@,
            Cmd::SendMsg { .. } => "SendMsg"@,
            Cmd::EnqueueDataForReplication { .. } => "ThrottledSendBatchMsgs"@,
            Cmd::SignOutgoingSystemMsg { .. } => "SignOutgoingSystemMsg"@,
            Cmd::SendMsgDeliveryGroup { .. } => "SendMsgDeliveryGroup"@,
            Cmd::ScheduleDkgTimeout { .. } => "ScheduleDkgTimeout"@,
            Cmd::ProposeOffline(_) => "ProposeOffline"@,
            Cmd::StartConnectivityTest(_) => "StartConnectivityTest"@,
            Cmd::TestConnectivity(_) => "TestConnectivity"@,
            Cmd::HandleFailedSendToNode { .. } => "HandleFailedSendToNode"@,
        }
    }

    /// The name of the command's kind.
    pub fn describe(&self) -> (r: String)
        ensures
            r@ == self.name_spec(),
    {
        match self {
            Cmd::CleanupPeerLinks => "CleanupPeerLinks".to_owned(),
            Cmd::HandleMsg { .. } => "HandleMsg".to_owned(),
            Cmd::HandleDkgTimeout(_) => "HandleDkgTimeout".to_owned(),
            Cmd::HandlePeerLost(_) => "HandlePeerLost".to_owned(),
            Cmd::HandleAgreement { .. } => "HandleAgreement".to_owned(),
            Cmd::HandleNewNodeOnline(_) => "HandleNewNodeOnline".to_owned(),
            Cmd::HandleNodeLeft(_) => "HandleNodeLeft".to_owned(),
            Cmd::HandleNewEldersAgreement { .. } => "HandleNewEldersAgreement".to_owned(),
            Cmd::HandleDkgOutcome { .. } => "HandleDkgOutcome".to_owned(),
            Cmd::HandleDkgFailure(_) => "HandleDkgFailure".to_owned(),
            Cmd::SendMsg { .. } => "SendMsg".to_owned(),
            Cmd::EnqueueDataForReplication { .. } => "ThrottledSendBatchMsgs".to_owned(),
            Cmd::SignOutgoingSystemMsg { .. } => "SignOutgoingSystemMsg".to_owned(),
            Cmd::SendMsgDeliveryGroup { .. } => "SendMsgDeliveryGroup".to_owned(),
            Cmd::ScheduleDkgTimeout { .. } => "ScheduleDkgTimeout".to_owned(),
            Cmd::ProposeOffline(_) => "ProposeOffline".to_owned(),
            Cmd::StartConnectivityTest(_) => "StartConnectivityTest".to_owned(),
            Cmd::TestConnectivity(_) => "TestConnectivity".to_owned(),
            Cmd::HandleFailedSendToNode { .. } => "HandleFailedSendToNode".to_owned(),
        }
    }
}

/// How sending a message to one peer went.
#[derive(Clone, Copy, Debug)]
pub enum SendOutcome {
    Sent,
    /// The peer could not be reached.
    FailedSend(Peer),
    /// Another error of the communications layer.
    Other,
}

/// The peers that sends of `outcomes` failed to reach, in order.
pub open spec fn failed_peers(outcomes: Seq<SendOutcome>) -> Seq<Peer>
    decreases outcomes.len(),
{
    if outcomes.len() == 0 {
        Seq::empty()
    } else {
        match outcomes.last() {
            SendOutcome::FailedSend(p) => failed_peers(outcomes.drop_last()).push(p),
            _ => failed_peers(outcomes.drop_last()),
        }
    }
}

/// The follow-up to sending message `msg_id`: one `HandleFailedSendToNode`
/// per peer it failed to reach (to be marked in fault detection, not resent);
/// other errors need nothing.
pub fn failed_send_cmds(msg_id: [u8; 16], outcomes: &Vec<SendOutcome>) -> (r: Vec<Cmd>)
    ensures
        r@.len() == failed_peers(outcomes@).len(),
        forall|i: int| 0 <= i < r@.len() ==> (#[trigger] r@[i] matches Cmd::HandleFailedSendToNode { peer, msg_id: m }
            && peer == failed_peers(outcomes@)[i] && m == msg_id),
{
    let mut r: Vec<Cmd> = Vec::new();
    let mut i: usize = 0;
    while i < outcomes.len()
        invariant
            i <= outcomes@.len(),
            r@.len() == failed_peers(outcomes@.subrange(0, i as int)).len(),
            forall|k: int| 0 <= k < r@.len() ==> (#[trigger] r@[k] matches Cmd::HandleFailedSendToNode { peer, msg_id: m }
                && peer == failed_peers(outcomes@.subrange(0, i as int))[k] && m == msg_id),
        decreases outcomes@.len() - i,
    {
        proof {
            assert(outcomes@.subrange(0, i + 1).drop_last() =~= outcomes@.subrange(0, i as int));
        }
        match outcomes[i] {
            SendOutcome::FailedSend(peer) => {
                r.push(Cmd::HandleFailedSendToNode { peer, msg_id });
            },
            _ => {},
        }
        i = i + 1;
    }
    proof {
        assert(outcomes@.subrange(0, outcomes@.len() as int) =~= outcomes@);
    }
    r
}

/// A command with its id, its priority and the time it was created
/// (milliseconds since the Unix epoch).
#[derive(Debug)]
pub struct CmdJob {
    id: u64,
    cmd: Cmd,
    priority: i32,
    created_at: u64,
}

impl CmdJob {
    pub closed spec fn id_spec(&self) -> u64 {
        self.id
    }

    pub closed spec fn cmd_spec(&self) -> Cmd {
        self.cmd
    }

    pub closed spec fn priority_spec(&self) -> i32 {
        self.priority
    }

    pub closed spec fn created_at_spec(&self) -> u64 {
        self.created_at
    }

    /// A job for `cmd`, at the command's priority.
    pub fn new(id: u64, cmd: Cmd, created_at: u64) -> (r: CmdJob)
        ensures
            r.id_spec() == id,
            r.cmd_spec() == cmd,
            r.priority_spec() == cmd.priority_spec(),
            r.created_at_spec() == created_at,
    {
        let priority = cmd.priority();
        CmdJob { id, cmd, priority, created_at }
    }

    pub fn id(&self) -> (r: u64)
        ensures
            r == self.id_spec(),
    {
        self.id
    }

    pub fn cmd(&self) -> (r: &Cmd)
        ensures
            *r == self.cmd_spec(),
    {
        &self.cmd
    }

    pub fn priority(&self) -> (r: i32)
        ensures
            r == self.priority_spec(),
    {
        self.priority
    }

    pub fn created_at(&self) -> (r: u64)
        ensures
            r == self.created_at_spec(),
    {
        self.created_at
    }
}

/// The source of timer tokens of one node.
#[derive(Debug)]
pub struct TimerTokens {
    pub next: u64,
}

impl TimerTokens {
    pub fn new() -> (r: TimerTokens)
        ensures
            r.next == 0,
    {
        TimerTokens { next: 0 }
    }
}

/// A fresh timer token: the counter's value, which then moves on by one
/// (wrapping around at the end of the range).
pub fn next_timer_token(tokens: &mut TimerTokens) -> (r: u64)
    ensures
        r == old(tokens).next,
        final(tokens).next == (old(tokens).next + 1) % 0x1_0000_0000_0000_0000,
{
    let r = tokens.next;
    tokens.next = tokens.next.wrapping_add(1);
    r
}

/// The recipients of a message: one peer, or a set of them.
#[derive(Debug)]
pub enum Peers {
    Single(Peer),
    Multiple(Vec<Peer>),
}

impl Peers {
    /// The recipients, one by one.
    pub fn get(&self) -> (r: Vec<Peer>)
        ensures
            self matches Peers::Single(p) ==> r@ == seq![*p],
            self matches Peers::Multiple(ps) ==> r@ == ps@,
    {
        match self {
            Peers::Single(peer) => {
                let mut v: Vec<Peer> = Vec::new();
                v.push(*peer);
                v
            },
            Peers::Multiple(peers) => {
                let mut v: Vec<Peer> = Vec::new();
                let mut i: usize = 0;
                while i < peers.len()
                    invariant
                        i <= peers@.len(),
                        v@ == peers@.subrange(0, i as int),
                    decreases peers@.len() - i,
                {
                    v.push(peers[i]);
                    i = i + 1;
                }
                assert(v@ =~= peers@);
                v
            },
        }
    }
}

} // verus!
