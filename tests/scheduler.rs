use sn_node::cmds::{failed_send_cmds, next_timer_token, Cmd, CmdJob, Peers, SendOutcome, TimerTokens};
use sn_node::keys::SectionKey;
use sn_node::sap::{Peer, PeerAddr};
use sn_node::scheduler::{CmdQueue, QueueError};
use sn_node::wire::{Dst, MsgKind, WireMsg};
use sn_node::xor_space::XorName;

fn wire(priority: i32) -> WireMsg {
    WireMsg {
        msg_id: [0; 16],
        kind: MsgKind::Client { name: XorName([5; 32]) },
        dst: Dst {
            name: XorName([1; 32]),
            section_key: SectionKey([2; 48]),
        },
        priority,
        payload: vec![],
    }
}

fn peer(b: u8) -> Peer {
    Peer {
        name: XorName([b; 32]),
        addr: PeerAddr { ip: [0; 16], port: 1 },
    }
}

#[test]
fn cmd_priorities_follow_the_table() {
    assert_eq!(Cmd::ProposeOffline(vec![]).priority(), 10);
    assert_eq!(Cmd::HandlePeerLost(peer(1)).priority(), 10);
    assert_eq!(Cmd::HandleDkgTimeout(3).priority(), 9);
    assert_eq!(Cmd::EnqueueDataForReplication { recipient: peer(1), data_batch: vec![] }.priority(), 9);
    assert_eq!(Cmd::ScheduleDkgTimeout { duration_ms: 5, token: 1 }.priority(), 8);
    assert_eq!(Cmd::TestConnectivity(XorName([0; 32])).priority(), 8);
    assert_eq!(Cmd::SendMsg { recipients: vec![], wire_msg: wire(-3) }.priority(), -3);
    assert_eq!(Cmd::HandleMsg { sender: peer(2), wire_msg: wire(6) }.priority(), 6);
    assert_eq!(Cmd::CleanupPeerLinks.priority(), -10);
    assert_eq!(Cmd::CleanupPeerLinks.describe(), "CleanupPeerLinks");
}

#[test]
fn queue_pops_highest_priority_first_and_keeps_fifo_among_equals() {
    let mut q = CmdQueue::new(10);
    q.push(CmdJob::new(1, Cmd::CleanupPeerLinks, 100)).unwrap();
    q.push(CmdJob::new(2, Cmd::HandleDkgTimeout(1), 101)).unwrap();
    q.push(CmdJob::new(3, Cmd::ProposeOffline(vec![]), 102)).unwrap();
    q.push(CmdJob::new(4, Cmd::HandleDkgTimeout(2), 103)).unwrap();
    q.push(CmdJob::new(5, Cmd::HandlePeerLost(peer(1)), 104)).unwrap();
    let order: Vec<u64> = std::iter::from_fn(|| q.pop().map(|j| j.id())).collect();
    assert_eq!(order, vec![3, 5, 2, 4, 1]);
    assert!(q.is_empty());
    assert!(q.pop().is_none());
}

#[test]
fn queue_refuses_jobs_beyond_capacity() {
    let mut q = CmdQueue::new(1);
    assert!(q.push(CmdJob::new(1, Cmd::CleanupPeerLinks, 0)).is_ok());
    assert_eq!(q.push(CmdJob::new(2, Cmd::CleanupPeerLinks, 0)).err(), Some(QueueError::Full));
    assert_eq!(q.len(), 1);
}

#[test]
fn cmd_job_takes_the_cmd_priority() {
    let job = CmdJob::new(42, Cmd::StartConnectivityTest(XorName([1; 32])), 7);
    assert_eq!(job.priority(), 8);
    assert_eq!(job.id(), 42);
    assert_eq!(job.created_at(), 7);
    assert!(matches!(job.cmd(), Cmd::StartConnectivityTest(_)));
}

#[test]
fn timer_tokens_count_up_and_wrap() {
    let mut t = TimerTokens::new();
    assert_eq!(next_timer_token(&mut t), 0);
    assert_eq!(next_timer_token(&mut t), 1);
    t.next = u64::MAX;
    assert_eq!(next_timer_token(&mut t), u64::MAX);
    assert_eq!(t.next, 0);
}

#[test]
fn peers_get_lists_recipients() {
    assert_eq!(Peers::Single(peer(1)).get().len(), 1);
    let ps = Peers::Multiple(vec![peer(1), peer(2), peer(3)]).get();
    assert_eq!(ps.iter().map(|p| p.name.0[0]).collect::<Vec<_>>(), vec![1, 2, 3]);
}

#[test]
fn failed_sends_become_fault_reports() {
    let outcomes = vec![SendOutcome::Sent, SendOutcome::FailedSend(peer(4)), SendOutcome::Other, SendOutcome::FailedSend(peer(6))];
    let cmds = failed_send_cmds([5; 16], &outcomes);
    assert_eq!(cmds.len(), 2);
    assert!(matches!(cmds[0], Cmd::HandleFailedSendToNode { peer, msg_id } if peer.name.0[0] == 4 && msg_id == [5; 16]));
    assert!(matches!(cmds[1], Cmd::HandleFailedSendToNode { peer, .. } if peer.name.0[0] == 6));
    assert_eq!(cmds[0].priority(), 9);
    assert!(failed_send_cmds([0; 16], &vec![SendOutcome::Sent]).is_empty());
}
