use vstd::prelude::*;

verus! {

/// Credit state of one connection, in the sender-side direction and the
/// receiver-side direction.
///
/// `grant_inbox` and `grant_outbox` model the two small registered memory
/// cells exchanged during connection setup: the peer deposits new send
/// credits into our inbox with a one-sided write, and we publish the number
/// of freshly posted receives into the outbox for transmission to the peer.
pub struct ControlFlow {
    /// Receive slots the peer currently guarantees to us.
    pub send_credits: u64,
    /// Receive slots we have posted whose completion we have not observed.
    pub recv_posted: u64,
    /// Credits the peer has granted since we last acknowledged the cell.
    pub grant_inbox: u64,
    /// Freshly granted credits not yet transmitted to the peer.
    pub grant_outbox: u64,
}

impl ControlFlow {
    /// Credit state right after connection setup: nothing posted, nothing
    /// granted in either direction.
    pub fn new() -> (r: ControlFlow)
        ensures
            r.send_credits == 0,
            r.recv_posted == 0,
            r.grant_inbox == 0,
            r.grant_outbox == 0,
    {
        ControlFlow { send_credits: 0, recv_posted: 0, grant_inbox: 0, grant_outbox: 0 }
    }

    /// Current known credits toward the peer.
    pub fn remaining_send_credits(&self) -> (r: u64)
        ensures
            r == self.send_credits,
    {
        self.send_credits
    }

    /// Called by the push pipeline after posting `n` sends. A send is never
    /// posted without a credit, so the count cannot go below zero.
    pub fn consume_send_credits(&mut self, n: u64)
        requires
            n <= old(self).send_credits,
        ensures
            final(self).send_credits == old(self).send_credits - n,
            final(self).recv_posted == old(self).recv_posted,
            final(self).grant_inbox == old(self).grant_inbox,
            final(self).grant_outbox == old(self).grant_outbox,
    {
        self.send_credits = self.send_credits - n;
    }

    /// Non-destructive read of the inbox cell: how many additional credits
    /// the peer has granted since the last acknowledgment.
    pub fn peer_granted_credits(&self) -> (r: u64)
        ensures
            r == self.grant_inbox,
    {
        self.grant_inbox
    }

    /// Zero the inbox cell, logically consuming the grant.
    pub fn acknowledge_peer_grant(&mut self)
        ensures
            final(self).grant_inbox == 0,
            final(self).send_credits == old(self).send_credits,
            final(self).recv_posted == old(self).recv_posted,
            final(self).grant_outbox == old(self).grant_outbox,
    {
        self.grant_inbox = 0;
    }

    /// The push pipeline's credit step: with the local count exhausted, adopt
    /// whatever the peer has granted as the new local count and acknowledge.
    pub fn adopt_peer_grant(&mut self)
        requires
            old(self).send_credits == 0,
        ensures
            final(self).send_credits == old(self).grant_inbox,
            final(self).grant_inbox == 0,
            final(self).recv_posted == old(self).recv_posted,
            final(self).grant_outbox == old(self).grant_outbox,
    {
        self.send_credits = self.grant_inbox;
        self.grant_inbox = 0;
    }

    /// How many receives are currently posted and not yet completed.
    pub fn remaining_recv_credits(&self) -> (r: u64)
        ensures
            r == self.recv_posted,
    {
        self.recv_posted
    }

    /// Called by the recv-refill pipeline after posting `n` receives; also
    /// publishes `n` into the outbox cell so the peer learns of the grant.
    pub fn add_recv_credits(&mut self, n: u64)
        requires
            old(self).recv_posted + n <= u64::MAX,
            old(self).grant_outbox + n <= u64::MAX,
        ensures
            final(self).recv_posted == old(self).recv_posted + n,
            final(self).grant_outbox == old(self).grant_outbox + n,
            final(self).send_credits == old(self).send_credits,
            final(self).grant_inbox == old(self).grant_inbox,
    {
        self.recv_posted = self.recv_posted + n;
        self.grant_outbox = self.grant_outbox + n;
    }

    /// Called by the completion pipeline when `n` receive work requests have
    /// completed.
    pub fn consume_recv_credits(&mut self, n: u64)
        requires
            n <= old(self).recv_posted,
        ensures
            final(self).recv_posted == old(self).recv_posted - n,
            final(self).send_credits == old(self).send_credits,
            final(self).grant_inbox == old(self).grant_inbox,
            final(self).grant_outbox == old(self).grant_outbox,
    {
        self.recv_posted = self.recv_posted - n;
    }

    /// Drain the outbox cell for transmission; the caller turns the value
    /// into a credit grant carried to the peer.
    pub fn take_outbox(&mut self) -> (r: u64)
        ensures
            r == old(self).grant_outbox,
            final(self).grant_outbox == 0,
            final(self).send_credits == old(self).send_credits,
            final(self).recv_posted == old(self).recv_posted,
            final(self).grant_inbox == old(self).grant_inbox,
    {
        let r = self.grant_outbox;
        self.grant_outbox = 0;
        r
    }

    /// The peer's one-sided write landing in our inbox cell: `n` more send
    /// credits are available to adopt.
    pub fn receive_peer_grant(&mut self, n: u64)
        requires
            old(self).grant_inbox + n <= u64::MAX,
        ensures
            final(self).grant_inbox == old(self).grant_inbox + n,
            final(self).send_credits == old(self).send_credits,
            final(self).recv_posted == old(self).recv_posted,
            final(self).grant_outbox == old(self).grant_outbox,
    {
        self.grant_inbox = self.grant_inbox + n;
    }
}

} // verus!
