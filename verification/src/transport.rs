use vstd::prelude::*;
use crate::args::Protocol;

verus! {

/// Error returned by a transport send.
#[derive(Clone, Copy, Debug, PartialEq, Eq, Structural)]
pub enum TransportError {
    /// A stream message longer than 65535 bytes cannot carry a 2-byte length
    /// prefix.
    TooLong,
    /// The underlying write failed; the link is broken and stays broken.
    Broken,
}

/// The ordered writes a transport issues for one message. A connectionless
/// transport sends the message as one datagram. A connection-oriented
/// transport first writes the message length as two big-endian bytes, then
/// the payload, as two ordered writes; a message over 65535 bytes is refused.
pub open spec fn spec_frames(p: Protocol, msg: Seq<u8>) -> Result<Seq<Seq<u8>>, TransportError> {
    match p {
        Protocol::Udp => Ok(seq![msg]),
        Protocol::Tcp => if msg.len() <= 65535 {
            Ok(seq![seq![(msg.len() / 256) as u8, (msg.len() % 256) as u8], msg])
        } else {
            Err(TransportError::TooLong)
        },
    }
}

/// Compute the ordered writes for one message over the given transport.
pub fn frame_message(p: Protocol, msg: &Vec<u8>) -> (r: Result<Vec<Vec<u8>>, TransportError>)
    ensures
        r is Ok <==> spec_frames(p, msg@) is Ok,
        r is Ok ==> r.unwrap().deep_view() == spec_frames(p, msg@).unwrap(),
        r is Err ==> r == Err::<Vec<Vec<u8>>, TransportError>(spec_frames(p, msg@)->Err_0),
{
    match p {
        Protocol::Udp => {
            let mut frames: Vec<Vec<u8>> = Vec::new();
            frames.push(msg.clone());
            assert(frames.deep_view() =~~= spec_frames(p, msg@).unwrap());
            Ok(frames)
        },
        Protocol::Tcp => {
            let n = msg.len();
            if n > 65535 {
                Err(TransportError::TooLong)
            } else {
                let mut prefix: Vec<u8> = Vec::new();
                prefix.push((n / 256) as u8);
                prefix.push((n % 256) as u8);
                let mut frames: Vec<Vec<u8>> = Vec::new();
                frames.push(prefix);
                frames.push(msg.clone());
                assert(frames.deep_view() =~~= spec_frames(p, msg@).unwrap());
                Ok(frames)
            }
        },
    }
}

/// A transport endpoint that records every write it issues, in order, instead
/// of touching a network: the observable face of the send path. A test may
/// schedule the `k`-th send call to fail, standing in for a broken link.
#[derive(Debug)]
pub struct RecordingLink {
    /// Which transport's framing this link applies.
    pub protocol: Protocol,
    /// Every write issued so far, oldest first.
    pub writes: Vec<Vec<u8>>,
    /// How many send calls have been made.
    pub attempts: usize,
    /// The index of the send call that fails with a broken link, if any.
    pub fail_at: Option<usize>,
}

/// Whether the send call numbered `attempt` fails on a link that breaks at
/// `fail_at`.
pub open spec fn send_breaks(fail_at: Option<usize>, attempt: int) -> bool {
    match fail_at {
        Some(k) => attempt == k,
        None => false,
    }
}

impl RecordingLink {
    /// A fresh link that never fails.
    pub fn new(protocol: Protocol) -> (l: RecordingLink)
        ensures
            l.protocol == protocol,
            l.writes@ =~= Seq::<Vec<u8>>::empty(),
            l.attempts == 0,
            l.fail_at is None,
    {
        RecordingLink { protocol, writes: Vec::new(), attempts: 0, fail_at: None }
    }

    /// A fresh link whose send call numbered `fail_at` (counting from zero)
    /// fails with a broken link.
    pub fn failing_at(protocol: Protocol, fail_at: usize) -> (l: RecordingLink)
        ensures
            l.protocol == protocol,
            l.writes@ =~= Seq::<Vec<u8>>::empty(),
            l.attempts == 0,
            l.fail_at == Some(fail_at),
    {
        RecordingLink { protocol, writes: Vec::new(), attempts: 0, fail_at: Some(fail_at) }
    }

    /// Send one message: frame it for this link's transport and issue the
    /// resulting writes in order. An oversized stream message is refused; a
    /// send scheduled to fail records nothing and reports the link broken.
    pub fn send(&mut self, msg: &Vec<u8>) -> (r: Result<(), TransportError>)
        requires
            old(self).attempts < usize::MAX,
        ensures
            final(self).protocol == old(self).protocol,
            final(self).fail_at == old(self).fail_at,
            final(self).attempts == old(self).attempts + 1,
            match spec_frames(old(self).protocol, msg@) {
                Err(e) => r == Err::<(), TransportError>(e) && final(self).writes@ == old(
                    self,
                ).writes@,
                Ok(fs) => if send_breaks(old(self).fail_at, old(self).attempts as int) {
                    r == Err::<(), TransportError>(TransportError::Broken) && final(self).writes@
                        == old(self).writes@
                } else {
                    r == Ok::<(), TransportError>(()) && final(self).writes.deep_view() == old(
                        self,
                    ).writes.deep_view() + fs
                },
            },
    {
        let attempt = self.attempts;
        self.attempts = self.attempts + 1;
        let frames = match frame_message(self.protocol, msg) {
            Ok(fs) => fs,
            Err(e) => {
                return Err(e);
            },
        };
        let broken = match self.fail_at {
            Some(k) => attempt == k,
            None => false,
        };
        if broken {
            return Err(TransportError::Broken);
        }
        let ghost w0 = self.writes.deep_view();
        let ghost fs = frames.deep_view();
        let n = frames.len();
        let mut i: usize = 0;
        while i < n
            invariant
                0 <= i <= n,
                n == fs.len(),
                n == frames.len(),
                frames.deep_view() == fs,
                self.protocol == old(self).protocol,
                self.fail_at == old(self).fail_at,
                self.attempts == old(self).attempts + 1,
                self.writes.deep_view() =~= w0 + fs.take(i as int),
            decreases n - i,
        {
            let ghost before = self.writes.deep_view();
            let frame = frames[i].clone();
            assert(frame@ == fs[i as int]);
            self.writes.push(frame);
            proof {
                assert(self.writes.deep_view() =~= before.push(fs[i as int]));
                assert(before.push(fs[i as int]) =~= w0 + fs.take(i + 1));
            }
            i = i + 1;
        }
        assert(fs.take(n as int) =~= fs);
        Ok(())
    }
}

} // verus!
