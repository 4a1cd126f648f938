//! The session manager that connects to peers and drives a media session,
//! and the values the user interface shows.
use vstd::prelude::*;
use crate::discovery::{peer_label, Peer, PeerView};
use crate::net::{lemma_socket_text_trimmed, SocketAddress};
use crate::render::PixelBuffer;
use crate::sankaku::{SankakuStreamStats, SankakuTelemetry, VideoFrame};
use crate::session::{shows, MediaProvider};
use crate::text::{decimal, push_decimal};

verus! {

pub struct ReceiverLoopState {
    pub bound_port: u16,
    pub accepted_peer: Option<SocketAddress>,
}

pub struct SenderLoopState {
    pub target_peer: Option<SocketAddress>,
}

/// Connects to peers and drives a media session.
pub struct SessionManager<M> {
    pub media_provider: M,
    pub connected_peer: Option<Peer>,
    pub receiver_loop: ReceiverLoopState,
    pub sender_loop: SenderLoopState,
}

pub open spec fn opt_peer(p: Option<Peer>) -> Option<PeerView> {
    match p {
        Some(q) => Some(q@),
        None => None,
    }
}

impl<M: MediaProvider> SessionManager<M> {
    pub open spec fn wf(&self) -> bool {
        self.media_provider.inv()
    }

    /// The provider can poll its remote frame without overflow.
    pub open spec fn poll_budget(&self) -> bool {
        self.media_provider.poll_budget()
    }

    /// The provider can capture a frame without overflow.
    pub open spec fn capture_budget(&self) -> bool {
        self.media_provider.capture_budget()
    }

    /// A capture at `timestamp_us` followed by sending what it returned takes
    /// the provider from `self` to `after`: some capture step returns `r`,
    /// then a returned frame is sent and nothing else happens.
    pub open spec fn captured_and_sent(self, after: M, timestamp_us: u64) -> bool {
        exists|mid: M, r: Option<VideoFrame>|
            #[trigger] self.media_provider.capture_step(mid, timestamp_us, r) && match r {
                Some(f) => mid.send_step(after, f),
                None => after == mid,
            }
    }

    /// A manager of `media_provider`, receiving on the provider's port and
    /// connected to no peer.
    pub fn new(media_provider: M) -> (r: Self)
        requires
            media_provider.inv(),
        ensures
            r.wf(),
            r.media_provider == media_provider,
            r.receiver_loop.bound_port == media_provider.receiver_port(),
            r.receiver_loop.accepted_peer is None,
            r.sender_loop.target_peer is None,
            r.connected_peer is None,
    {
        let bound_port = media_provider.local_receiver_port();
        SessionManager {
            media_provider,
            connected_peer: None,
            receiver_loop: ReceiverLoopState { bound_port, accepted_peer: None },
            sender_loop: SenderLoopState { target_peer: None },
        }
    }

    pub fn has_poll_budget(&self) -> (r: bool)
        requires
            self.wf(),
        ensures
            r == self.poll_budget(),
    {
        self.media_provider.has_poll_budget()
    }

    pub fn has_capture_budget(&self) -> (r: bool)
        requires
            self.wf(),
        ensures
            r == self.capture_budget(),
    {
        self.media_provider.has_capture_budget()
    }

    /// Connects the media session to `peer`'s address and makes it the peer
    /// that frames are sent to and accepted from. A peer's address always
    /// reads as a non-empty address, so this succeeds.
    pub fn connect_peer(&mut self, peer: Peer) -> (r: Result<(), String>)
        requires
            old(self).wf(),
        ensures
            final(self).wf(),
            r is Ok,
            final(self).media_provider.connected_to() == Some(peer@.addr.text()),
            final(self).media_provider.receiver_port() == old(self).media_provider.receiver_port(),
            final(self).media_provider.video_on() == old(self).media_provider.video_on(),
            final(self).media_provider.audio_off() == old(self).media_provider.audio_off(),
            final(self).sender_loop.target_peer == Some(peer@.addr),
            final(self).receiver_loop.accepted_peer == Some(peer@.addr),
            final(self).receiver_loop.bound_port == old(self).receiver_loop.bound_port,
            opt_peer(final(self).connected_peer) == Some(peer@),
    {
        let text = peer.addr.to_text();
        proof {
            lemma_socket_text_trimmed(peer.addr);
        }
        match self.media_provider.connect(text.as_str()) {
            Ok(()) => {},
            Err(e) => {
                return Err(e);
            },
        }
        self.sender_loop.target_peer = Some(peer.addr);
        self.receiver_loop.accepted_peer = Some(peer.addr);
        self.connected_peer = Some(peer);
        Ok(())
    }

    /// The latest remote frame: the media session is polled, and the result
    /// is a copy of its remote image after the poll.
    pub fn poll_remote_frame(&mut self) -> (r: Option<PixelBuffer>)
        requires
            old(self).wf(),
            old(self).poll_budget(),
        ensures
            final(self).wf(),
            old(self).media_provider.poll_step(final(self).media_provider),
            shows(r, final(self).media_provider.remote_image()),
            final(self).media_provider.connected_to() == old(self).media_provider.connected_to(),
            final(self).media_provider.video_on() == old(self).media_provider.video_on(),
            final(self).media_provider.audio_off() == old(self).media_provider.audio_off(),
            final(self).receiver_loop == old(self).receiver_loop,
            final(self).sender_loop == old(self).sender_loop,
            final(self).connected_peer == old(self).connected_peer,
            r matches Some(b) ==> b.wf(),
    {
        self.media_provider.poll_frame()
    }

    /// The latest local preview: the media session is polled, and the result
    /// is a copy of its preview image after the poll.
    pub fn poll_local_preview(&mut self) -> (r: Option<PixelBuffer>)
        requires
            old(self).wf(),
        ensures
            final(self).wf(),
            old(self).media_provider.preview_step(final(self).media_provider),
            shows(r, final(self).media_provider.preview_image()),
            final(self).media_provider.connected_to() == old(self).media_provider.connected_to(),
            final(self).media_provider.video_on() == old(self).media_provider.video_on(),
            final(self).media_provider.audio_off() == old(self).media_provider.audio_off(),
            final(self).media_provider.telemetry_now() == old(self).media_provider.telemetry_now(),
            final(self).poll_budget() == old(self).poll_budget(),
            final(self).capture_budget() == old(self).capture_budget(),
            final(self).receiver_loop == old(self).receiver_loop,
            final(self).sender_loop == old(self).sender_loop,
            final(self).connected_peer == old(self).connected_peer,
            r matches Some(b) ==> b.wf(),
    {
        self.media_provider.poll_local_preview()
    }

    /// Captures a local frame taken at `timestamp_us` and, if there is one,
    /// sends it. With video stopped nothing is sent and the transmit
    /// statistics are zero.
    pub fn capture_and_broadcast(&mut self, timestamp_us: u64)
        requires
            old(self).wf(),
            old(self).media_provider.video_on() ==> old(self).capture_budget(),
        ensures
            final(self).wf(),
            old(self).captured_and_sent(final(self).media_provider, timestamp_us),
            final(self).receiver_loop == old(self).receiver_loop,
            final(self).sender_loop == old(self).sender_loop,
            final(self).connected_peer == old(self).connected_peer,
            final(self).media_provider.video_on() == old(self).media_provider.video_on(),
            final(self).media_provider.connected_to() == old(self).media_provider.connected_to(),
            !old(self).media_provider.video_on() ==> {
                &&& final(self).media_provider.telemetry_now().tx_stats
                    == SankakuStreamStats::zero()
                &&& final(self).media_provider.telemetry_now().udp_tx_dropped == 0
            },
    {
        let ghost before = self.media_provider;
        let captured = self.media_provider.capture_local_frame(timestamp_us);
        let ghost mid = self.media_provider;
        let ghost r = captured;
        match captured {
            Some(frame) => self.media_provider.broadcast_frame(frame),
            None => {},
        }
        assert(before.capture_step(mid, timestamp_us, r));
        assert(old(self).captured_and_sent(self.media_provider, timestamp_us));
    }

    pub fn telemetry(&self) -> (r: SankakuTelemetry)
        ensures
            r == self.media_provider.telemetry_now(),
    {
        self.media_provider.get_telemetry()
    }

    pub fn set_audio_muted(&mut self, muted: bool)
        requires
            old(self).wf(),
        ensures
            final(self).wf(),
            final(self).media_provider.audio_off() == muted,
            final(self).media_provider.video_on() == old(self).media_provider.video_on(),
            final(self).poll_budget() == old(self).poll_budget(),
            final(self).capture_budget() == old(self).capture_budget(),
            final(self).receiver_loop == old(self).receiver_loop,
            final(self).sender_loop == old(self).sender_loop,
            final(self).connected_peer == old(self).connected_peer,
    {
        self.media_provider.set_audio_muted(muted);
    }

    pub fn set_video_enabled(&mut self, enabled: bool)
        requires
            old(self).wf(),
        ensures
            final(self).wf(),
            final(self).media_provider.video_on() == enabled,
            final(self).media_provider.audio_off() == old(self).media_provider.audio_off(),
            final(self).poll_budget() == old(self).poll_budget(),
            final(self).capture_budget() == old(self).capture_budget(),
            final(self).receiver_loop == old(self).receiver_loop,
            final(self).sender_loop == old(self).sender_loop,
            final(self).connected_peer == old(self).connected_peer,
    {
        self.media_provider.set_video_enabled(enabled);
    }
}

// ---------------------------------------------------------------------------
// Values shown in the user interface
// ---------------------------------------------------------------------------

/// The peer list selection after the list is replaced: `-1` for an empty
/// list, `0` when the old selection is outside the list, otherwise no change
/// (`None`). The count is taken as `i32`, as the list model does.
pub open spec fn selection_after(selected: i32, count: i32) -> Option<i32> {
    if count == 0 {
        Some(-1i32)
    } else if selected < 0 || selected >= count {
        Some(0)
    } else {
        None
    }
}

/// The new selection of the peer list, if it changes.
pub fn adjusted_selection(selected: i32, peer_count: usize) -> (r: Option<i32>)
    ensures
        r == selection_after(selected, peer_count as i32),
{
    let count = #[verifier::truncate] (peer_count as i32);
    if count == 0 {
        Some(-1)
    } else if selected < 0 || selected >= count {
        Some(0)
    } else {
        None
    }
}

/// The labels of `peers`, in order.
pub fn peer_labels(peers: &Vec<Peer>) -> (r: Vec<String>)
    ensures
        r@.len() == peers@.len(),
        forall|i: int| 0 <= i < r@.len() ==> #[trigger] r@[i]@ == peer_label(peers@[i]@),
{
    let mut r: Vec<String> = Vec::new();
    let mut i: usize = 0;
    while i < peers.len()
        invariant
            i <= peers@.len(),
            r@.len() == i,
            forall|j: int| 0 <= j < i ==> #[trigger] r@[j]@ == peer_label(peers@[j]@),
        decreases peers@.len() - i,
    {
        r.push(peers[i].label());
        i = i + 1;
    }
    r
}

/// A time in milliseconds as shown: `Waiting` while it is zero, else the
/// number followed by `ms`.
pub open spec fn ms_text(v: u64) -> Seq<char> {
    if v == 0 {
        "Waiting"@
    } else {
        decimal(v as nat) + "ms"@
    }
}

pub fn ms_label(v: u64) -> (r: String)
    ensures
        r@ == ms_text(v),
{
    if v == 0 {
        "Waiting".to_owned()
    } else {
        let mut r = String::new();
        push_decimal(&mut r, v);
        r.append("ms");
        assert(r@ =~= ms_text(v));
        r
    }
}

} // verus!
