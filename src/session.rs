//! The shared session record and the connection manager's decisions over
//! it. Each transition takes the whole record, so no reader can see one
//! field updated and another stale. Sockets, queues and discovery sessions
//! are driven by the caller, which performs what a transition asks for and
//! reports back what happened.
use vstd::prelude::*;

use crate::error::SyncError;
use crate::message::{decode, encode, encode_spec, Message, MessageView};
use crate::peers::Peer;

verus! {

/// Which side of a link this process is.
#[derive(Clone, Copy, Debug, PartialEq, Eq, Structural)]
pub enum Role {
    /// Accepted the connection; learns the peer's name from its `Hello`.
    Host,
    /// Dialed the connection; knows the peer by the address it dialed.
    Client,
}

/// What the frontend is told.
#[derive(Clone, Debug, PartialEq, Eq)]
pub enum AppEvent {
    Connected { name: String },
    Disconnected,
    Peers { peers: Vec<Peer> },
    RemoteClipboard { text: String },
    RemoteFile { name: String, data: String },
    BringToFront,
}

/// Mathematical model of a [`SyncState`].
pub struct SessionView {
    pub hosting: bool,
    pub browsing: bool,
    /// The live link, read until it closes.
    pub link: Option<Role>,
    /// The side whose outbound queue takes sends, while it is held.
    pub outbound: Option<Role>,
    pub peer_name: Option<Seq<char>>,
}

/// What is currently running: the hosting and browsing activities, the
/// single live link, if any, its outbound handle and the peer's name.
pub struct SyncState {
    hosting: bool,
    browsing: bool,
    link: Option<Role>,
    outbound: Option<Role>,
    peer_name: Option<String>,
}

/// A peer name is only known while a link is up, and an outbound handle
/// belongs to the live link.
pub open spec fn session_wf(s: SessionView) -> bool {
    &&& s.peer_name is Some ==> s.link is Some
    &&& s.outbound is Some ==> s.outbound == s.link
}

/// Starting to host: refused while hosting, else hosting is on.
pub open spec fn start_host_spec(s: SessionView) -> (SessionView, Result<(), ()>) {
    if s.hosting {
        (s, Err(()))
    } else {
        (SessionView { hosting: true, ..s }, Ok(()))
    }
}

/// Starting to browse: a no-op while browsing; the flag tells whether a
/// new scan is to be started.
pub open spec fn start_browse_spec(s: SessionView) -> (SessionView, bool) {
    (SessionView { browsing: true, ..s }, !s.browsing)
}

/// The link is gone: no link, no outbound handle and no peer name.
pub open spec fn without_link(s: SessionView) -> SessionView {
    SessionView { link: None, outbound: None, peer_name: None, ..s }
}

/// Whether a send finds a handle: the role whose queue takes the message.
pub open spec fn route_spec(s: SessionView) -> Option<Role> {
    s.outbound
}

/// Hosting is off and the host's outbound handle is dropped; the link's
/// reading side and the peer name stay until the link closes.
pub open spec fn stop_host_spec(s: SessionView) -> SessionView {
    SessionView {
        hosting: false,
        outbound: if s.outbound == Some(Role::Host) {
            None
        } else {
            s.outbound
        },
        ..s
    }
}

/// What an inbound message does on the side `role`: the new record and the
/// event for the frontend.
pub open spec fn receive_spec(s: SessionView, role: Role, m: MessageView) -> (
    SessionView,
    Option<AppEventView>,
) {
    match m {
        MessageView::Hello { name } => if role == Role::Host && s.link == Some(Role::Host) {
            (SessionView { peer_name: Some(name), ..s }, Some(AppEventView::Connected { name }))
        } else {
            (s, None)
        },
        MessageView::Clipboard { text } => (s, Some(AppEventView::RemoteClipboard { text })),
        MessageView::File { name, data } => (s, Some(AppEventView::RemoteFile { name, data })),
        MessageView::BringToFront => (s, Some(AppEventView::BringToFront)),
    }
}

/// Mathematical model of the events that carry no peer list.
pub enum AppEventView {
    Connected { name: Seq<char> },
    Disconnected,
    Peers,
    RemoteClipboard { text: Seq<char> },
    RemoteFile { name: Seq<char>, data: Seq<char> },
    BringToFront,
}

impl View for AppEvent {
    type V = AppEventView;

    open spec fn view(&self) -> AppEventView {
        match self {
            AppEvent::Connected { name } => AppEventView::Connected { name: name@ },
            AppEvent::Disconnected => AppEventView::Disconnected,
            AppEvent::Peers { .. } => AppEventView::Peers,
            AppEvent::RemoteClipboard { text } => AppEventView::RemoteClipboard { text: text@ },
            AppEvent::RemoteFile { name, data } => AppEventView::RemoteFile {
                name: name@,
                data: data@,
            },
            AppEvent::BringToFront => AppEventView::BringToFront,
        }
    }
}

fn opt_view(o: &Option<String>) -> (r: Option<String>)
    ensures
        match o {
            Some(s) => r is Some && r->Some_0@ == s@,
            None => r is None,
        },
{
    match o {
        Some(s) => Some(s.clone()),
        None => None,
    }
}

impl View for SyncState {
    type V = SessionView;

    closed spec fn view(&self) -> SessionView {
        SessionView {
            hosting: self.hosting,
            browsing: self.browsing,
            link: self.link,
            outbound: self.outbound,
            peer_name: match self.peer_name {
                Some(s) => Some(s@),
                None => None,
            },
        }
    }
}

impl SyncState {
    /// An idle session: nothing running, no link.
    pub fn new() -> (r: SyncState)
        ensures
            session_wf(r@),
            r@ == (SessionView {
                hosting: false,
                browsing: false,
                link: None,
                outbound: None,
                peer_name: None,
            }),
    {
        SyncState { hosting: false, browsing: false, link: None, outbound: None, peer_name: None }
    }

    pub fn is_hosting(&self) -> (r: bool)
        ensures
            r == self@.hosting,
    {
        self.hosting
    }

    pub fn is_browsing(&self) -> (r: bool)
        ensures
            r == self@.browsing,
    {
        self.browsing
    }

    /// The role whose outbound queue takes sends, if any.
    pub fn outbound(&self) -> (r: Option<Role>)
        ensures
            r == self@.outbound,
    {
        self.outbound
    }

    /// The role of the live link, if any.
    pub fn link(&self) -> (r: Option<Role>)
        ensures
            r == self@.link,
    {
        self.link
    }

    /// The name of the connected peer, once known.
    pub fn peer_name(&self) -> (r: Option<String>)
        ensures
            match r {
                Some(s) => self@.peer_name == Some(s@),
                None => self@.peer_name is None,
            },
    {
        opt_view(&self.peer_name)
    }

    /// Turns hosting on; fails with `AlreadyActive`, changing nothing, when
    /// it is already on. The caller then binds and advertises, and calls
    /// [`SyncState::host_setup_failed`] if either fails.
    pub fn start_host(&mut self) -> (r: Result<(), SyncError>)
        requires
            session_wf(old(self)@),
        ensures
            session_wf(final(self)@),
            final(self)@ == start_host_spec(old(self)@).0,
            r is Ok <==> start_host_spec(old(self)@).1 is Ok,
            r is Err ==> r->Err_0 is AlreadyActive,
    {
        if self.hosting {
            Err(SyncError::AlreadyActive)
        } else {
            self.hosting = true;
            Ok(())
        }
    }

    /// Rolls back a start of hosting whose bind or advertisement failed,
    /// and hands the failure back.
    pub fn host_setup_failed(&mut self, e: SyncError) -> (r: SyncError)
        requires
            session_wf(old(self)@),
        ensures
            session_wf(final(self)@),
            final(self)@ == (SessionView { hosting: false, ..old(self)@ }),
            r == e,
    {
        self.hosting = false;
        e
    }

    /// Turns hosting off and drops the host's outbound handle. A host link
    /// that is still being read stays, with its peer name, until it closes.
    /// Always succeeds.
    pub fn stop_host(&mut self)
        requires
            session_wf(old(self)@),
        ensures
            session_wf(final(self)@),
            final(self)@ == stop_host_spec(old(self)@),
    {
        self.hosting = false;
        if self.outbound == Some(Role::Host) {
            self.outbound = None;
        }
    }

    /// Turns browsing on. Returns whether a new scan is to be started:
    /// never while one already runs.
    pub fn start_browse(&mut self) -> (r: bool)
        requires
            session_wf(old(self)@),
        ensures
            session_wf(final(self)@),
            (final(self)@, r) == start_browse_spec(old(self)@),
    {
        let fresh = !self.browsing;
        self.browsing = true;
        fresh
    }

    /// Rolls back a start of browsing whose discovery session failed.
    pub fn browse_setup_failed(&mut self, e: SyncError) -> (r: SyncError)
        requires
            session_wf(old(self)@),
        ensures
            session_wf(final(self)@),
            final(self)@ == (SessionView { browsing: false, ..old(self)@ }),
            r == e,
    {
        self.browsing = false;
        e
    }

    /// Turns browsing off; the scan loop stops when it sees the flag.
    pub fn stop_browse(&mut self)
        requires
            session_wf(old(self)@),
        ensures
            session_wf(final(self)@),
            final(self)@ == (SessionView { browsing: false, ..old(self)@ }),
    {
        self.browsing = false;
    }

    /// Installs the link accepted while hosting. Any previous link is gone;
    /// the peer's name is unknown until its `Hello` arrives.
    pub fn host_accepted(&mut self)
        requires
            session_wf(old(self)@),
        ensures
            session_wf(final(self)@),
            final(self)@ == (SessionView {
                link: Some(Role::Host),
                outbound: Some(Role::Host),
                peer_name: None,
                ..old(self)@
            }),
    {
        self.link = Some(Role::Host);
        self.outbound = Some(Role::Host);
        self.peer_name = None;
    }

    /// Installs the link just dialed to `host`, once its `Hello` is written:
    /// the peer is known by that address at once. Gives the event to report.
    pub fn client_connected(&mut self, host: String) -> (r: AppEvent)
        requires
            session_wf(old(self)@),
        ensures
            session_wf(final(self)@),
            final(self)@ == (SessionView {
                link: Some(Role::Client),
                outbound: Some(Role::Client),
                peer_name: Some(host@),
                ..old(self)@
            }),
            r@ == (AppEventView::Connected { name: host@ }),
    {
        let event = AppEvent::Connected { name: host.clone() };
        self.link = Some(Role::Client);
        self.outbound = Some(Role::Client);
        self.peer_name = Some(host);
        event
    }

    /// Handles one inbound frame on the side `role`. A record that does
    /// not decode is dropped with no event; a `Hello` names the peer only
    /// on the active host link.
    pub fn receive(&mut self, role: Role, frame: &str) -> (r: Option<AppEvent>)
        requires
            session_wf(old(self)@),
        ensures
            session_wf(final(self)@),
            match crate::message::decode_spec(frame@) {
                Ok(m) => final(self)@ == receive_spec(old(self)@, role, m).0 && match r {
                    Some(e) => receive_spec(old(self)@, role, m).1 == Some(e@),
                    None => receive_spec(old(self)@, role, m).1 is None,
                },
                Err(_) => final(self)@ == old(self)@ && r is None,
            },
    {
        match decode(frame) {
            Err(_) => None,
            Ok(Message::Hello { name }) => {
                if role == Role::Host && self.link == Some(Role::Host) {
                    let e = AppEvent::Connected { name: name.clone() };
                    self.peer_name = Some(name);
                    Some(e)
                } else {
                    None
                }
            },
            Ok(Message::Clipboard { text }) => Some(AppEvent::RemoteClipboard { text }),
            Ok(Message::File { name, data }) => Some(AppEvent::RemoteFile { name, data }),
            Ok(Message::BringToFront) => Some(AppEvent::BringToFront),
        }
    }

    /// The link on the side `role` has ended (closed, read error or write
    /// failure). If it is still the active link, it is cleared; a host's
    /// single accepted link ending also ends hosting.
    pub fn link_closed(&mut self, role: Role) -> (r: AppEvent)
        requires
            session_wf(old(self)@),
        ensures
            session_wf(final(self)@),
            final(self)@ == ({
                let s = if old(self)@.link == Some(role) {
                    without_link(old(self)@)
                } else {
                    old(self)@
                };
                if role == Role::Host {
                    SessionView { hosting: false, ..s }
                } else {
                    s
                }
            }),
            r@ == AppEventView::Disconnected,
    {
        if self.link == Some(role) {
            self.link = None;
            self.outbound = None;
            self.peer_name = None;
        }
        if role == Role::Host {
            self.hosting = false;
        }
        AppEvent::Disconnected
    }

    /// Drops whichever link is up, with its handle and peer name. Always
    /// succeeds, connected or not.
    pub fn disconnect(&mut self) -> (r: AppEvent)
        requires
            session_wf(old(self)@),
        ensures
            session_wf(final(self)@),
            final(self)@ == without_link(old(self)@),
            r@ == AppEventView::Disconnected,
    {
        self.link = None;
        self.outbound = None;
        self.peer_name = None;
        AppEvent::Disconnected
    }

    /// Encodes a message for the link: the role whose queue takes it and the
    /// record; `NotConnected` when no outbound handle is held.
    pub fn route(&self, m: &Message) -> (r: Result<(Role, String), SyncError>)
        ensures
            match route_spec(self@) {
                Some(role) => r is Ok && r->Ok_0.0 == role && r->Ok_0.1@ == encode_spec(m@),
                None => r is Err && r->Err_0 is NotConnected,
            },
    {
        match self.outbound {
            Some(role) => Ok((role, encode(m))),
            None => Err(SyncError::NotConnected),
        }
    }

    /// Clipboard text for the peer.
    pub fn send_clipboard(&self, text: String) -> (r: Result<(Role, String), SyncError>)
        ensures
            match route_spec(self@) {
                Some(role) => r is Ok && r->Ok_0.0 == role && r->Ok_0.1@ == encode_spec(
                    MessageView::Clipboard { text: text@ },
                ),
                None => r is Err && r->Err_0 is NotConnected,
            },
    {
        self.route(&Message::Clipboard { text })
    }

    /// The signal that brings the peer's window to the front.
    pub fn send_bring_to_front(&self) -> (r: Result<(Role, String), SyncError>)
        ensures
            match route_spec(self@) {
                Some(role) => r is Ok && r->Ok_0.0 == role && r->Ok_0.1@ == encode_spec(
                    MessageView::BringToFront,
                ),
                None => r is Err && r->Err_0 is NotConnected,
            },
    {
        self.route(&Message::BringToFront)
    }

    /// A file's content for the peer, whole, under `name`.
    pub fn send_file_bytes(&self, name: String, bytes: &[u8]) -> (r: Result<(Role, String), SyncError>)
        requires
            bytes@.len() <= usize::MAX / 2,
        ensures
            match route_spec(self@) {
                Some(role) => r is Ok && r->Ok_0.0 == role && r->Ok_0.1@ == encode_spec(
                    MessageView::File { name: name@, data: crate::payload::b64_of(bytes@) },
                ) && crate::payload::b64_decoded(crate::payload::b64_of(bytes@)) == Some(bytes@),
                None => r is Err && r->Err_0 is NotConnected,
            },
    {
        if self.outbound.is_none() {
            return Err(SyncError::NotConnected);
        }
        let m = crate::payload::file_message(name, bytes);
        self.route(&m)
    }
}

/// Maps whether the link's queue took a message to the send's result.
pub fn enqueue_result(accepted: bool) -> (r: Result<(), SyncError>)
    ensures
        accepted <==> r is Ok,
        r is Err ==> r->Err_0 is SendFailed,
{
    if accepted {
        Ok(())
    } else {
        Err(SyncError::SendFailed)
    }
}

/// Starting to host twice in a row: the second start is refused and leaves
/// the session that the first one started as it was.
pub proof fn lemma_start_host_twice(s: SessionView)
    ensures
        ({
            let (s1, r1) = start_host_spec(s);
            let (s2, r2) = start_host_spec(s1);
            &&& s1.hosting
            &&& r1 is Ok <==> !s.hosting
            &&& r2 is Err
            &&& s2 == s1
        }),
{
}

/// Starting to browse twice in a row: both succeed, the second starts no
/// new scan and changes nothing.
pub proof fn lemma_start_browse_twice(s: SessionView)
    ensures
        ({
            let (s1, fresh1) = start_browse_spec(s);
            let (s2, fresh2) = start_browse_spec(s1);
            &&& s1.browsing && s2.browsing
            &&& fresh1 == !s.browsing
            &&& !fresh2
            &&& s2 == s1
        }),
{
}

/// With no outbound handle, every send fails with `NotConnected`: only a
/// live link's handle makes a route, and stopping hosting or losing the
/// link takes it away.
pub proof fn lemma_no_link_no_route(s: SessionView)
    ensures
        route_spec(s) is None <==> s.outbound is None,
        route_spec(stop_host_spec(s)) != Some(Role::Host),
        route_spec(without_link(s)) is None,
{
}

} // verus!
