//! The certificate of the webhook: it is loaded again when the files on disk have other content.

use crate::review::{Error, ErrorView};
use vstd::prelude::*;

verus! {

/// Seconds between two looks at the certificate.
pub const CERT_CHECK_SECS: u64 = 60;

/// The SHA-256 digest of some bytes, in hexadecimal, as the `sha256` crate writes it.
pub uninterp spec fn sha256_hex(bytes: Seq<u8>) -> Seq<char>;

/// Calls `sha256::digest`. Trusted: the result depends on the bytes alone.
#[verifier::external_body]
fn digest(bytes: Vec<u8>) -> (hex: String)
    ensures
        hex@ == sha256_hex(bytes@),
{
    sha256::digest(bytes)
}

/// The hash by which a certificate and its key are told from others.
pub open spec fn cert_hash(cert: Seq<u8>, key: Seq<u8>) -> Seq<char> {
    sha256_hex(cert + key)
}

/// Computes the hash of a certificate and its key.
pub fn get_cert_hash(cert: Vec<u8>, key: Vec<u8>) -> (hash: String)
    ensures
        hash@ == cert_hash(cert@, key@),
        hash@ == sha256_hex(cert@ + key@),
{
    let mut content = cert;
    let mut rest = key;
    content.append(&mut rest);
    digest(content)
}

/// Where the reloader stands.
#[derive(Debug, PartialEq)]
pub enum ReloaderState {
    /// The files that were loaded first are being read.
    Starting,
    /// The certificate of this hash is loaded, and the next look at the files is awaited.
    Waiting(String),
    /// The certificate of this hash is loaded, and the files are being read again.
    Checking(String),
    /// The certificate of this hash is being loaded.
    Reloading(String),
    /// Nothing more happens.
    Finished,
}

/// What a `ReloaderState` says.
pub enum ReloaderStateView {
    Starting,
    Waiting(Seq<char>),
    Checking(Seq<char>),
    Reloading(Seq<char>),
    Finished,
}

impl DeepView for ReloaderState {
    type V = ReloaderStateView;

    open spec fn deep_view(&self) -> ReloaderStateView {
        match self {
            ReloaderState::Starting => ReloaderStateView::Starting,
            ReloaderState::Waiting(hash) => ReloaderStateView::Waiting(hash@),
            ReloaderState::Checking(hash) => ReloaderStateView::Checking(hash@),
            ReloaderState::Reloading(hash) => ReloaderStateView::Reloading(hash@),
            ReloaderState::Finished => ReloaderStateView::Finished,
        }
    }
}

/// What the reloader is told.
#[derive(Debug, PartialEq)]
pub enum ReloaderEvent {
    /// The certificate and the key were read, or could not be.
    Read(Result<(Vec<u8>, Vec<u8>), String>),
    /// It is time for another look.
    Tick,
    /// The process is asked to end.
    Stop,
    /// The certificate was loaded, or could not be.
    Reloaded(Result<(), String>),
}

/// What a `ReloaderEvent` says.
pub enum ReloaderEventView {
    Read(Result<(Seq<u8>, Seq<u8>), Seq<char>>),
    Tick,
    Stop,
    Reloaded(Result<(), Seq<char>>),
}

impl DeepView for ReloaderEvent {
    type V = ReloaderEventView;

    open spec fn deep_view(&self) -> ReloaderEventView {
        match self {
            ReloaderEvent::Read(Ok(files)) => ReloaderEventView::Read(Ok((files.0@, files.1@))),
            ReloaderEvent::Read(Err(cause)) => ReloaderEventView::Read(Err(cause@)),
            ReloaderEvent::Tick => ReloaderEventView::Tick,
            ReloaderEvent::Stop => ReloaderEventView::Stop,
            ReloaderEvent::Reloaded(Ok(_)) => ReloaderEventView::Reloaded(Ok(())),
            ReloaderEvent::Reloaded(Err(cause)) => ReloaderEventView::Reloaded(Err(cause@)),
        }
    }
}

/// What the reloader wants done.
#[derive(Debug, PartialEq)]
pub enum ReloaderAction {
    /// Wait for the time of the next look.
    Wait,
    /// Read the certificate and the key.
    Read,
    /// Load the certificate and the key.
    Reload,
    /// Come to an end.
    Stop,
    /// Give up.
    Fail(Error),
}

/// What a `ReloaderAction` says.
pub enum ReloaderActionView {
    Wait,
    Read,
    Reload,
    Stop,
    Fail(ErrorView),
}

impl DeepView for ReloaderAction {
    type V = ReloaderActionView;

    open spec fn deep_view(&self) -> ReloaderActionView {
        match self {
            ReloaderAction::Wait => ReloaderActionView::Wait,
            ReloaderAction::Read => ReloaderActionView::Read,
            ReloaderAction::Reload => ReloaderActionView::Reload,
            ReloaderAction::Stop => ReloaderActionView::Stop,
            ReloaderAction::Fail(error) => ReloaderActionView::Fail(error.deep_view()),
        }
    }
}

/// The events that can come in a state.
pub open spec fn awaits(state: ReloaderStateView, event: ReloaderEventView) -> bool {
    match state {
        ReloaderStateView::Starting => event is Read,
        ReloaderStateView::Waiting(_) => event is Tick || event is Stop,
        ReloaderStateView::Checking(_) => event is Read,
        ReloaderStateView::Reloading(_) => event is Reloaded,
        ReloaderStateView::Finished => false,
    }
}

/// What follows from the hash of what is on disk: the certificate is loaded again exactly when the
/// hash is another than that of what is loaded.
pub open spec fn compared(loaded: Seq<char>, on_disk: Seq<char>) -> (
    ReloaderStateView,
    ReloaderActionView,
) {
    if loaded == on_disk {
        (ReloaderStateView::Waiting(loaded), ReloaderActionView::Wait)
    } else {
        (ReloaderStateView::Reloading(on_disk), ReloaderActionView::Reload)
    }
}

/// The end of a reloader that met an error.
pub open spec fn given_up(cause: Seq<char>) -> (ReloaderStateView, ReloaderActionView) {
    (ReloaderStateView::Finished, ReloaderActionView::Fail(ErrorView::CertReadError(cause)))
}

/// What the reloader does on an event.
pub open spec fn reloader_next(state: ReloaderStateView, event: ReloaderEventView) -> (
    ReloaderStateView,
    ReloaderActionView,
) {
    match (state, event) {
        (ReloaderStateView::Starting, ReloaderEventView::Read(Ok((cert, key)))) => (
            ReloaderStateView::Waiting(cert_hash(cert, key)),
            ReloaderActionView::Wait,
        ),
        (ReloaderStateView::Waiting(hash), ReloaderEventView::Tick) => (
            ReloaderStateView::Checking(hash),
            ReloaderActionView::Read,
        ),
        (ReloaderStateView::Checking(hash), ReloaderEventView::Read(Ok((cert, key)))) => compared(
            hash,
            cert_hash(cert, key),
        ),
        (ReloaderStateView::Reloading(hash), ReloaderEventView::Reloaded(Ok(_))) => (
            ReloaderStateView::Waiting(hash),
            ReloaderActionView::Wait,
        ),
        (_, ReloaderEventView::Read(Err(cause))) => given_up(cause),
        (_, ReloaderEventView::Reloaded(Err(cause))) => given_up(cause),
        _ => (ReloaderStateView::Finished, ReloaderActionView::Stop),
    }
}

impl ReloaderState {
    /// Whether an event can come in this state.
    pub fn awaits(&self, event: &ReloaderEvent) -> (expected: bool)
        ensures
            expected == awaits(self.deep_view(), event.deep_view()),
    {
        match (self, event) {
            (ReloaderState::Starting, ReloaderEvent::Read(_)) => true,
            (ReloaderState::Waiting(_), ReloaderEvent::Tick) => true,
            (ReloaderState::Waiting(_), ReloaderEvent::Stop) => true,
            (ReloaderState::Checking(_), ReloaderEvent::Read(_)) => true,
            (ReloaderState::Reloading(_), ReloaderEvent::Reloaded(_)) => true,
            _ => false,
        }
    }
}

/// Decides what follows from the hash of what is on disk.
pub fn compare_hashes(loaded: String, on_disk: String) -> (next: (ReloaderState, ReloaderAction))
    ensures
        (next.0.deep_view(), next.1.deep_view()) == compared(loaded@, on_disk@),
{
    if loaded == on_disk {
        (ReloaderState::Waiting(loaded), ReloaderAction::Wait)
    } else {
        (ReloaderState::Reloading(on_disk), ReloaderAction::Reload)
    }
}

/// Takes the next step of a reloader, which starts with the files being read.
pub fn cert_reloader(state: ReloaderState, event: ReloaderEvent) -> (next: (
    ReloaderState,
    ReloaderAction,
))
    requires
        awaits(state.deep_view(), event.deep_view()),
    ensures
        (next.0.deep_view(), next.1.deep_view()) == reloader_next(
            state.deep_view(),
            event.deep_view(),
        ),
{
    match (state, event) {
        (ReloaderState::Starting, ReloaderEvent::Read(Ok((cert, key)))) => (
            ReloaderState::Waiting(get_cert_hash(cert, key)),
            ReloaderAction::Wait,
        ),
        (ReloaderState::Waiting(hash), ReloaderEvent::Tick) => (
            ReloaderState::Checking(hash),
            ReloaderAction::Read,
        ),
        (ReloaderState::Checking(hash), ReloaderEvent::Read(Ok((cert, key)))) => compare_hashes(
            hash,
            get_cert_hash(cert, key),
        ),
        (ReloaderState::Reloading(hash), ReloaderEvent::Reloaded(Ok(_))) => (
            ReloaderState::Waiting(hash),
            ReloaderAction::Wait,
        ),
        (_, ReloaderEvent::Read(Err(cause))) => (
            ReloaderState::Finished,
            ReloaderAction::Fail(Error::CertReadError(cause)),
        ),
        (_, ReloaderEvent::Reloaded(Err(cause))) => (
            ReloaderState::Finished,
            ReloaderAction::Fail(Error::CertReadError(cause)),
        ),
        _ => (ReloaderState::Finished, ReloaderAction::Stop),
    }
}

/// A certificate is not loaded twice: one that is loaded, from the start on or after a reload, is
/// kept for as long as it stays as it is.
pub proof fn loaded_certs_are_kept(hash: Seq<char>, cert: Seq<u8>, key: Seq<u8>)
    ensures
        ({
            let read = ReloaderEventView::Read(Ok((cert, key)));
            let loaded = ReloaderStateView::Waiting(cert_hash(cert, key));
            let checking = reloader_next(loaded, ReloaderEventView::Tick).0;
            let (checked, wanted) = reloader_next(ReloaderStateView::Checking(hash), read);
            &&& reloader_next(ReloaderStateView::Starting, read).0 == loaded
            &&& reloader_next(checking, read) == (loaded, ReloaderActionView::Wait)
            &&& wanted is Reload <==> hash != cert_hash(cert, key)
            &&& wanted is Reload ==> reloader_next(checked, ReloaderEventView::Reloaded(Ok(()))).0
                == loaded
        }),
{
}

/// A look at the files from a waiting state, in which nothing goes wrong: where it leads, and whether
/// the certificate was loaded again.
pub open spec fn looked(state: ReloaderStateView, cert: Seq<u8>, key: Seq<u8>) -> (
    ReloaderStateView,
    bool,
) {
    let checking = reloader_next(state, ReloaderEventView::Tick).0;
    let (checked, wanted) = reloader_next(checking, ReloaderEventView::Read(Ok((cert, key))));
    if wanted is Reload {
        (reloader_next(checked, ReloaderEventView::Reloaded(Ok(()))).0, true)
    } else {
        (checked, false)
    }
}

/// Where a run of such looks leads.
pub open spec fn after_looks(
    state: ReloaderStateView,
    looks: Seq<(Seq<u8>, Seq<u8>)>,
) -> ReloaderStateView
    decreases looks.len(),
{
    if looks.len() == 0 {
        state
    } else {
        looked(after_looks(state, looks.drop_last()), looks.last().0, looks.last().1).0
    }
}

/// The hash that was seen last: that of the last look, or before any look that of what was loaded
/// first.
pub open spec fn last_hash(first: (Seq<u8>, Seq<u8>), looks: Seq<(Seq<u8>, Seq<u8>)>) -> Seq<char> {
    if looks.len() == 0 {
        cert_hash(first.0, first.1)
    } else {
        cert_hash(looks.last().0, looks.last().1)
    }
}

/// In a run of looks the certificate is loaded again at exactly those at which its hash is another
/// than at the look before; the first look is held against what was loaded at the start.
pub proof fn reloads_follow_changes(
    first: (Seq<u8>, Seq<u8>),
    looks: Seq<(Seq<u8>, Seq<u8>)>,
    cert: Seq<u8>,
    key: Seq<u8>,
)
    ensures
        ({
            let start = reloader_next(
                ReloaderStateView::Starting,
                ReloaderEventView::Read(Ok(first)),
            ).0;
            let state = after_looks(start, looks);
            &&& state == ReloaderStateView::Waiting(last_hash(first, looks))
            &&& looked(state, cert, key).1 <==> cert_hash(cert, key) != last_hash(first, looks)
        }),
    decreases looks.len(),
{
    if looks.len() > 0 {
        reloads_follow_changes(first, looks.drop_last(), looks.last().0, looks.last().1);
    }
}

/// The cause of a failure that an event reports.
pub open spec fn failure(event: ReloaderEventView) -> Option<Seq<char>> {
    match event {
        ReloaderEventView::Read(Err(cause)) => Some(cause),
        ReloaderEventView::Reloaded(Err(cause)) => Some(cause),
        _ => None,
    }
}

/// Whatever goes wrong ends the reloader with the cause, and nothing else does but a request to
/// stop.
pub proof fn reloaders_end_on_errors(state: ReloaderStateView, event: ReloaderEventView)
    requires
        awaits(state, event),
    ensures
        ({
            let (next, action) = reloader_next(state, event);
            &&& failure(event) matches Some(cause) ==> (next, action) == given_up(cause)
            &&& action is Fail <==> failure(event) is Some
            &&& action is Stop <==> event is Stop
            &&& next is Finished <==> action is Stop || action is Fail
        }),
{
}

/// The hash of a certificate and its key is the SHA-256 digest of the whole of both, so it is
/// another for contents with another digest.
pub proof fn hashes_cover_the_whole_content(
    cert: Seq<u8>,
    key: Seq<u8>,
    other_cert: Seq<u8>,
    other_key: Seq<u8>,
)
    ensures
        cert_hash(cert, key) == sha256_hex(cert + key),
        sha256_hex(cert + key) != sha256_hex(other_cert + other_key) <==> cert_hash(cert, key)
            != cert_hash(other_cert, other_key),
{
}

/// A renewed certificate is loaded, and one that is the same is not: after any run of looks, the
/// next look asks for a reload exactly when the digest of the whole content on disk is another than
/// that of the whole content at the look before, or at the start where there was none.
pub proof fn renewed_certs_are_loaded(
    first: (Seq<u8>, Seq<u8>),
    looks: Seq<(Seq<u8>, Seq<u8>)>,
    cert: Seq<u8>,
    key: Seq<u8>,
)
    ensures
        ({
            let start = reloader_next(
                ReloaderStateView::Starting,
                ReloaderEventView::Read(Ok(first)),
            ).0;
            let before = if looks.len() == 0 {
                first.0 + first.1
            } else {
                looks.last().0 + looks.last().1
            };
            let checking = reloader_next(after_looks(start, looks), ReloaderEventView::Tick);
            let (next, action) = reloader_next(
                checking.0,
                ReloaderEventView::Read(Ok((cert, key))),
            );
            &&& checking.1 is Read
            &&& action is Reload <==> sha256_hex(cert + key) != sha256_hex(before)
            &&& action is Wait <==> sha256_hex(cert + key) == sha256_hex(before)
            &&& action is Reload ==> reloader_next(next, ReloaderEventView::Reloaded(Ok(())))
                == (ReloaderStateView::Waiting(sha256_hex(cert + key)), ReloaderActionView::Wait)
            &&& action is Wait ==> next == ReloaderStateView::Waiting(sha256_hex(before))
        }),
{
    reloads_follow_changes(first, looks, cert, key);
}

/// What was asked for is awaited, with any outcome: after each action the reloader takes the event
/// that the action leads to, and after waiting also a request to stop.
pub proof fn asked_for_events_are_awaited(
    state: ReloaderStateView,
    event: ReloaderEventView,
    later: ReloaderEventView,
)
    requires
        awaits(state, event),
    ensures
        ({
            let (next, action) = reloader_next(state, event);
            awaits(next, later) <==> match action {
                ReloaderActionView::Wait => later is Tick || later is Stop,
                ReloaderActionView::Read => later is Read,
                ReloaderActionView::Reload => later is Reloaded,
                ReloaderActionView::Stop => false,
                ReloaderActionView::Fail(_) => false,
            }
        }),
        awaits(ReloaderStateView::Starting, later) <==> later is Read,
{
}

} // verus!
