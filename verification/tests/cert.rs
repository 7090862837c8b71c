use bacchus_gpu_controller::cert::{
    cert_reloader, compare_hashes, get_cert_hash, ReloaderAction, ReloaderEvent, ReloaderState,
    CERT_CHECK_SECS,
};
use bacchus_gpu_controller::review::Error;

const HELLO: &str = "2cf24dba5fb0a30e26e83b2ac5b9e29e1b161e5c1fa7425e73043362938b9824";

#[test]
fn hash_is_the_digest_of_cert_and_key() {
    assert_eq!(get_cert_hash(b"hel".to_vec(), b"lo".to_vec()), HELLO);
    assert_eq!(
        get_cert_hash(Vec::new(), Vec::new()),
        "e3b0c44298fc1c149afbf4c8996fb92427ae41e4649b934ca495991b7852b855"
    );
}

fn files(cert: &[u8], key: &[u8]) -> ReloaderEvent {
    ReloaderEvent::Read(Ok((cert.to_vec(), key.to_vec())))
}

fn waiting() -> ReloaderState {
    ReloaderState::Waiting(HELLO.to_string())
}

#[test]
fn reloader_starts_from_what_is_loaded() {
    assert_eq!(
        cert_reloader(ReloaderState::Starting, files(b"hel", b"lo")),
        (waiting(), ReloaderAction::Wait)
    );
}

#[test]
fn unchanged_cert_is_kept() {
    let (state, action) = cert_reloader(waiting(), ReloaderEvent::Tick);
    assert_eq!(action, ReloaderAction::Read);
    assert_eq!(state, ReloaderState::Checking(HELLO.to_string()));
    assert_eq!(cert_reloader(state, files(b"hel", b"lo")), (waiting(), ReloaderAction::Wait));
}

#[test]
fn changed_cert_is_reloaded_once() {
    let state = ReloaderState::Checking("old".to_string());
    let (state, action) = cert_reloader(state, files(b"hel", b"lo"));
    assert_eq!(state, ReloaderState::Reloading(HELLO.to_string()));
    assert_eq!(action, ReloaderAction::Reload);
    let (state, action) = cert_reloader(state, ReloaderEvent::Reloaded(Ok(())));
    assert_eq!((state, action), (waiting(), ReloaderAction::Wait));
    let (state, _) = cert_reloader(waiting(), ReloaderEvent::Tick);
    assert_eq!(cert_reloader(state, files(b"hel", b"lo")), (waiting(), ReloaderAction::Wait));
}

#[test]
fn reloads_follow_the_changes_of_a_run() {
    let looks: [(&[u8], bool); 5] =
        [(b"one", false), (b"two", true), (b"two", false), (b"one", true), (b"one", false)];
    let (mut state, _) = cert_reloader(ReloaderState::Starting, files(b"one", b""));
    for (cert, changed) in looks {
        let (checking, _) = cert_reloader(state, ReloaderEvent::Tick);
        let (checked, action) = cert_reloader(checking, files(cert, b""));
        assert_eq!(action == ReloaderAction::Reload, changed);
        state = match action {
            ReloaderAction::Reload => cert_reloader(checked, ReloaderEvent::Reloaded(Ok(()))).0,
            _ => checked,
        };
    }
}

#[test]
fn hashes_are_compared() {
    assert_eq!(
        compare_hashes("a".to_string(), "a".to_string()),
        (ReloaderState::Waiting("a".to_string()), ReloaderAction::Wait)
    );
    assert_eq!(
        compare_hashes("a".to_string(), "b".to_string()),
        (ReloaderState::Reloading("b".to_string()), ReloaderAction::Reload)
    );
}

#[test]
fn reloader_ends_on_errors() {
    let gone = || Err("gone".to_string());
    let given_up = || {
        (
            ReloaderState::Finished,
            ReloaderAction::Fail(Error::CertReadError("gone".to_string())),
        )
    };
    let read = || ReloaderEvent::Read(Err("gone".to_string()));
    assert_eq!(cert_reloader(ReloaderState::Starting, read()), given_up());
    assert_eq!(cert_reloader(ReloaderState::Checking("a".to_string()), read()), given_up());
    assert_eq!(
        cert_reloader(ReloaderState::Reloading("a".to_string()), ReloaderEvent::Reloaded(gone())),
        given_up()
    );
    assert_eq!(
        cert_reloader(waiting(), ReloaderEvent::Stop),
        (ReloaderState::Finished, ReloaderAction::Stop)
    );
}

#[test]
fn reloader_awaits_what_it_asked_for() {
    assert!(ReloaderState::Starting.awaits(&files(b"", b"")));
    assert!(waiting().awaits(&ReloaderEvent::Tick));
    assert!(waiting().awaits(&ReloaderEvent::Stop));
    assert!(!waiting().awaits(&files(b"", b"")));
    assert!(!ReloaderState::Starting.awaits(&ReloaderEvent::Tick));
    assert!(!ReloaderState::Finished.awaits(&ReloaderEvent::Tick));
    assert!(ReloaderState::Reloading(String::new()).awaits(&ReloaderEvent::Reloaded(Ok(()))));
}

#[test]
fn cert_is_checked_every_minute() {
    assert_eq!(CERT_CHECK_SECS, 60);
}
