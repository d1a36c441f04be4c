use blobget::error::{classify, classify_manifest, error_name, show_get_error, FetchFailure, GetError};
use blobget::session::{advance, Event, Stage};
use blobget::ticket::{get_or_create_secret, needs_discovery, KeySource, PeerAddr};

#[test]
fn failures_are_classified() {
    assert_eq!(classify(&FetchFailure::NotFound), GetError::NotFound);
    assert_eq!(classify(&FetchFailure::LeafNotFound), GetError::PartialData);
    assert_eq!(classify(&FetchFailure::ParentNotFound), GetError::PartialData);
    assert_eq!(classify(&FetchFailure::LeafHashMismatch), GetError::IntegrityMismatch);
    assert_eq!(classify(&FetchFailure::ParentHashMismatch), GetError::IntegrityMismatch);
    assert_eq!(classify(&FetchFailure::Io("x".to_string())), GetError::Transport);
    assert_eq!(classify(&FetchFailure::Read("x".to_string())), GetError::Transport);
    assert_eq!(classify(&FetchFailure::Other("x".to_string())), GetError::Transport);
}

#[test]
fn diagnostics_name_the_cause() {
    assert_eq!(show_get_error(&FetchFailure::NotFound), "send side no longer has a file");
    assert_eq!(show_get_error(&FetchFailure::LeafNotFound), "send side no longer has part of a file");
    assert_eq!(show_get_error(&FetchFailure::ParentHashMismatch), "send side sent wrong data");
    assert_eq!(show_get_error(&FetchFailure::Io("reset".to_string())), "generic network error: reset");
    assert_eq!(
        show_get_error(&FetchFailure::Read("closed".to_string())),
        "error reading data from quinn: closed"
    );
    assert_eq!(error_name(GetError::ExportConflict), "export conflict");
}

#[test]
fn retrieval_runs_through_its_stages() {
    let events = [
        Event::Begin,
        Event::Connected,
        Event::ManifestFetched,
        Event::ChunksFetched,
        Event::CollectionLoaded,
        Event::ExportFinished,
    ];
    let mut s = Stage::Idle;
    for e in events {
        s = advance(s, e);
    }
    assert_eq!(s, Stage::Done);
}

#[test]
fn integrity_failure_never_reaches_export() {
    let s = advance(Stage::FetchingChunks, Event::Fault(GetError::IntegrityMismatch));
    assert_eq!(s, Stage::Failed(GetError::IntegrityMismatch));
    let s = advance(s, Event::ChunksFetched);
    let s = advance(s, Event::CollectionLoaded);
    assert_eq!(s, Stage::Failed(GetError::IntegrityMismatch));
    assert_eq!(advance(Stage::Done, Event::Fault(GetError::Transport)), Stage::Done);
    assert_eq!(advance(Stage::Idle, Event::Connected), Stage::Idle);
}

#[test]
fn discovery_only_without_any_address() {
    let bare = PeerAddr { node_id: vec![0; 32], relay_url: None, direct_addresses: vec![] };
    assert!(needs_discovery(&bare));
    let relayed = PeerAddr {
        node_id: vec![0; 32],
        relay_url: Some("https://relay.example".to_string()),
        direct_addresses: vec![],
    };
    assert!(!needs_discovery(&relayed));
    let direct = PeerAddr { node_id: vec![0; 32], relay_url: None, direct_addresses: vec!["1.2.3.4:5".to_string()] };
    assert!(!needs_discovery(&direct));
}

#[test]
fn supplied_key_is_kept() {
    assert_eq!(get_or_create_secret(Some("k".to_string())), KeySource::Stored("k".to_string()));
    assert_eq!(get_or_create_secret(None), KeySource::Fresh);
}

#[test]
fn manifest_failures_are_classified() {
    assert_eq!(classify_manifest(&FetchFailure::Other("too large".to_string())), GetError::Manifest);
    assert_eq!(classify_manifest(&FetchFailure::NotFound), GetError::NotFound);
    assert_eq!(classify_manifest(&FetchFailure::Io("x".to_string())), GetError::Transport);
}
