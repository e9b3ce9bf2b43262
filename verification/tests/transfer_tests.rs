use taildrop_notifier::ident::{Creds, UserIdentity};
use taildrop_notifier::orchestrator::{settle_arrival, PipelineError, PromptOutcome};
use taildrop_notifier::prompt::{Decision, PromptResponse};
use taildrop_notifier::transfer::{
    dispose, move_file, DeleteError, DisposeError, Disposition, SimFile, SimFs, TransferError,
};

fn s(x: &str) -> String {
    x.to_string()
}

fn alice() -> UserIdentity {
    UserIdentity { name: s("alice"), uid: 1000, gid: 1000 }
}

fn root_creds() -> Creds {
    Creds { uid: 0, gid: 0 }
}

fn spool_with(name: &str, device: u64, data: &[u8]) -> SimFs {
    let mut fs = SimFs::new();
    fs.add_file(SimFile {
        path: format!("/var/lib/tailscale/files/{}", name),
        device,
        owner_uid: 0,
        owner_gid: 0,
        data: data.to_vec(),
    });
    fs
}

#[test]
fn accept_moves_and_chowns_same_device() {
    // photo.jpg accepted: destination exists under the user's directory,
    // owned by the user, and the spool entry is gone.
    let mut fs = spool_with("photo.jpg", 1, b"jpegdata");
    let src = s("/var/lib/tailscale/files/photo.jpg");
    let r = dispose(&mut fs, &src, Decision::Accept, &s("/home/alice/Downloads"), 1, &alice(), root_creds());
    assert_eq!(r, Ok(Disposition::Moved));
    assert!(fs.lookup(&src).is_none());
    let dest = s("/home/alice/Downloads/photo.jpg");
    let f = fs.lookup(&dest).expect("destination must exist");
    assert_eq!(f.owner_uid, 1000);
    assert_eq!(f.owner_gid, 1000);
    assert_eq!(f.device, 1);
    assert_eq!(f.data, b"jpegdata".to_vec());
}

#[test]
fn accept_crosses_devices_by_copy_and_delete() {
    // Destination directory on another device: the fallback still yields a
    // byte-identical destination, an absent source and corrected ownership.
    let mut fs = spool_with("video.mp4", 1, b"bytes-of-video");
    let src = s("/var/lib/tailscale/files/video.mp4");
    let r = dispose(&mut fs, &src, Decision::Accept, &s("/home/alice/Downloads"), 2, &alice(), root_creds());
    assert_eq!(r, Ok(Disposition::Moved));
    assert!(fs.lookup(&src).is_none());
    let dest = s("/home/alice/Downloads/video.mp4");
    let f = fs.lookup(&dest).expect("destination must exist");
    assert_eq!(f.owner_uid, 1000);
    assert_eq!(f.owner_gid, 1000);
    assert_eq!(f.device, 2);
    assert_eq!(f.data, b"bytes-of-video".to_vec());
}

#[test]
fn decline_removes_source_and_creates_nothing() {
    let mut fs = spool_with("photo.jpg", 1, b"jpegdata");
    let src = s("/var/lib/tailscale/files/photo.jpg");
    let r = dispose(&mut fs, &src, Decision::Decline, &s("/home/alice/Downloads"), 1, &alice(), root_creds());
    assert_eq!(r, Ok(Disposition::Deleted));
    assert!(fs.lookup(&src).is_none());
    assert!(fs.lookup(&s("/home/alice/Downloads/photo.jpg")).is_none());
    assert_eq!(fs.files.len(), 0);
}

#[test]
fn unrelated_files_are_untouched() {
    let mut fs = spool_with("photo.jpg", 1, b"jpegdata");
    fs.add_file(SimFile {
        path: s("/var/lib/tailscale/files/other.txt"),
        device: 1,
        owner_uid: 0,
        owner_gid: 0,
        data: b"other".to_vec(),
    });
    let src = s("/var/lib/tailscale/files/photo.jpg");
    let r = dispose(&mut fs, &src, Decision::Accept, &s("/home/alice/Downloads"), 1, &alice(), root_creds());
    assert_eq!(r, Ok(Disposition::Moved));
    let other = fs.lookup(&s("/var/lib/tailscale/files/other.txt")).expect("still present");
    assert_eq!(other.owner_uid, 0);
    assert_eq!(other.data, b"other".to_vec());
}

#[test]
fn accept_of_missing_source_is_transfer_error() {
    let mut fs = spool_with("photo.jpg", 1, b"jpegdata");
    let gone = s("/var/lib/tailscale/files/gone.bin");
    let r = dispose(&mut fs, &gone, Decision::Accept, &s("/home/alice/Downloads"), 1, &alice(), root_creds());
    assert_eq!(r, Err(DisposeError::Transfer(TransferError::SourceMissing)));
    // the failure left the filesystem untouched
    assert!(fs.lookup(&s("/var/lib/tailscale/files/photo.jpg")).is_some());
    assert_eq!(fs.files.len(), 1);
}

#[test]
fn decline_of_missing_source_is_delete_error() {
    let mut fs = SimFs::new();
    let gone = s("/var/lib/tailscale/files/gone.bin");
    let r = dispose(&mut fs, &gone, Decision::Decline, &s("/home/alice/Downloads"), 1, &alice(), root_creds());
    assert_eq!(r, Err(DisposeError::Delete(DeleteError::SourceMissing)));
}

#[test]
fn move_replaces_existing_destination() {
    let mut fs = spool_with("photo.jpg", 1, b"new-bytes");
    fs.add_file(SimFile {
        path: s("/home/alice/Downloads/photo.jpg"),
        device: 1,
        owner_uid: 1000,
        owner_gid: 1000,
        data: b"old-bytes".to_vec(),
    });
    let src = s("/var/lib/tailscale/files/photo.jpg");
    let dest = s("/home/alice/Downloads/photo.jpg");
    let r = move_file(&mut fs, &src, &dest, 1, &alice(), root_creds());
    assert_eq!(r, Ok(()));
    let f = fs.lookup(&dest).expect("destination present");
    assert_eq!(f.data, b"new-bytes".to_vec());
    assert_eq!(fs.files.len(), 1);
}

#[test]
fn settled_accept_moves_file() {
    let mut fs = spool_with("photo.jpg", 1, b"jpegdata");
    let src = s("/var/lib/tailscale/files/photo.jpg");
    let outcome = PromptOutcome::Responded(PromptResponse::Action(s("Accept")));
    let r = settle_arrival(&mut fs, &src, outcome, &s("/home/alice/Downloads"), 1, &alice(), root_creds());
    assert_eq!(r, Ok(Disposition::Moved));
    assert!(fs.lookup(&s("/home/alice/Downloads/photo.jpg")).is_some());
}

#[test]
fn settled_dismissal_declines_and_removes() {
    // A notification dismissed without selection is treated as a decline:
    // the source is removed and no destination entry appears.
    let mut fs = spool_with("photo.jpg", 1, b"jpegdata");
    let src = s("/var/lib/tailscale/files/photo.jpg");
    let outcome = PromptOutcome::Responded(PromptResponse::Dismissed);
    let r = settle_arrival(&mut fs, &src, outcome, &s("/home/alice/Downloads"), 1, &alice(), root_creds());
    assert_eq!(r, Ok(Disposition::Deleted));
    assert!(fs.lookup(&src).is_none());
    assert!(fs.lookup(&s("/home/alice/Downloads/photo.jpg")).is_none());
}

#[test]
fn decline_works_for_source_inside_destination_dir() {
    // Decline never touches the destination, so it is defined even for a
    // source that already lies in the destination directory.
    let mut fs = SimFs::new();
    fs.add_file(SimFile {
        path: s("/home/alice/Downloads/photo.jpg"),
        device: 1,
        owner_uid: 0,
        owner_gid: 0,
        data: b"jpegdata".to_vec(),
    });
    let src = s("/home/alice/Downloads/photo.jpg");
    let r = dispose(&mut fs, &src, Decision::Decline, &s("/home/alice/Downloads"), 1, &alice(), root_creds());
    assert_eq!(r, Ok(Disposition::Deleted));
    assert!(fs.lookup(&src).is_none());
    assert_eq!(fs.files.len(), 0);
}

#[test]
fn dismissal_works_for_source_inside_destination_dir() {
    let mut fs = SimFs::new();
    fs.add_file(SimFile {
        path: s("/home/alice/Downloads/photo.jpg"),
        device: 1,
        owner_uid: 0,
        owner_gid: 0,
        data: b"jpegdata".to_vec(),
    });
    let src = s("/home/alice/Downloads/photo.jpg");
    let outcome = PromptOutcome::Responded(PromptResponse::Dismissed);
    let r = settle_arrival(&mut fs, &src, outcome, &s("/home/alice/Downloads"), 1, &alice(), root_creds());
    assert_eq!(r, Ok(Disposition::Deleted));
    assert!(fs.lookup(&src).is_none());
}

#[test]
fn failed_notification_leaves_file_undisposed() {
    let mut fs = spool_with("photo.jpg", 1, b"jpegdata");
    let src = s("/var/lib/tailscale/files/photo.jpg");
    let r = settle_arrival(&mut fs, &src, PromptOutcome::Failed, &s("/home/alice/Downloads"), 1, &alice(), root_creds());
    assert_eq!(r, Err(PipelineError::Notification));
    assert!(fs.lookup(&src).is_some());
    assert!(fs.lookup(&s("/home/alice/Downloads/photo.jpg")).is_none());
}
