use taildrop_notifier::ident::{
    resolve_user, run_as, run_as_resolved, Creds, PrivilegedAction, ProcessIdentity, ScopeError,
    UserIdentity,
};

struct Recorder {
    ran: bool,
    succeed: bool,
}

impl PrivilegedAction for Recorder {
    fn perform(&mut self) -> bool {
        self.ran = true;
        self.succeed
    }
}

fn current_creds() -> Creds {
    Creds { uid: nix::unistd::getuid().as_raw(), gid: nix::unistd::getgid().as_raw() }
}

fn self_identity() -> UserIdentity {
    let c = current_creds();
    UserIdentity { name: "self".to_string(), uid: c.uid, gid: c.gid }
}

#[test]
fn root_resolves_to_uid_zero() {
    let u = resolve_user("root").expect("root must exist");
    assert_eq!(u.name, "root");
    assert_eq!(u.uid, 0);
    assert_eq!(u.gid, 0);
}

#[test]
fn unknown_user_fails_resolution() {
    let r = resolve_user("zz_no_such_user_zz");
    assert!(matches!(r, Err(ScopeError::IdentityResolution)));
}

#[test]
fn scope_runs_action_and_restores_identity() {
    let before = current_creds();
    let mut ident = ProcessIdentity::start(before);
    let target = self_identity();
    let mut action = Recorder { ran: false, succeed: true };
    let r = run_as_resolved(&mut ident, &target, &mut action);
    assert_eq!(r, Ok(()));
    assert!(action.ran);
    assert_eq!(ident.effective, before);
    assert_eq!(ident.real, before);
    assert_eq!(current_creds(), before);
}

#[test]
fn scope_restores_identity_when_action_fails() {
    let before = current_creds();
    let mut ident = ProcessIdentity::start(before);
    let target = self_identity();
    let mut action = Recorder { ran: false, succeed: false };
    let r = run_as_resolved(&mut ident, &target, &mut action);
    assert_eq!(r, Err(ScopeError::Action));
    assert!(action.ran);
    assert_eq!(ident.effective, before);
    assert_eq!(current_creds(), before);
}

#[test]
fn unknown_user_scope_mutates_nothing() {
    let before = current_creds();
    let mut ident = ProcessIdentity::start(before);
    let mut action = Recorder { ran: false, succeed: true };
    let r = run_as(&mut ident, "zz_no_such_user_zz", &mut action);
    assert_eq!(r, Err(ScopeError::IdentityResolution));
    assert!(!action.ran);
    assert_eq!(ident.effective, before);
}
