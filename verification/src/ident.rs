//! The process-wide identity and the privilege scope. The process starts as
//! root; each session-bound action (prompt, sound) runs with the effective
//! identity scoped to the target user and the original identity restored on
//! every exit path. The model keeps a trace of every effective identity the
//! process has held, so the contracts can say which identities a scope
//! exposes. Exclusive access to the one `ProcessIdentity` value serializes
//! scopes: at most one identity-mutating action executes at any instant.

use vstd::prelude::*;

verus! {

/// A uid/gid pair: one identity the process can hold.
#[derive(PartialEq, Eq, Structural, Clone, Copy, Debug)]
pub struct Creds {
    pub uid: u32,
    pub gid: u32,
}

/// A target user as the external identity lookup resolves it: the name it
/// was queried with and the numeric uid and gid of its database entry.
/// Immutable once resolved; every privileged action re-resolves.
pub struct UserIdentity {
    pub name: String,
    pub uid: u32,
    pub gid: u32,
}

impl UserIdentity {
    /// The identity's uid/gid pair.
    pub open spec fn creds(self) -> Creds {
        Creds { uid: self.uid, gid: self.gid }
    }
}

/// The model of the process-wide identity: the constant real ids the
/// process started with, the effective ids it holds now, and the trace of
/// every effective identity it has held, oldest first.
pub struct ProcessIdentity {
    pub real: Creds,
    pub effective: Creds,
    pub trace: Ghost<Seq<Creds>>,
}

impl ProcessIdentity {
    /// The trace ends with the identity the process holds now.
    pub open spec fn wf(self) -> bool {
        self.trace@.len() > 0 && self.trace@.last() == self.effective
    }

    /// The state of a process whose real and effective identity is `c`.
    pub fn start(c: Creds) -> (r: ProcessIdentity)
        ensures
            r.wf(),
            r.real == c,
            r.effective == c,
            r.trace@ == seq![c],
    {
        let ghost t: Seq<Creds> = seq![c];
        ProcessIdentity { real: c, effective: c, trace: Ghost(t) }
    }
}

/// How a privilege-scoped action can fail, by step: the identity lookup,
/// assuming the target identity, the enclosed action itself, or — fatally —
/// restoring the original identity.
#[derive(PartialEq, Eq, Structural, Clone, Copy, Debug)]
pub enum ScopeError {
    IdentityResolution,
    IdentityChange,
    Action,
    PrivilegeRestore,
}

/// One unit of work to execute while the process holds the target user's
/// identity. Implementors live outside the library (the notification
/// prompt, the audio alert); `perform` reports whether the work succeeded,
/// and `performed` is the implementor's account of what one invocation may
/// do — the scope's contracts speak of the action through it.
pub trait PrivilegedAction: Sized {
    /// Whether one invocation of the action can carry its state from `pre`
    /// to `post` while reporting `r`. The default gives no account; an
    /// implementor refines it to what its work means.
    open spec fn performed(pre: Self, post: Self, r: bool) -> bool {
        true
    }

    /// Performs the unit of work once; reports whether it succeeded.
    fn perform(&mut self) -> (r: bool)
        ensures
            Self::performed(*old(self), *final(self), r),
    ;
}

/// Whether an identity held inside one privilege scope is composed only of
/// the original identity's components and the scope's own target's.
pub open spec fn within_scope(c: Creds, orig: Creds, target: Creds) -> bool {
    (c.uid == orig.uid || c.uid == target.uid) && (c.gid == orig.gid || c.gid == target.gid)
}

/// Every identity the process came to hold during a scope — the entries the
/// trace gained between `pre` and `post` — is composed only of the original
/// identity's components and the target's.
pub open spec fn scope_isolated(pre: Seq<Creds>, post: Seq<Creds>, orig: Creds, target: Creds) -> bool {
    forall|i: int| pre.len() <= i < post.len() ==> within_scope(#[trigger] post[i], orig, target)
}

/// The identity after the first step into a scope: the target's gid
/// assumed, the uid still the original's.
pub open spec fn gid_assumed(orig: Creds, target: Creds) -> Creds {
    Creds { uid: orig.uid, gid: target.gid }
}

/// The identity after the first step out of a scope: the gid restored, the
/// uid still the target's.
pub open spec fn gid_restored(orig: Creds, target: Creds) -> Creds {
    Creds { uid: target.uid, gid: orig.gid }
}

/// The identities a complete scope takes the process through, in order:
/// the target's gid assumed, the full target identity — under which the
/// action runs — then the gid restored and the original identity restored.
pub open spec fn scope_trace(orig: Creds, target: Creds) -> Seq<Creds> {
    seq![gid_assumed(orig, target), target, gid_restored(orig, target), orig]
}

/// Relies on nix::unistd::setresgid: sets the real, effective and saved
/// group ids to the given values; on error no id is changed.
#[verifier::external_body]
fn sys_setresgid(rgid: u32, egid: u32, sgid: u32) -> (r: Result<(), ()>) {
    match nix::unistd::setresgid(
        nix::unistd::Gid::from_raw(rgid),
        nix::unistd::Gid::from_raw(egid),
        nix::unistd::Gid::from_raw(sgid),
    ) {
        Ok(()) => Ok(()),
        Err(_) => Err(()),
    }
}

/// Relies on nix::unistd::setresuid: sets the real, effective and saved
/// user ids to the given values; on error no id is changed.
#[verifier::external_body]
fn sys_setresuid(ruid: u32, euid: u32, suid: u32) -> (r: Result<(), ()>) {
    match nix::unistd::setresuid(
        nix::unistd::Uid::from_raw(ruid),
        nix::unistd::Uid::from_raw(euid),
        nix::unistd::Uid::from_raw(suid),
    ) {
        Ok(()) => Ok(()),
        Err(_) => Err(()),
    }
}

/// Relies on nix::unistd::User::from_name (getpwnam): looks the name up in
/// the system user database; a hit is the entry of exactly that name, with
/// its numeric uid and gid.
#[verifier::external_body]
fn lookup_user(name: &str) -> (r: Option<UserIdentity>)
    ensures
        r matches Some(u) ==> u.name@ == name@,
{
    match nix::unistd::User::from_name(name) {
        Ok(Some(u)) => Some(
            UserIdentity { name: u.name, uid: u.uid.as_raw(), gid: u.gid.as_raw() },
        ),
        _ => None,
    }
}

/// Resolves a username through the external identity lookup. An unknown
/// name, or a failing lookup, is an identity-resolution error.
pub fn resolve_user(name: &str) -> (r: Result<UserIdentity, ScopeError>)
    ensures
        r matches Ok(u) ==> u.name@ == name@,
        r matches Err(e) ==> e == ScopeError::IdentityResolution,
{
    match lookup_user(name) {
        Some(u) => Ok(u),
        None => Err(ScopeError::IdentityResolution),
    }
}

/// Sets the effective gid, keeping the real and saved gids at the
/// process's real gid; the model records the new identity on success.
fn change_egid(ident: &mut ProcessIdentity, egid: u32) -> (r: Result<(), ()>)
    requires
        old(ident).wf(),
    ensures
        final(ident).wf(),
        final(ident).real == old(ident).real,
        r matches Ok(_) ==> final(ident).effective == (Creds {
            uid: old(ident).effective.uid,
            gid: egid,
        }) && final(ident).trace@ == old(ident).trace@.push(final(ident).effective),
        r matches Err(_) ==> *final(ident) == *old(ident),
{
    match sys_setresgid(ident.real.gid, egid, ident.real.gid) {
        Ok(()) => {
            ident.effective = Creds { uid: ident.effective.uid, gid: egid };
            ident.trace = Ghost(ident.trace@.push(ident.effective));
            Ok(())
        },
        Err(()) => Err(()),
    }
}

/// Sets the effective uid, keeping the real and saved uids at the
/// process's real uid; the model records the new identity on success.
fn change_euid(ident: &mut ProcessIdentity, euid: u32) -> (r: Result<(), ()>)
    requires
        old(ident).wf(),
    ensures
        final(ident).wf(),
        final(ident).real == old(ident).real,
        r matches Ok(_) ==> final(ident).effective == (Creds {
            uid: euid,
            gid: old(ident).effective.gid,
        }) && final(ident).trace@ == old(ident).trace@.push(final(ident).effective),
        r matches Err(_) ==> *final(ident) == *old(ident),
{
    match sys_setresuid(ident.real.uid, euid, ident.real.uid) {
        Ok(()) => {
            ident.effective = Creds { uid: euid, gid: ident.effective.gid };
            ident.trace = Ghost(ident.trace@.push(ident.effective));
            Ok(())
        },
        Err(()) => Err(()),
    }
}

/// Executes `action` while the process's effective identity is scoped to
/// the already-resolved `target`, and restores the identity held before the
/// call on every exit path short of a failed restoration — the fatal case,
/// after which the process must not go on. A completed scope walks the
/// trace through exactly `scope_trace`, with the action performed once at
/// the full target identity and the result reporting its outcome; a scope
/// that could not be entered leaves the action untouched. The process never
/// holds identity components of any user other than the caller's own target
/// and the original identity.
pub fn run_as_resolved<A: PrivilegedAction>(
    ident: &mut ProcessIdentity,
    target: &UserIdentity,
    action: &mut A,
) -> (r: Result<(), ScopeError>)
    requires
        old(ident).wf(),
    ensures
        final(ident).wf(),
        final(ident).real == old(ident).real,
        r != Err::<(), ScopeError>(ScopeError::PrivilegeRestore) ==> final(ident).effective == old(
            ident,
        ).effective,
        r != Err::<(), ScopeError>(ScopeError::IdentityResolution),
        old(ident).trace@.is_prefix_of(final(ident).trace@),
        scope_isolated(old(ident).trace@, final(ident).trace@, old(ident).effective, target.creds()),
        r matches Ok(_) ==> final(ident).trace@ == old(ident).trace@ + scope_trace(
            old(ident).effective,
            target.creds(),
        ) && A::performed(*old(action), *final(action), true),
        r == Err::<(), ScopeError>(ScopeError::Action) ==> final(ident).trace@ == old(
            ident,
        ).trace@ + scope_trace(old(ident).effective, target.creds()) && A::performed(
            *old(action),
            *final(action),
            false,
        ),
        r == Err::<(), ScopeError>(ScopeError::IdentityChange) ==> *final(action) == *old(action)
            && (final(ident).trace@ == old(ident).trace@ || final(ident).trace@ == old(
            ident,
        ).trace@ + seq![
            gid_assumed(old(ident).effective, target.creds()),
            old(ident).effective,
        ]),
        r == Err::<(), ScopeError>(ScopeError::PrivilegeRestore) ==> (final(ident).trace@ == old(
            ident,
        ).trace@ + seq![gid_assumed(old(ident).effective, target.creds())] && *final(action)
            == *old(action)) || final(ident).trace@ == old(ident).trace@ + seq![
            gid_assumed(old(ident).effective, target.creds()),
            target.creds(),
        ] || final(ident).trace@ == old(ident).trace@ + seq![
            gid_assumed(old(ident).effective, target.creds()),
            target.creds(),
            gid_assumed(old(ident).effective, target.creds()),
        ] || final(ident).trace@ == old(ident).trace@ + seq![
            gid_assumed(old(ident).effective, target.creds()),
            target.creds(),
            gid_restored(old(ident).effective, target.creds()),
        ],
{
    let orig = ident.effective;
    match change_egid(ident, target.gid) {
        Err(()) => {
            return Err(ScopeError::IdentityChange);
        },
        Ok(()) => {},
    }
    match change_euid(ident, target.uid) {
        Err(()) => {
            match change_egid(ident, orig.gid) {
                Ok(()) => {
                    proof {
                        assert(ident.trace@ =~= old(ident).trace@ + seq![
                            gid_assumed(old(ident).effective, target.creds()),
                            old(ident).effective,
                        ]);
                    }
                    return Err(ScopeError::IdentityChange);
                },
                Err(()) => {
                    proof {
                        assert(ident.trace@ =~= old(ident).trace@ + seq![
                            gid_assumed(old(ident).effective, target.creds()),
                        ]);
                    }
                    return Err(ScopeError::PrivilegeRestore);
                },
            }
        },
        Ok(()) => {},
    }
    let succeeded = action.perform();
    let g = change_egid(ident, orig.gid);
    let u = change_euid(ident, orig.uid);
    if g.is_err() || u.is_err() {
        proof {
            let ga = gid_assumed(old(ident).effective, target.creds());
            let t = target.creds();
            let gr = gid_restored(old(ident).effective, target.creds());
            if g is Err && u is Err {
                assert(ident.trace@ =~= old(ident).trace@ + seq![ga, t]);
            } else if g is Err {
                assert(ident.trace@ =~= old(ident).trace@ + seq![ga, t, ga]);
            } else {
                assert(ident.trace@ =~= old(ident).trace@ + seq![ga, t, gr]);
            }
        }
        Err(ScopeError::PrivilegeRestore)
    } else {
        proof {
            assert(ident.trace@ =~= old(ident).trace@ + scope_trace(
                old(ident).effective,
                target.creds(),
            ));
        }
        if succeeded {
            Ok(())
        } else {
            Err(ScopeError::Action)
        }
    }
}

/// Executes `action` under the identity of `username`: resolves the user
/// anew, scopes the effective identity to it, performs the action once at
/// the target identity, and unconditionally restores the original identity;
/// the result reports the action's outcome. A name that does not resolve
/// aborts the scope before any identity mutation, with the action never
/// invoked.
pub fn run_as<A: PrivilegedAction>(
    ident: &mut ProcessIdentity,
    username: &str,
    action: &mut A,
) -> (r: Result<(), ScopeError>)
    requires
        old(ident).wf(),
    ensures
        final(ident).wf(),
        final(ident).real == old(ident).real,
        r != Err::<(), ScopeError>(ScopeError::PrivilegeRestore) ==> final(ident).effective == old(
            ident,
        ).effective,
        r == Err::<(), ScopeError>(ScopeError::IdentityResolution) ==> *final(ident) == *old(ident)
            && *final(action) == *old(action),
        r == Err::<(), ScopeError>(ScopeError::IdentityChange) ==> *final(action) == *old(action),
        r matches Ok(_) ==> A::performed(*old(action), *final(action), true),
        r == Err::<(), ScopeError>(ScopeError::Action) ==> A::performed(
            *old(action),
            *final(action),
            false,
        ),
        r matches Ok(_) || r == Err::<(), ScopeError>(ScopeError::Action) ==> exists|t: Creds|
            final(ident).trace@ == old(ident).trace@ + #[trigger] scope_trace(
                old(ident).effective,
                t,
            ),
        old(ident).trace@.is_prefix_of(final(ident).trace@),
        exists|t: Creds|
            #[trigger] scope_isolated(old(ident).trace@, final(ident).trace@, old(ident).effective, t),
{
    match resolve_user(username) {
        Err(e) => {
            proof {
                assert(scope_isolated(
                    old(ident).trace@,
                    final(ident).trace@,
                    old(ident).effective,
                    old(ident).effective,
                ));
            }
            Err(e)
        },
        Ok(u) => {
            let r = run_as_resolved(ident, &u, action);
            proof {
                assert(scope_isolated(
                    old(ident).trace@,
                    final(ident).trace@,
                    old(ident).effective,
                    u.creds(),
                ));
                if r matches Ok(_) || r == Err::<(), ScopeError>(ScopeError::Action) {
                    assert(final(ident).trace@ == old(ident).trace@ + scope_trace(
                        old(ident).effective,
                        u.creds(),
                    ));
                }
            }
            r
        },
    }
}

} // verus!
