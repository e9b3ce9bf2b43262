//! Classification of filesystem change events into arrivals. The transfer
//! daemon writes a ".partial"-suffixed file and renames it to its final name
//! once fully written, so only rename-to events are candidate arrivals, and
//! any path of such an event that still carries the partial marker is
//! discarded.

use vstd::prelude::*;

verus! {

use crate::paths::file_name_of;
use vstd::string::StrSliceExecFns;

/// The one distinction the watcher draws among event kinds: an entry was
/// renamed *to* a reported path, or anything else.
#[derive(PartialEq, Eq, Structural, Clone, Copy, Debug)]
pub enum FsEventKind {
    RenameTo,
    Other,
}

/// One filesystem change notification: its kind and the paths it reports.
pub struct FsEvent {
    pub kind: FsEventKind,
    pub paths: Vec<String>,
}

/// The partial-file marker: the file name has extension "partial".
pub open spec fn partial_suffix() -> Seq<char> {
    seq!['.', 'p', 'a', 'r', 't', 'i', 'a', 'l']
}

/// Whether a path still carries the partial-file marker. A name that is
/// nothing but the marker has no extension and does not count.
pub open spec fn is_partial_path(p: Seq<char>) -> bool {
    let n = file_name_of(p);
    n.len() > partial_suffix().len() && n.skip(n.len() - partial_suffix().len())
        == partial_suffix()
}

/// Whether `path` carries the partial-file marker, that is, whether the
/// transfer that writes it is still in progress.
pub fn is_partial_file(path: &String) -> (r: bool)
    ensures
        r == is_partial_path(path@),
{
    let name = crate::paths::file_name_from(path);
    let s = name.as_str();
    let len = s.unicode_len();
    if len <= 8 {
        proof {
            assert(partial_suffix().len() == 8);
        }
        false
    } else {
        let k = len - 8;
        let r = s.get_char(k) == '.' && s.get_char(k + 1) == 'p' && s.get_char(k + 2) == 'a'
            && s.get_char(k + 3) == 'r' && s.get_char(k + 4) == 't' && s.get_char(k + 5) == 'i'
            && s.get_char(k + 6) == 'a' && s.get_char(k + 7) == 'l';
        proof {
            let n = file_name_of(path@);
            if r {
                assert(n.skip(n.len() - partial_suffix().len()) =~= partial_suffix());
            } else {
                assert(!(n.skip(n.len() - partial_suffix().len()) =~= partial_suffix()));
            }
        }
        r
    }
}

/// The paths of `paths` that do not carry the partial marker, in order.
pub open spec fn non_partial_of(paths: Seq<Seq<char>>) -> Seq<Seq<char>>
    decreases paths.len(),
{
    if paths.len() == 0 {
        Seq::empty()
    } else {
        let rest = non_partial_of(paths.drop_last());
        if is_partial_path(paths.last()) {
            rest
        } else {
            rest.push(paths.last())
        }
    }
}

/// The arrivals an event yields: nothing unless it is a rename-to event,
/// and of a rename-to event every reported path that is not partial.
pub open spec fn arrivals_of(kind: FsEventKind, paths: Seq<Seq<char>>) -> Seq<Seq<char>> {
    if kind == FsEventKind::RenameTo {
        non_partial_of(paths)
    } else {
        Seq::empty()
    }
}

/// View of a list of paths as a sequence of character sequences.
pub open spec fn paths_view(paths: Seq<String>) -> Seq<Seq<char>> {
    paths.map_values(|s: String| s@)
}

/// Classifies one event: every path of a rename-to event that does not
/// carry the partial marker becomes an independent arrival, in the order
/// the event reports them; any other event yields none.
pub fn classify_event(ev: &FsEvent) -> (r: Vec<String>)
    ensures
        paths_view(r@) == arrivals_of(ev.kind, paths_view(ev.paths@)),
{
    let mut r: Vec<String> = Vec::new();
    match ev.kind {
        FsEventKind::Other => {
            proof {
                assert(paths_view(r@) =~= arrivals_of(ev.kind, paths_view(ev.paths@)));
            }
            r
        },
        FsEventKind::RenameTo => {
            let n = ev.paths.len();
            let mut i: usize = 0;
            while i < n
                invariant
                    n == ev.paths@.len(),
                    i <= n,
                    paths_view(r@) == non_partial_of(paths_view(ev.paths@.take(i as int))),
                decreases n - i,
            {
                let p = &ev.paths[i];
                proof {
                    assert(paths_view(ev.paths@.take(i + 1)).drop_last() =~= paths_view(
                        ev.paths@.take(i as int),
                    ));
                    assert(paths_view(ev.paths@.take(i + 1)).last() == p@);
                }
                if !is_partial_file(p) {
                    r.push(p.clone());
                }
                proof {
                    assert(paths_view(r@) =~= non_partial_of(paths_view(ev.paths@.take(i + 1))));
                }
                i = i + 1;
            }
            proof {
                assert(ev.paths@.take(n as int) =~= ev.paths@);
                assert(paths_view(r@) =~= arrivals_of(ev.kind, paths_view(ev.paths@)));
            }
            r
        },
    }
}

/// No arrival ever carries the partial-file marker: whatever an event
/// reports, every path it yields as an arrival is a final name.
pub proof fn lemma_no_partial_arrival(kind: FsEventKind, paths: Seq<Seq<char>>, i: int)
    requires
        0 <= i < arrivals_of(kind, paths).len(),
    ensures
        !is_partial_path(arrivals_of(kind, paths)[i]),
{
    lemma_non_partial_members(paths, i);
}

/// Every member of `non_partial_of(paths)` is itself non-partial.
proof fn lemma_non_partial_members(paths: Seq<Seq<char>>, i: int)
    requires
        0 <= i < non_partial_of(paths).len(),
    ensures
        !is_partial_path(non_partial_of(paths)[i]),
    decreases paths.len(),
{
    if paths.len() > 0 {
        let rest = non_partial_of(paths.drop_last());
        if i < rest.len() {
            lemma_non_partial_members(paths.drop_last(), i);
        }
    }
}

/// A rename-to event whose reported paths all carry final names yields
/// exactly those paths as arrivals, one per path, in order: none is
/// duplicated and none is omitted.
pub proof fn lemma_rename_to_final_names(paths: Seq<Seq<char>>)
    requires
        forall|i: int| 0 <= i < paths.len() ==> !is_partial_path(#[trigger] paths[i]),
    ensures
        arrivals_of(FsEventKind::RenameTo, paths) == paths,
    decreases paths.len(),
{
    if paths.len() == 0 {
        assert(arrivals_of(FsEventKind::RenameTo, paths) =~= paths);
    } else {
        lemma_rename_to_final_names(paths.drop_last());
        assert(!is_partial_path(paths.last()));
        assert(arrivals_of(FsEventKind::RenameTo, paths) =~= paths);
    }
}

} // verus!
