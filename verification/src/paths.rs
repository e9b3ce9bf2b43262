//! Path arithmetic shared by the watcher and the transfer executor: file
//! names, home-directory expansion of the destination option, and the
//! session runtime directory derived from a uid.

use vstd::prelude::*;

verus! {

use vstd::string::StrSliceExecFns;
use vstd::string::StringExecFns;

/// The characters after the last '/' of a path: its file name. A path
/// without a '/' is all file name; one that ends in '/' has an empty name.
pub open spec fn file_name_of(p: Seq<char>) -> Seq<char>
    decreases p.len(),
{
    if p.len() == 0 {
        Seq::empty()
    } else if p.last() == '/' {
        Seq::empty()
    } else {
        file_name_of(p.drop_last()).push(p.last())
    }
}

/// If every character from `k` on is a non-slash and `k` sits right after a
/// slash (or at the start), the file name is exactly the suffix from `k`.
proof fn lemma_file_name_at(p: Seq<char>, k: int)
    requires
        0 <= k <= p.len(),
        forall|j: int| k <= j < p.len() ==> p[j] != '/',
        k == 0 || p[k - 1] == '/',
    ensures
        file_name_of(p) == p.skip(k),
    decreases p.len(),
{
    if p.len() == 0 {
        assert(file_name_of(p) =~= p.skip(k));
    } else if k == p.len() {
        assert(p.last() == '/');
        assert(file_name_of(p) =~= p.skip(k));
    } else {
        assert(p.last() != '/');
        lemma_file_name_at(p.drop_last(), k);
        assert(file_name_of(p) =~= p.skip(k));
    }
}

/// Index at which the file name of `s` begins: just after the last '/'.
fn name_start(s: &str) -> (k: usize)
    ensures
        k <= s@.len(),
        file_name_of(s@) == s@.skip(k as int),
{
    let len = s.unicode_len();
    let mut k: usize = len;
    while k > 0 && s.get_char(k - 1) != '/'
        invariant
            len == s@.len(),
            k <= len,
            forall|j: int| k <= j < s@.len() ==> s@[j] != '/',
        decreases k,
    {
        k = k - 1;
    }
    proof {
        lemma_file_name_at(s@, k as int);
    }
    k
}

/// The file name of `path`, the component the spool and the destination
/// directory share for one incoming file.
pub fn file_name_from(path: &String) -> (r: String)
    ensures
        r@ == file_name_of(path@),
{
    let s = path.as_str();
    let k = name_start(s);
    let len = s.unicode_len();
    let r = s.substring_char(k, len).to_owned();
    proof {
        assert(r@ =~= file_name_of(path@));
    }
    r
}

/// Destination path of a moved file: the directory, a '/', and the name.
pub open spec fn spec_join(dir: Seq<char>, name: Seq<char>) -> Seq<char> {
    dir + seq!['/'] + name
}

/// Joins a destination directory and a file name with a '/'.
pub fn join_path(dir: &String, name: &String) -> (r: String)
    ensures
        r@ == spec_join(dir@, name@),
{
    let mut r = dir.clone();
    r.append("/");
    r.append(name.as_str());
    proof {
        reveal_strlit("/");
        assert(r@ =~= spec_join(dir@, name@));
    }
    r
}

/// What the destination option means: a leading "~/" stands for the target
/// user's home directory; any other path is taken as written.
pub open spec fn spec_homedir(path: Seq<char>, user: Seq<char>) -> Seq<char> {
    if path.len() >= 2 && path[0] == '~' && path[1] == '/' {
        "/home/"@ + user + seq!['/'] + path.skip(2)
    } else {
        path
    }
}

/// Expands a leading "~/" of the destination option to the target user's
/// home directory; any other path is returned unchanged.
pub fn map_homedir(path: &String, username: &str) -> (r: String)
    ensures
        r@ == spec_homedir(path@, username@),
{
    let s = path.as_str();
    let len = s.unicode_len();
    if len >= 2 && s.get_char(0) == '~' && s.get_char(1) == '/' {
        let mut r = "/home/".to_owned();
        r.append(username);
        r.append("/");
        r.append(s.substring_char(2, len));
        proof {
            reveal_strlit("/");
            assert(r@ =~= spec_homedir(path@, username@));
        }
        r
    } else {
        path.clone()
    }
}

/// The decimal digit `d` as a character, for `d < 10`.
pub open spec fn digit_char(d: nat) -> char {
    if d == 0 {
        '0'
    } else if d == 1 {
        '1'
    } else if d == 2 {
        '2'
    } else if d == 3 {
        '3'
    } else if d == 4 {
        '4'
    } else if d == 5 {
        '5'
    } else if d == 6 {
        '6'
    } else if d == 7 {
        '7'
    } else if d == 8 {
        '8'
    } else {
        '9'
    }
}

/// The usual decimal rendering of `n`, most significant digit first.
pub open spec fn dec_rep(n: nat) -> Seq<char>
    decreases n,
{
    if n < 10 {
        seq![digit_char(n)]
    } else {
        dec_rep(n / 10).push(digit_char(n % 10))
    }
}

/// One decimal digit as a string slice.
fn digit_str(d: u32) -> (r: &'static str)
    requires
        d < 10,
    ensures
        r@ == seq![digit_char(d as nat)],
{
    if d == 0 {
        proof {
            reveal_strlit("0");
            assert("0"@ =~= seq![digit_char(0)]);
        }
        "0"
    } else if d == 1 {
        proof {
            reveal_strlit("1");
            assert("1"@ =~= seq![digit_char(1)]);
        }
        "1"
    } else if d == 2 {
        proof {
            reveal_strlit("2");
            assert("2"@ =~= seq![digit_char(2)]);
        }
        "2"
    } else if d == 3 {
        proof {
            reveal_strlit("3");
            assert("3"@ =~= seq![digit_char(3)]);
        }
        "3"
    } else if d == 4 {
        proof {
            reveal_strlit("4");
            assert("4"@ =~= seq![digit_char(4)]);
        }
        "4"
    } else if d == 5 {
        proof {
            reveal_strlit("5");
            assert("5"@ =~= seq![digit_char(5)]);
        }
        "5"
    } else if d == 6 {
        proof {
            reveal_strlit("6");
            assert("6"@ =~= seq![digit_char(6)]);
        }
        "6"
    } else if d == 7 {
        proof {
            reveal_strlit("7");
            assert("7"@ =~= seq![digit_char(7)]);
        }
        "7"
    } else if d == 8 {
        proof {
            reveal_strlit("8");
            assert("8"@ =~= seq![digit_char(8)]);
        }
        "8"
    } else {
        proof {
            reveal_strlit("9");
            assert("9"@ =~= seq![digit_char(9)]);
        }
        "9"
    }
}

/// Renders a uid in decimal, most significant digit first.
pub fn uid_string(uid: u32) -> (r: String)
    ensures
        r@ == dec_rep(uid as nat),
    decreases uid,
{
    if uid < 10 {
        digit_str(uid).to_owned()
    } else {
        let mut r = uid_string(uid / 10);
        r.append(digit_str(uid % 10));
        proof {
            assert(r@ =~= dec_rep(uid as nat));
        }
        r
    }
}

/// The per-session runtime directory of a user, the environment the audio
/// player is invoked with.
pub fn runtime_dir_for_uid(uid: u32) -> (r: String)
    ensures
        r@ == "/run/user/"@ + dec_rep(uid as nat),
{
    let mut r = "/run/user/".to_owned();
    r.append(uid_string(uid).as_str());
    r
}

} // verus!
