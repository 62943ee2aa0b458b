//! Backups: where a mirror goes, how a backup is checked before it is pruned or uploaded, and
//! how an upload is split.
use vstd::prelude::*;
use crate::cache::store::strings_view;
use crate::error::{decimal, GitError};
use crate::text::{after_char, find_char, owned, str_eq};

verus! {

/// The last piece of `s` split on `/`, as `split('/').next_back()` gives it.
pub open spec fn last_piece(s: Seq<char>) -> Seq<char>
    decreases s.len(),
{
    match after_char(s, '/') {
        Some(rest) => if rest.len() < s.len() {
            last_piece(rest)
        } else {
            rest
        },
        None => s,
    }
}

/// The last piece of `s` split on `/`.
pub fn last_path_piece(s: &str) -> (r: &str)
    ensures
        r@ == last_piece(s@),
{
    let n = s.unicode_len();
    let mut k: usize = n;
    while k > 0 && s.get_char(k - 1) != '/'
        invariant
            k <= n,
            n == s@.len(),
            forall|j: int| k <= j < n ==> s@[j] != '/',
        decreases k,
    {
        k -= 1;
    }
    proof {
        lemma_last_piece(s@, k as int);
    }
    s.substring_char(k, n)
}

proof fn lemma_last_piece(s: Seq<char>, k: int)
    requires
        0 <= k <= s.len(),
        forall|j: int| k <= j < s.len() ==> s[j] != '/',
        k == 0 || s[k - 1] == '/',
    ensures
        last_piece(s) == s.subrange(k, s.len() as int),
    decreases s.len(),
{
    if k == 0 {
        crate::text::lemma_find_char_none(s, '/');
        assert(s.subrange(0, s.len() as int) =~= s);
    } else {
        let i = choose_first_slash(s);
        let rest = s.subrange(i + 1, s.len() as int);
        assert forall|j: int| k - i - 1 <= j < rest.len() implies rest[j] != '/' by {
            assert(rest[j] == s[j + i + 1]);
        }
        if k - i - 1 > 0 {
            assert(rest[k - i - 2] == s[k - 1]);
        }
        lemma_last_piece(rest, k - i - 1);
        assert(rest.subrange(k - i - 1, rest.len() as int) =~= s.subrange(k, s.len() as int));
    }
}

/// The position of the first `/` in a string that holds one, with what the text lemmas say
/// of it.
proof fn choose_first_slash(s: Seq<char>) -> (i: int)
    requires
        exists|j: int| 0 <= j < s.len() && s[j] == '/',
    ensures
        0 <= i < s.len(),
        s[i] == '/',
        find_char(s, '/') == Some(i),
{
    let w = choose|j: int| 0 <= j < s.len() && s[j] == '/';
    lemma_first_of(s, w)
}

proof fn lemma_first_of(s: Seq<char>, w: int) -> (i: int)
    requires
        0 <= w < s.len(),
        s[w] == '/',
    ensures
        0 <= i <= w,
        s[i] == '/',
        find_char(s, '/') == Some(i),
    decreases w,
{
    if exists|j: int| 0 <= j < w && s[j] == '/' {
        let j = choose|j: int| 0 <= j < w && s[j] == '/';
        lemma_first_of(s, j)
    } else {
        crate::text::lemma_find_char_at(s, '/', w);
        w
    }
}

/// Where a repository is mirrored under `directory`: the last piece of its SSH URL.
pub open spec fn backup_path(directory: Seq<char>, ssh_url: Seq<char>) -> Seq<char> {
    directory + "/"@ + last_piece(ssh_url)
}

/// Where the mirror of the repository at `ssh_url` goes under `directory`.
pub fn backup_location(directory: &str, ssh_url: &str) -> (r: String)
    ensures
        r@ == backup_path(directory@, ssh_url@),
{
    let mut p = owned(directory);
    p.append("/");
    p.append(last_path_piece(ssh_url));
    p
}

/// The git command that backs up a repository: an existing mirror is updated, and otherwise
/// the repository is cloned as a mirror.
pub fn backup_command(mirror_exists: bool, ssh_url: &str, path: &str) -> (r: Vec<String>)
    ensures
        mirror_exists ==> strings_view(r@) == seq!["remote"@, "update"@],
        !mirror_exists ==> strings_view(r@) == seq!["clone"@, "--mirror"@, ssh_url@, path@],
{
    let mut args: Vec<String> = Vec::new();
    if mirror_exists {
        args.push(owned("remote"));
        args.push(owned("update"));
    } else {
        args.push(owned("clone"));
        args.push(owned("--mirror"));
        args.push(owned(ssh_url));
        args.push(owned(path));
    }
    assert(strings_view(args@) =~= if mirror_exists {
        seq!["remote"@, "update"@]
    } else {
        seq!["clone"@, "--mirror"@, ssh_url@, path@]
    });
    args
}

/// The repositories to back up: those not on the blacklist, in their order.
pub open spec fn not_blacklisted(repos: Seq<Seq<char>>, blacklist: Seq<Seq<char>>) -> Seq<Seq<char>>
    decreases repos.len(),
{
    if repos.len() == 0 {
        seq![]
    } else if blacklist.contains(repos.last()) {
        not_blacklisted(repos.drop_last(), blacklist)
    } else {
        not_blacklisted(repos.drop_last(), blacklist).push(repos.last())
    }
}

/// The repositories to back up: those not on the blacklist, in their order.
pub fn repositories_to_back_up(repos: &Vec<String>, blacklist: &Vec<String>) -> (r: Vec<String>)
    ensures
        strings_view(r@) == not_blacklisted(strings_view(repos@), strings_view(blacklist@)),
{
    let ghost all = strings_view(repos@);
    let mut out: Vec<String> = Vec::new();
    let mut i: usize = 0;
    assert(strings_view(out@) =~= Seq::<Seq<char>>::empty());
    while i < repos.len()
        invariant
            i <= repos@.len(),
            all == strings_view(repos@),
            strings_view(out@) == not_blacklisted(all.subrange(0, i as int), strings_view(blacklist@)),
        decreases repos@.len() - i,
    {
        let ghost sub = all.subrange(0, i + 1);
        assert(sub.drop_last() =~= all.subrange(0, i as int));
        assert(sub.last() == repos@[i as int]@);
        if !crate::github::tag::contains_string(blacklist, repos[i].as_str()) {
            let ghost before = strings_view(out@);
            out.push(owned(repos[i].as_str()));
            assert(strings_view(out@) =~= before.push(repos@[i as int]@));
        }
        i += 1;
    }
    assert(all.subrange(0, repos@.len() as int) =~= all);
    out
}

/// Checks a backup before it is pruned: it needs an extension, must exist, and must be a git
/// mirror (its extension is `git`).
pub fn prune_check(extension: Option<&str>, exists: bool, display: &str) -> (r: Result<(), GitError>)
    ensures
        extension is None ==> (r matches Err(GitError::Other(m)) && m@ == "Failed to get file extension"@),
        extension is Some && !exists ==> (r matches Err(GitError::Other(m)) && m@ == "Path "@ + display@
            + " does not exist"@),
        extension matches Some(e) && exists && e@ != "git"@ ==> (r matches Err(GitError::Other(m))
            && m@ == "Path "@ + display@ + " is not a git repository"@),
        extension matches Some(e) && exists && e@ == "git"@ ==> r is Ok,
{
    let ext = match extension {
        Some(e) => e,
        None => return Err(GitError::Other(owned("Failed to get file extension"))),
    };
    if !exists {
        let mut m = owned("Path ");
        m.append(display);
        m.append(" does not exist");
        return Err(GitError::Other(m));
    }
    if !str_eq(ext, "git") {
        let mut m = owned("Path ");
        m.append(display);
        m.append(" is not a git repository");
        return Err(GitError::Other(m));
    }
    Ok(())
}

/// The argument of `git gc` that prunes a backup: everything unreachable, or what is older than
/// `since`.
pub fn prune_argument(since: &Option<String>) -> (r: String)
    ensures
        since matches Some(s) ==> r@ == "--prune="@ + s@,
        since is None ==> r@ == "--prune=now"@,
{
    match since {
        Some(s) => {
            let mut a = owned("--prune=");
            a.append(s.as_str());
            a
        },
        None => owned("--prune=now"),
    }
}

/// The size of each part of a multipart upload: 64 MiB.
pub const PART_SIZE: u64 = 67_108_864;

/// How a backup of a given size is uploaded.
#[derive(Debug, PartialEq, Eq, Structural)]
pub enum UploadKind {
    /// In one request.
    Single,
    /// In parts of [`PART_SIZE`] bytes.
    Multipart,
}

/// How a backup of `size` bytes is uploaded; an empty backup is an error.
pub fn upload_kind(size: u64) -> (r: Result<UploadKind, GitError>)
    ensures
        size == 0 ==> (r matches Err(GitError::Other(m)) && m@ == "Backup file is empty"@),
        0 < size < PART_SIZE ==> r == Ok::<UploadKind, GitError>(UploadKind::Single),
        size >= PART_SIZE ==> r == Ok::<UploadKind, GitError>(UploadKind::Multipart),
{
    if size == 0 {
        Err(GitError::Other(owned("Backup file is empty")))
    } else if size < PART_SIZE {
        Ok(UploadKind::Single)
    } else {
        Ok(UploadKind::Multipart)
    }
}

/// The URL of an object in an S3 bucket.
pub fn s3_object_url(bucket: &str, region: &str, name: &str) -> (r: String)
    ensures
        r@ == "https://"@ + bucket@ + ".s3."@ + region@ + ".amazonaws.com/"@ + name@,
{
    let mut u = owned("https://");
    u.append(bucket);
    u.append(".s3.");
    u.append(region);
    u.append(".amazonaws.com/");
    u.append(name);
    u
}

/// The uploaded parts ordered by part number; parts with the same number keep their order.
pub fn sort_parts(parts: Vec<(i32, String)>) -> (r: Vec<(i32, String)>)
    ensures
        forall|i: int, j: int| 0 <= i <= j < r@.len() ==> (#[trigger] r@[i]).0 <= (#[trigger] r@[j]).0,
        r@.to_multiset() == parts@.to_multiset(),
{
    broadcast use vstd::seq_lib::group_to_multiset_ensures;
    let mut out: Vec<(i32, String)> = Vec::new();
    let mut rest = parts;
    let ghost all = rest@;
    while rest.len() > 0
        invariant
            forall|i: int, j: int| 0 <= i <= j < out@.len() ==> (#[trigger] out@[i]).0 <= (#[trigger] out@[j]).0,
            out@.to_multiset().add(rest@.to_multiset()) == all.to_multiset(),
        decreases rest@.len(),
    {
        let ghost before_rest = rest@;
        let x = rest.remove(0);
        proof {
            before_rest.to_multiset_ensures();
            assert(before_rest.remove(0) =~= rest@);
            assert(before_rest[0] == x);
        }
        let ghost before = out@;
        let mut p: usize = 0;
        while p < out.len() && out[p].0 <= x.0
            invariant
                p <= out@.len(),
                out@ == before,
                forall|j: int| 0 <= j < p ==> (#[trigger] out@[j]).0 <= x.0,
            decreases out@.len() - p,
        {
            p += 1;
        }
        let ghost xv = x;
        assert(p < before.len() ==> before[p as int].0 > xv.0);
        out.insert(p, x);
        proof {
            let s = before.insert(p as int, xv);
            assert(out@ =~= s);
            assert(s.remove(p as int) =~= before);
            s.to_multiset_ensures();
            before.to_multiset_ensures();
            assert(s[p as int] == xv);
            assert(s.to_multiset() =~= before.to_multiset().insert(xv));
            assert forall|a: int, b: int| 0 <= a <= b < s.len() implies (#[trigger] s[a]).0 <= (#[trigger] s[b]).0 by {
                if a < p && b < p {
                } else if a < p && b == p {
                } else if a < p {
                    assert(s[b] == before[b - 1]);
                } else if a == p && b > p {
                    assert(s[b] == before[b - 1]);
                    assert(before[p as int].0 <= before[b - 1].0);
                } else if a > p {
                    assert(s[a] == before[a - 1] && s[b] == before[b - 1]);
                }
            }
            assert(out@.to_multiset().add(rest@.to_multiset()) =~= all.to_multiset());
        }
    }
    proof {
        assert(rest@.len() == 0);
        rest@.to_multiset_ensures();
        assert(rest@.to_multiset() =~= vstd::multiset::Multiset::empty());
        assert(out@.to_multiset().add(rest@.to_multiset()) =~= out@.to_multiset());
    }
    out
}

/// The checks before a backup is uploaded: the path must exist, be a directory, and, when it
/// has an extension, be a git mirror (`.git`).
pub fn upload_source_check(exists: bool, is_dir: bool, extension: Option<&str>, display: &str) -> (r: Result<(), GitError>)
    ensures
        !exists ==> (r matches Err(GitError::FileDoesNotExist(f)) && f@ == display@),
        exists && !is_dir ==> (r matches Err(GitError::Other(m)) && m@ == "File "@ + display@
            + " is not a directory"@),
        exists && is_dir && (extension matches Some(e) && e@ != "git"@) ==> (r matches Err(GitError::Other(m))
            && m@ == "File "@ + display@ + " is not a git mirror"@),
        exists && is_dir && !(extension matches Some(e) && e@ != "git"@) ==> r is Ok,
{
    if !exists {
        return Err(GitError::FileDoesNotExist(owned(display)));
    }
    if !is_dir {
        let mut m = owned("File ");
        m.append(display);
        m.append(" is not a directory");
        return Err(GitError::Other(m));
    }
    match extension {
        Some(e) => {
            if !str_eq(e, "git") {
                let mut m = owned("File ");
                m.append(display);
                m.append(" is not a git mirror");
                return Err(GitError::Other(m));
            }
        },
        None => {},
    }
    Ok(())
}

/// Backing up keeps exactly the repositories that are not on the blacklist, in their order: the
/// given repositories filtered by "not on the blacklist". So a repository is backed up exactly
/// when it is given and not blacklisted, and with an empty blacklist every repository given is
/// backed up.
pub proof fn lemma_back_up_all_but_blacklisted(repos: Seq<Seq<char>>, blacklist: Seq<Seq<char>>, name: Seq<char>)
    ensures
        not_blacklisted(repos, blacklist) == repos.filter(|r: Seq<char>| !blacklist.contains(r)),
        not_blacklisted(repos, blacklist).contains(name) <==> (repos.contains(name) && !blacklist.contains(name)),
        blacklist.len() == 0 ==> not_blacklisted(repos, blacklist) == repos,
    decreases repos.len(),
{
    reveal(Seq::filter);
    let pred = |r: Seq<char>| !blacklist.contains(r);
    if repos.len() == 0 {
        assert(repos.filter(pred) == repos);
    } else {
        let init = repos.drop_last();
        let x = repos.last();
        lemma_back_up_all_but_blacklisted(init, blacklist, name);
        let rest = not_blacklisted(init, blacklist);
        let whole = not_blacklisted(repos, blacklist);
        assert(repos.filter(pred) == if pred(x) { init.filter(pred).push(x) } else { init.filter(pred) });
        assert(repos =~= init.push(x));
        if whole.contains(name) {
            let k = choose|k: int| 0 <= k < whole.len() && whole[k] == name;
            if k < rest.len() {
                assert(whole[k] == rest[k]);
                assert(rest.contains(name));
                let j = choose|j: int| 0 <= j < init.len() && init[j] == name;
                assert(repos[j] == init[j]);
            } else {
                assert(name == x && !blacklist.contains(x));
                assert(repos[repos.len() - 1] == x);
            }
        }
        if repos.contains(name) && !blacklist.contains(name) {
            let j = choose|j: int| 0 <= j < repos.len() && repos[j] == name;
            if j < init.len() {
                assert(init[j] == repos[j]);
                assert(rest.contains(name));
                let k = choose|k: int| 0 <= k < rest.len() && rest[k] == name;
                if !blacklist.contains(x) {
                    assert(whole[k] == rest[k]);
                }
                assert(whole.contains(name));
            } else {
                assert(whole[rest.len() as int] == name);
            }
        }
        if blacklist.len() == 0 {
            assert(!blacklist.contains(x));
        }
    }
}

} // verus!
