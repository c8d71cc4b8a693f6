//! Bringing the local checkout to a requested commit, over git2. Every
//! git2 entry point runs libgit2's one-time global setup on first use,
//! which aborts the process only if that setup itself fails (of the
//! out-of-memory kind); past that, failures come back as errors.

use vstd::prelude::*;

use crate::errors::SyncError;

verus! {

#[verifier::external_type_specification]
#[verifier::external_body]
pub struct ExRepository(git2::Repository);

#[verifier::external_type_specification]
#[verifier::external_body]
pub struct ExRemote<'a>(git2::Remote<'a>);

#[verifier::external_type_specification]
#[verifier::external_body]
pub struct ExOid(git2::Oid);

#[verifier::external_type_specification]
#[verifier::external_body]
pub struct ExObject<'a>(git2::Object<'a>);

#[verifier::external_type_specification]
#[verifier::external_body]
pub struct ExGitError(git2::Error);

/// Relies on git2's Repository::open: opens the repository at this path,
/// failing when none is there or it cannot be read.
#[verifier::external_body]
fn repo_open(path: &String) -> Result<git2::Repository, git2::Error> {
    git2::Repository::open(path.as_str())
}

/// Relies on git2's Repository::clone_recurse: clones the repository at
/// this address into the path, submodules included.
#[verifier::external_body]
fn repo_clone_recurse(url: &String, path: &String) -> Result<git2::Repository, git2::Error> {
    git2::Repository::clone_recurse(url.as_str(), path.as_str())
}

/// Relies on git2's Repository::find_remote: looks the named remote up.
#[verifier::external_body]
fn repo_find_remote<'r>(repo: &'r git2::Repository, name: &str) -> Result<
    git2::Remote<'r>,
    git2::Error,
> {
    repo.find_remote(name)
}

/// Relies on git2's Remote::refspecs and Refspec::str: hands the remote's
/// refspecs out, each as its configured text where that text is well-formed.
#[verifier::external_body]
fn remote_refspec_strings(remote: &git2::Remote) -> Vec<Option<String>> {
    remote.refspecs().map(|r| r.str().ok().map(|s| s.to_owned())).collect()
}

/// Relies on git2's Remote::fetch: downloads the given refs from the remote.
#[verifier::external_body]
fn remote_fetch(remote: &mut git2::Remote, refspecs: &Vec<String>) -> Result<(), git2::Error> {
    remote.fetch(refspecs.as_slice(), None, None)
}

/// A well-formed revision reference: git2's Oid::from_str documents that it
/// accepts exactly a nonempty string of at most forty hexadecimal characters.
pub open spec fn is_hex_char(c: char) -> bool {
    (48 <= c as u32 && c as u32 <= 57) || (97 <= c as u32 && c as u32 <= 102) || (65 <= c as u32
        && c as u32 <= 70)
}

/// The strings git2's Oid::from_str accepts.
pub open spec fn oid_str_ok(s: Seq<char>) -> bool {
    1 <= s.len() <= 40 && forall|i: int| 0 <= i < s.len() ==> is_hex_char(#[trigger] s[i])
}

/// Relies on git2's Oid::from_str: parses a hex-formatted object id, failing
/// exactly on the empty string, one over forty characters, or one with a
/// non-hex character.
#[verifier::external_body]
fn oid_from_str(s: &String) -> (r: Result<git2::Oid, git2::Error>)
    ensures
        r is Ok <==> oid_str_ok(s@),
{
    git2::Oid::from_str(s.as_str())
}

/// Relies on git2's Repository::set_head_detached: detaches HEAD onto the
/// given commit.
#[verifier::external_body]
fn repo_set_head_detached(repo: &git2::Repository, oid: git2::Oid) -> Result<(), git2::Error> {
    repo.set_head_detached(oid)
}

/// Relies on git2's Repository::find_object: looks the object of this id up.
#[verifier::external_body]
fn repo_find_object<'r>(repo: &'r git2::Repository, oid: git2::Oid) -> Result<
    git2::Object<'r>,
    git2::Error,
> {
    repo.find_object(oid, None)
}

/// Relies on git2's Repository::reset with the hard kind: moves HEAD onto
/// the target and makes index and working tree match it, discarding local
/// modifications.
#[verifier::external_body]
fn repo_reset_hard(repo: &git2::Repository, target: &git2::Object<'_>) -> Result<
    (),
    git2::Error,
> {
    repo.reset(target, git2::ResetType::Hard, None)
}

/// Relies on git2's Error::message: the failure's descriptive text.
#[verifier::external_body]
fn git_error_text(e: &git2::Error) -> String {
    e.message().to_owned()
}

/// The operations the sync protocol is built from.
#[derive(Clone, Copy, Debug, PartialEq, Eq, Structural)]
pub enum SyncAction {
    CloneRepo,
    FetchOrigin,
    CheckoutCommit,
}

/// The protocol's view of a checkout directory: absent, or holding a
/// repository whose working tree stands at some commit.
pub type RepoModel = Option<Seq<char>>;

/// What one operation makes of the checkout. A clone only ever happens
/// on an absent checkout and leaves the tree at the cloned head; a fetch
/// moves the tree nowhere; a checkout puts it at the requested commit.
pub open spec fn apply_action(
    s: RepoModel,
    a: SyncAction,
    commit: Seq<char>,
    clone_head: Seq<char>,
) -> RepoModel {
    match a {
        SyncAction::CloneRepo => if s is None {
            Some(clone_head)
        } else {
            s
        },
        SyncAction::FetchOrigin => s,
        SyncAction::CheckoutCommit => Some(commit),
    }
}

/// The operations applied in order.
pub open spec fn apply_all(
    s: RepoModel,
    actions: Seq<SyncAction>,
    commit: Seq<char>,
    clone_head: Seq<char>,
) -> RepoModel
    decreases actions.len(),
{
    if actions.len() == 0 {
        s
    } else {
        apply_all(apply_action(s, actions[0], commit, clone_head), actions.skip(1), commit, clone_head)
    }
}

/// Which operations a sync performs: a clone only when the checkout is
/// absent, then a fetch, then the checkout of the requested commit.
pub open spec fn sync_actions(present: bool) -> Seq<SyncAction> {
    if present {
        seq![SyncAction::FetchOrigin, SyncAction::CheckoutCommit]
    } else {
        seq![SyncAction::CloneRepo, SyncAction::FetchOrigin, SyncAction::CheckoutCommit]
    }
}

/// What a whole sync makes of the checkout.
pub open spec fn sync_model(s: RepoModel, commit: Seq<char>, clone_head: Seq<char>) -> RepoModel {
    apply_all(s, sync_actions(s is Some), commit, clone_head)
}

/// Syncing lands the working tree on the requested commit from any starting
/// state; doing it again reaches the very same state, and the second pass
/// never attempts a clone, so it cannot fail for the checkout already being
/// there.
pub proof fn lemma_sync_idempotent(s: RepoModel, commit: Seq<char>, clone_head: Seq<char>)
    ensures
        sync_model(s, commit, clone_head) == Some(commit),
        sync_model(sync_model(s, commit, clone_head), commit, clone_head) == sync_model(
            s,
            commit,
            clone_head,
        ),
        sync_actions(sync_model(s, commit, clone_head) is Some) == sync_actions(true),
        !sync_actions(true).contains(SyncAction::CloneRepo),
{
    reveal_with_fuel(apply_all, 4);
    assert(sync_model(s, commit, clone_head) == Some(commit));
    assert(sync_model(Some(commit), commit, clone_head) == Some(commit));
    assert forall|i: int| 0 <= i < sync_actions(true).len() implies sync_actions(true)[i]
        != SyncAction::CloneRepo by {
    }
}

/// Opens the repository at the path, and clones it from the address when
/// none can be opened. A failure to open is no error: the clone answers it.
pub fn init_repo(path: &String, url: &String) -> (r: Result<git2::Repository, SyncError>)
    ensures
        r matches Err(e) ==> e is CloneFailed,
{
    match repo_open(path) {
        Ok(repo) => Ok(repo),
        Err(_) => match repo_clone_recurse(url, path) {
            Ok(repo) => Ok(repo),
            Err(e) => Err(SyncError::CloneFailed(git_error_text(&e))),
        },
    }
}

/// The texts of the entries that are present, in order.
pub open spec fn present_texts(v: Seq<Option<String>>) -> Seq<Seq<char>>
    decreases v.len(),
{
    if v.len() == 0 {
        Seq::empty()
    } else {
        match v.last() {
            Some(s) => present_texts(v.drop_last()).push(s@),
            None => present_texts(v.drop_last()),
        }
    }
}

/// Keeps the refspecs whose text was well-formed, in their order.
fn present_refspecs(v: &Vec<Option<String>>) -> (r: Vec<String>)
    ensures
        r@.map_values(|s: String| s@) == present_texts(v@),
{
    let mut r: Vec<String> = Vec::new();
    proof {
        assert(v@.take(0) =~= Seq::<Option<String>>::empty());
    }
    let mut i: usize = 0;
    while i < v.len()
        invariant
            i <= v@.len(),
            r@.map_values(|s: String| s@) == present_texts(v@.take(i as int)),
        decreases v@.len() - i,
    {
        let ghost prev = r@;
        proof {
            assert(v@.take(i as int + 1).drop_last() =~= v@.take(i as int));
            assert(v@.take(i as int + 1).last() == v@[i as int]);
        }
        match &v[i] {
            Some(s) => {
                r.push(s.clone());
                proof {
                    assert(r@.drop_last() =~= prev);
                    assert(r@.map_values(|s2: String| s2@) =~= prev.map_values(
                        |s2: String| s2@,
                    ).push(s@));
                }
            },
            None => {},
        }
        i += 1;
    }
    proof {
        assert(v@.take(v@.len() as int) =~= v@);
    }
    r
}

/// Fetches from the origin remote, over the refspecs it is configured
/// with: exactly those of the remote's listed refspecs whose text was
/// well-formed, in their order.
pub fn fetch_origin_branches(repo: &git2::Repository) -> (r: Result<(), SyncError>)
    ensures
        r matches Err(e) ==> e is FetchFailed,
{
    let mut remote = match repo_find_remote(repo, "origin") {
        Ok(rem) => rem,
        Err(e) => {
            return Err(SyncError::FetchFailed(git_error_text(&e)));
        },
    };
    let maybe_specs = remote_refspec_strings(&remote);
    let refspecs = present_refspecs(&maybe_specs);
    match remote_fetch(&mut remote, &refspecs) {
        Ok(()) => Ok(()),
        Err(e) => Err(SyncError::FetchFailed(git_error_text(&e))),
    }
}

/// Puts the working tree at the given commit: HEAD detached onto it, index
/// and tree made to match, local modifications discarded.
pub fn checkout(repo: &git2::Repository, checksum: &String) -> (r: Result<(), SyncError>)
    ensures
        !oid_str_ok(checksum@) ==> (r matches Err(SyncError::BadReference(c)) && c@ == checksum@),
        r matches Err(e) ==> (e is BadReference || e is CheckoutFailed),
        r matches Err(SyncError::BadReference(c)) ==> (c@ == checksum@ && !oid_str_ok(checksum@)),
{
    let oid = match oid_from_str(checksum) {
        Ok(oid) => oid,
        Err(_) => {
            return Err(SyncError::BadReference(checksum.clone()));
        },
    };
    match repo_set_head_detached(repo, oid) {
        Ok(()) => {},
        Err(e) => {
            return Err(SyncError::CheckoutFailed(git_error_text(&e)));
        },
    }
    let target = match repo_find_object(repo, oid) {
        Ok(obj) => obj,
        Err(e) => {
            return Err(SyncError::CheckoutFailed(git_error_text(&e)));
        },
    };
    match repo_reset_hard(repo, &target) {
        Ok(()) => Ok(()),
        Err(e) => Err(SyncError::CheckoutFailed(git_error_text(&e))),
    }
}

/// Brings the checkout at the path to the commit: open or clone, fetch,
/// then check the commit out. A reference that git2 cannot parse is
/// answered with the error naming it.
pub fn sync(path: &String, url: &String, commit: &String) -> (r: Result<
    git2::Repository,
    SyncError,
>)
    ensures
        !oid_str_ok(commit@) ==> r is Err,
        r matches Err(SyncError::BadReference(c)) ==> (c@ == commit@ && !oid_str_ok(commit@)),
{
    let repo = match init_repo(path, url) {
        Ok(repo) => repo,
        Err(e) => {
            return Err(e);
        },
    };
    match fetch_origin_branches(&repo) {
        Ok(()) => {},
        Err(e) => {
            return Err(e);
        },
    }
    match checkout(&repo, commit) {
        Ok(()) => Ok(repo),
        Err(e) => Err(e),
    }
}

} // verus!
