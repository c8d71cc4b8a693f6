use vstd::prelude::*;
use vstd::string::StringExecFns;

use crate::BuildInstruction;
use crate::BuildStatus;
use crate::BuildStepResult;
use crate::Integrations;

pub mod git;

verus! {

/// Global settings: where checkouts and build trees live.
#[derive(Debug)]
pub struct MetaConfig {
    pub build_root: String,
}

/// Per-repository settings, keyed by owner and repository name.
#[derive(Debug)]
pub struct RepoConfig {
    pub integration: Integrations,
    pub owner: String,
    pub reponame: String,
    pub api_token: String,
    pub build_instruction: BuildInstruction,
}

/// An entry serves the looked-up owner and repository name.
pub open spec fn repo_key_matches(r: RepoConfig, owner: Seq<char>, name: Seq<char>) -> bool {
    r.owner@ == owner && r.reponame@ == name
}

/// The entry for this key, the latest of the given entries winning.
pub open spec fn spec_lookup_repo(
    rs: Seq<RepoConfig>,
    owner: Seq<char>,
    name: Seq<char>,
) -> Option<RepoConfig>
    decreases rs.len(),
{
    if rs.len() == 0 {
        None
    } else if repo_key_matches(rs.last(), owner, name) {
        Some(rs.last())
    } else {
        spec_lookup_repo(rs.drop_last(), owner, name)
    }
}

/// No two entries share a key.
pub open spec fn unique_keys(rs: Seq<RepoConfig>) -> bool {
    forall|i: int, j: int|
        0 <= i < j < rs.len() ==> !#[trigger] repo_key_matches(rs[i], rs[j].owner@, rs[j].reponame@)
}

/// The lookup comes up empty exactly when no entry matches the key.
proof fn lemma_lookup_none(rs: Seq<RepoConfig>, owner: Seq<char>, name: Seq<char>)
    ensures
        spec_lookup_repo(rs, owner, name) is None <==> forall|i: int|
            0 <= i < rs.len() ==> !#[trigger] repo_key_matches(rs[i], owner, name),
    decreases rs.len(),
{
    if rs.len() > 0 {
        lemma_lookup_none(rs.drop_last(), owner, name);
        assert(rs.drop_last().len() == rs.len() - 1);
        assert(forall|i: int|
            0 <= i < rs.len() - 1 ==> rs.drop_last()[i] == #[trigger] rs[i]);
    }
}

/// The configuration store: global settings plus one entry per repository.
#[derive(Debug)]
pub struct Config {
    pub meta: MetaConfig,
    repos: Vec<RepoConfig>,
}

impl Config {
    /// The stored entries.
    pub closed spec fn spec_repos(&self) -> Seq<RepoConfig> {
        self.repos@
    }

    /// The global settings.
    pub closed spec fn spec_meta(&self) -> MetaConfig {
        self.meta
    }

    /// The entry the store serves for this key.
    pub open spec fn spec_lookup(&self, owner: Seq<char>, name: Seq<char>) -> Option<RepoConfig> {
        spec_lookup_repo(self.spec_repos(), owner, name)
    }

    /// Keys are unique within the store.
    pub open spec fn wf(&self) -> bool {
        unique_keys(self.spec_repos())
    }

    /// Builds the store from a list of entries; of entries sharing a key the
    /// later one wins, as when filling a map.
    pub fn new(meta: MetaConfig, entries: Vec<RepoConfig>) -> (c: Config)
        ensures
            c.spec_meta() == meta,
            c.wf(),
            forall|o: Seq<char>, n: Seq<char>|
                #[trigger] c.spec_lookup(o, n) == spec_lookup_repo(entries@, o, n),
    {
        let ghost input = entries@;
        let mut pending = entries;
        let mut acc: Vec<RepoConfig> = Vec::new();
        while pending.len() > 0
            invariant
                unique_keys(acc@),
                forall|o: Seq<char>, n: Seq<char>|
                    #[trigger] spec_lookup_repo(input, o, n) == (match spec_lookup_repo(
                        acc@,
                        o,
                        n,
                    ) {
                        Some(x) => Some(x),
                        None => spec_lookup_repo(pending@, o, n),
                    }),
            decreases pending@.len(),
        {
            let ghost old_pending = pending@;
            let ghost old_acc = acc@;
            let e = pending.pop().unwrap();
            proof {
                assert(old_pending.drop_last() =~= pending@);
            }
            let present = find_repo(&acc, &e.owner, &e.reponame).is_some();
            if present {
                proof {
                    assert forall|o: Seq<char>, n: Seq<char>|
                        #[trigger] spec_lookup_repo(input, o, n) == (match spec_lookup_repo(
                            acc@,
                            o,
                            n,
                        ) {
                            Some(x) => Some(x),
                            None => spec_lookup_repo(pending@, o, n),
                        }) by {
                        if repo_key_matches(e, o, n) {
                            assert(spec_lookup_repo(old_pending, o, n) == Some(e));
                        } else {
                            assert(spec_lookup_repo(old_pending, o, n) == spec_lookup_repo(
                                pending@,
                                o,
                                n,
                            ));
                        }
                    }
                }
            } else {
                proof {
                    lemma_lookup_none(acc@, e.owner@, e.reponame@);
                }
                acc.push(e);
                proof {
                    assert(acc@.drop_last() =~= old_acc);
                    assert(unique_keys(acc@));
                    assert forall|o: Seq<char>, n: Seq<char>|
                        #[trigger] spec_lookup_repo(input, o, n) == (match spec_lookup_repo(
                            acc@,
                            o,
                            n,
                        ) {
                            Some(x) => Some(x),
                            None => spec_lookup_repo(pending@, o, n),
                        }) by {
                        let e2 = acc@.last();
                        if repo_key_matches(e2, o, n) {
                            assert(spec_lookup_repo(old_pending, o, n) == Some(e2));
                        } else {
                            assert(spec_lookup_repo(acc@, o, n) == spec_lookup_repo(old_acc, o, n));
                            assert(spec_lookup_repo(old_pending, o, n) == spec_lookup_repo(
                                pending@,
                                o,
                                n,
                            ));
                        }
                    }
                }
            }
        }
        proof {
            assert forall|o: Seq<char>, n: Seq<char>| #[trigger] spec_lookup_repo(acc@, o, n)
                == spec_lookup_repo(input, o, n) by {
                assert(spec_lookup_repo(input, o, n) == (match spec_lookup_repo(acc@, o, n) {
                    Some(x) => Some(x),
                    None => spec_lookup_repo(pending@, o, n),
                }));
                assert(pending@.len() == 0);
            }
        }
        Config { meta, repos: acc }
    }

    /// Serves the entry for this key, if one is stored.
    pub fn lookup<'a>(&'a self, owner: &String, reponame: &String) -> (r: Option<&'a RepoConfig>)
        ensures
            match r {
                Some(rc) => self.spec_lookup(owner@, reponame@) == Some(*rc),
                None => self.spec_lookup(owner@, reponame@) is None,
            },
    {
        find_repo(&self.repos, owner, reponame)
    }
}

/// Scans entries for the latest one with this key.
fn find_repo<'a>(rs: &'a Vec<RepoConfig>, owner: &String, reponame: &String) -> (r: Option<
    &'a RepoConfig,
>)
    ensures
        match r {
            Some(rc) => spec_lookup_repo(rs@, owner@, reponame@) == Some(*rc),
            None => spec_lookup_repo(rs@, owner@, reponame@) is None,
        },
{
    let mut i: usize = rs.len();
    proof {
        assert(rs@.take(rs@.len() as int) =~= rs@);
    }
    while i > 0
        invariant
            i <= rs@.len(),
            spec_lookup_repo(rs@, owner@, reponame@) == spec_lookup_repo(
                rs@.take(i as int),
                owner@,
                reponame@,
            ),
        decreases i,
    {
        i -= 1;
        proof {
            assert(rs@.take(i as int + 1).drop_last() =~= rs@.take(i as int));
            assert(rs@.take(i as int + 1).last() == rs@[i as int]);
        }
        if rs[i].owner == *owner && rs[i].reponame == *reponame {
            return Some(&rs[i]);
        }
    }
    proof {
        assert(rs@.take(0) =~= Seq::<RepoConfig>::empty());
    }
    None
}

/// One captured piece of a running step's output, by stream.
#[derive(Debug)]
pub enum TextOutput {
    Stdout(String),
    Stderr(String),
}

impl TextOutput {
    /// The captured text itself.
    pub open spec fn spec_text(&self) -> Seq<char> {
        match self {
            TextOutput::Stdout(s) => s@,
            TextOutput::Stderr(s) => s@,
        }
    }

    pub fn text(&self) -> (r: &String)
        ensures
            r@ == self.spec_text(),
    {
        match self {
            TextOutput::Stdout(s) => s,
            TextOutput::Stderr(s) => s,
        }
    }
}

/// A progress event, sent over the channel while a build runs.
#[derive(Debug)]
pub enum BuildUpdates {
    Started,
    StepStarted(String),
    StepNewOutput(TextOutput),
    StepFinished(BuildStepResult),
    Finished,
}

impl BuildUpdates {
    /// The line this event prints as.
    pub open spec fn spec_describe(&self) -> Seq<char> {
        match self {
            BuildUpdates::Started => "Starting build"@,
            BuildUpdates::StepStarted(s) => "Starting step: "@ + s@,
            BuildUpdates::StepNewOutput(t) => t.spec_text(),
            BuildUpdates::StepFinished(res) => if res.status == BuildStatus::Successful {
                "Finished build-step"@
            } else {
                "Finished build-step with failure"@
            },
            BuildUpdates::Finished => "Finished  build"@,
        }
    }

    pub fn describe(&self) -> (r: String)
        requires
            self matches BuildUpdates::StepFinished(res) ==> (res.status
                == BuildStatus::Successful || res.status == BuildStatus::Failed),
        ensures
            r@ == self.spec_describe(),
    {
        match self {
            BuildUpdates::Started => String::from_str("Starting build"),
            BuildUpdates::StepStarted(s) => {
                let mut r = String::from_str("Starting step: ");
                r.append(s.as_str());
                r
            },
            BuildUpdates::StepNewOutput(t) => t.text().clone(),
            BuildUpdates::StepFinished(res) => {
                if res.status == BuildStatus::Successful {
                    String::from_str("Finished build-step")
                } else {
                    String::from_str("Finished build-step with failure")
                }
            },
            BuildUpdates::Finished => String::from_str("Finished  build"),
        }
    }
}

} // verus!
