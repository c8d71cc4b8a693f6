use vstd::prelude::*;
use vstd::string::StringExecFns;

use crate::errors::ParseError;
use crate::json::JsonValue;
use crate::BuildRequest;

pub mod bitbucket;

verus! {

/// Which hosting service a repository lives on.
#[derive(Clone, Copy, Debug, PartialEq, Eq, Structural)]
pub enum Integrations {
    Bitbucket,
}

/// The address to clone a repository from, over HTTPS.
pub open spec fn spec_integration_git_url(req: BuildRequest) -> Seq<char> {
    "https://bitbucket.org/"@ + req.owner@ + "/"@ + req.reponame@
}

pub fn get_integration_git_url(repo_update: &BuildRequest) -> (r: String)
    ensures
        r@ == spec_integration_git_url(*repo_update),
{
    match repo_update.integration {
        Integrations::Bitbucket => {
            let mut s = String::from_str("https://bitbucket.org/");
            s.append(repo_update.owner.as_str());
            s.append("/");
            s.append(repo_update.reponame.as_str());
            s
        },
    }
}

/// What an integration provider offers: turning an inbound push payload into
/// a build request, and naming the address to clone from.
pub trait Hookable {
    fn parse_push_request(val: &JsonValue) -> Result<BuildRequest, ParseError>;

    fn build_clone_url(&self) -> String;
}

} // verus!
