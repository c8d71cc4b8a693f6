use vstd::prelude::*;
use vstd::string::StringExecFns;

use crate::errors::ParseError;
use crate::integrations::Hookable;
use crate::json::JsonValue;
use crate::BuildRequest;
use crate::Integrations;

verus! {

/// The actor field's text, when present and a string.
pub open spec fn owner_of(v: JsonValue) -> Option<Seq<char>> {
    match v.spec_get("actor"@) {
        Some(a) => a.spec_as_text(),
        None => None,
    }
}

/// The repository field's text, when present and a string.
pub open spec fn repo_of(v: JsonValue) -> Option<Seq<char>> {
    match v.spec_get("repository"@) {
        Some(a) => a.spec_as_text(),
        None => None,
    }
}

/// The first entry of the push's change list.
pub open spec fn first_change_of(v: JsonValue) -> Option<JsonValue> {
    match v.spec_get("push"@) {
        Some(p) => match p.spec_get("changes"@) {
            Some(c) => c.spec_index(0),
            None => None,
        },
        None => None,
    }
}

/// The target object of the first change's new head.
pub open spec fn target_of(v: JsonValue) -> Option<JsonValue> {
    match first_change_of(v) {
        Some(f) => match f.spec_get("new"@) {
            Some(n) => n.spec_get("target"@),
            None => None,
        },
        None => None,
    }
}

/// The pushed commit's hash, when the whole path down to it is present.
pub open spec fn commit_of(v: JsonValue) -> Option<Seq<char>> {
    match target_of(v) {
        Some(t) => match t.spec_get("hash"@) {
            Some(h) => h.spec_as_text(),
            None => None,
        },
        None => None,
    }
}

/// The outcome rejects the payload for want of an object field of this name.
pub open spec fn err_missing_key(r: Result<BuildRequest, ParseError>, key: Seq<char>) -> bool {
    r matches Err(ParseError::MissingKey(k)) && k@ == key
}

/// The outcome rejects the payload because the field of this name is not a string.
pub open spec fn err_not_string(r: Result<BuildRequest, ParseError>, key: Seq<char>) -> bool {
    r matches Err(ParseError::NotString(k)) && k@ == key
}

/// The outcome rejects the payload for want of an array element at this position.
pub open spec fn err_missing_index(r: Result<BuildRequest, ParseError>, i: int) -> bool {
    r matches Err(ParseError::MissingIndex(j)) && j as int == i
}

impl Hookable for BuildRequest {
    fn parse_push_request(val: &JsonValue) -> (r: Result<BuildRequest, ParseError>)
        ensures
            r is Ok <==> owner_of(*val) is Some && repo_of(*val) is Some && commit_of(*val)
                is Some,
            r matches Ok(req) ==> req.integration == Integrations::Bitbucket && owner_of(*val)
                == Some(req.owner@) && repo_of(*val) == Some(req.reponame@) && commit_of(*val)
                == Some(req.commit@),
            val.spec_get("actor"@) is None ==> err_missing_key(r, "actor"@),
            (val.spec_get("actor"@) matches Some(a) && a.spec_as_text() is None)
                ==> err_not_string(r, "actor"@),
            owner_of(*val) is Some && val.spec_get("repository"@) is None ==> err_missing_key(
                r,
                "repository"@,
            ),
            owner_of(*val) is Some && (val.spec_get("repository"@) matches Some(b)
                && b.spec_as_text() is None) ==> err_not_string(r, "repository"@),
            owner_of(*val) is Some && repo_of(*val) is Some && val.spec_get("push"@) is None
                ==> err_missing_key(r, "push"@),
            owner_of(*val) is Some && repo_of(*val) is Some && (val.spec_get("push"@)
                matches Some(p) && p.spec_get("changes"@) is None) ==> err_missing_key(
                r,
                "changes"@,
            ),
            owner_of(*val) is Some && repo_of(*val) is Some && (val.spec_get("push"@)
                matches Some(p) && (p.spec_get("changes"@) matches Some(c) && c.spec_index(0)
                is None)) ==> err_missing_index(r, 0),
            owner_of(*val) is Some && repo_of(*val) is Some && (first_change_of(*val)
                matches Some(f) && f.spec_get("new"@) is None) ==> err_missing_key(r, "new"@),
            owner_of(*val) is Some && repo_of(*val) is Some && (first_change_of(*val)
                matches Some(f) && (f.spec_get("new"@) matches Some(n) && n.spec_get("target"@)
                is None)) ==> err_missing_key(r, "target"@),
            owner_of(*val) is Some && repo_of(*val) is Some && (target_of(*val) matches Some(t)
                && t.spec_get("hash"@) is None) ==> err_missing_key(r, "hash"@),
            owner_of(*val) is Some && repo_of(*val) is Some && (target_of(*val) matches Some(t)
                && (t.spec_get("hash"@) matches Some(h) && h.spec_as_text() is None))
                ==> err_not_string(r, "hash"@),
    {
        let integration = Integrations::Bitbucket;
        let owner = match json_val_as_str(val, "actor") {
            Ok(s) => s,
            Err(e) => {
                return Err(e);
            },
        };
        let reponame = match json_val_as_str(val, "repository") {
            Ok(s) => s,
            Err(e) => {
                return Err(e);
            },
        };
        let pushval = match json_val_as_val(val, "push") {
            Ok(v) => v,
            Err(e) => {
                return Err(e);
            },
        };
        let changesval = match json_val_as_val(pushval, "changes") {
            Ok(v) => v,
            Err(e) => {
                return Err(e);
            },
        };
        let firstrefval = match json_arr_as_val(changesval, 0) {
            Ok(v) => v,
            Err(e) => {
                return Err(e);
            },
        };
        let newval = match json_val_as_val(firstrefval, "new") {
            Ok(v) => v,
            Err(e) => {
                return Err(e);
            },
        };
        let targetval = match json_val_as_val(newval, "target") {
            Ok(v) => v,
            Err(e) => {
                return Err(e);
            },
        };
        let commit = match json_val_as_str(targetval, "hash") {
            Ok(s) => s,
            Err(e) => {
                return Err(e);
            },
        };
        Ok(BuildRequest { reponame, commit, integration, owner })
    }

    fn build_clone_url(&self) -> (r: String)
        ensures
            r@ == "git@bitbucket.org:"@ + self.owner@ + "/"@ + self.reponame@ + ".git"@,
    {
        let mut s = String::from_str("git@bitbucket.org:");
        s.append(self.owner.as_str());
        s.append("/");
        s.append(self.reponame.as_str());
        s.append(".git");
        s
    }
}

/// The character content of the field of this name, when present and a string.
pub open spec fn text_at(val: JsonValue, key: Seq<char>) -> Option<Seq<char>> {
    match val.spec_get(key) {
        Some(v) => v.spec_as_text(),
        None => None,
    }
}

/// Looks a field up and insists that it holds a string.
fn json_val_as_str(val: &JsonValue, key: &str) -> (r: Result<String, ParseError>)
    ensures
        val.spec_get(key@) is None ==> (r matches Err(ParseError::MissingKey(k)) && k@ == key@),
        (val.spec_get(key@) matches Some(v) && v.spec_as_text() is None) ==> (r matches Err(
            ParseError::NotString(k),
        ) && k@ == key@),
        text_at(*val, key@) matches Some(t) ==> (r matches Ok(s) && s@ == t),
{
    match json_val_as_val(val, key) {
        Ok(v) => match v.as_str() {
            Some(s) => Ok(s.clone()),
            None => Err(ParseError::NotString(key.to_owned())),
        },
        Err(e) => Err(e),
    }
}

/// Looks an object field up by name.
fn json_val_as_val<'a>(val: &'a JsonValue, key: &str) -> (r: Result<&'a JsonValue, ParseError>)
    ensures
        val.spec_get(key@) matches Some(v) ==> (r matches Ok(rv) && *rv == v),
        val.spec_get(key@) is None ==> (r matches Err(ParseError::MissingKey(k)) && k@ == key@),
{
    match val.get_key(key) {
        Some(v) => Ok(v),
        None => Err(ParseError::MissingKey(key.to_owned())),
    }
}

/// Looks an array element up by position.
fn json_arr_as_val<'a>(val: &'a JsonValue, index: usize) -> (r: Result<&'a JsonValue, ParseError>)
    ensures
        val.spec_index(index as int) matches Some(v) ==> (r matches Ok(rv) && *rv == v),
        val.spec_index(index as int) is None ==> (r matches Err(ParseError::MissingIndex(j)) && j
            == index as u64),
{
    match val.get_index(index) {
        Some(v) => Ok(v),
        None => Err(ParseError::MissingIndex(index as u64)),
    }
}

} // verus!
