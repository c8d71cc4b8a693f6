use rupert::errors::decimal_string;
use rupert::integrations::get_integration_git_url;
use rupert::utils::Config;
use rupert::utils::MetaConfig;
use rupert::utils::RepoConfig;
use rupert::BuildInstruction;
use rupert::BuildRequest;
use rupert::BuildStep;
use rupert::Hookable;
use rupert::Integrations;

fn repo_entry(owner: &str, name: &str, token: &str) -> RepoConfig {
    RepoConfig {
        integration: Integrations::Bitbucket,
        owner: String::from(owner),
        reponame: String::from(name),
        api_token: String::from(token),
        build_instruction: BuildInstruction {
            steps: vec![BuildStep { cmd: String::from("make") }],
        },
    }
}

fn meta() -> MetaConfig {
    MetaConfig { build_root: String::from("/opt/rupert/build_root") }
}

#[test]
fn lookup_finds_the_entry() {
    let conf = Config::new(meta(), vec![repo_entry("purew", "foobar", "SECRET-REDACTED")]);
    let hit = conf.lookup(&String::from("purew"), &String::from("foobar")).unwrap();
    assert_eq!(hit.api_token, "SECRET-REDACTED");
    assert_eq!(hit.build_instruction.steps[0].cmd, "make");
    assert!(conf.lookup(&String::from("purew"), &String::from("other")).is_none());
    assert!(conf.lookup(&String::from("nobody"), &String::from("foobar")).is_none());
    assert_eq!(conf.meta.build_root, "/opt/rupert/build_root");
}

#[test]
fn later_entry_wins_for_same_key() {
    let conf = Config::new(
        meta(),
        vec![
            repo_entry("purew", "foobar", "older"),
            repo_entry("other", "thing", "t2"),
            repo_entry("purew", "foobar", "newer"),
        ],
    );
    let hit = conf.lookup(&String::from("purew"), &String::from("foobar")).unwrap();
    assert_eq!(hit.api_token, "newer");
    let other = conf.lookup(&String::from("other"), &String::from("thing")).unwrap();
    assert_eq!(other.api_token, "t2");
}

#[test]
fn build_request_and_urls() {
    let req = BuildRequest::new(
        Integrations::Bitbucket,
        String::from("alice"),
        String::from("demo"),
        String::from("abc123"),
    )
    .unwrap();
    assert_eq!(req.owner, "alice");
    assert_eq!(req.reponame, "demo");
    assert_eq!(req.commit, "abc123");
    assert_eq!(get_integration_git_url(&req), "https://bitbucket.org/alice/demo");
    assert_eq!(req.build_clone_url(), "git@bitbucket.org:alice/demo.git");
}

#[test]
fn decimal_notation() {
    assert_eq!(decimal_string(0), "0");
    assert_eq!(decimal_string(7), "7");
    assert_eq!(decimal_string(10), "10");
    assert_eq!(decimal_string(907), "907");
    assert_eq!(decimal_string(18446744073709551615), "18446744073709551615");
}
