//! GitHub pull-request webhooks: what the server answers to one, and what it
//! archives when a merged pull request belongs to a repository it builds.

use vstd::prelude::*;
use vstd::string::StringExecFns;
use crate::cargo_build::Build;
use crate::config::{Repositories, has_name, lookup};
use crate::reports::Report;
use crate::text::{int_to_text, int_text, parse_i32_spec, law_parse_reads_back_text};

verus! {

broadcast use vstd::string::group_string_axioms;

/// What the handler reads of the JSON value `merged_at`: its text when it is
/// a JSON string, and the value as JSON prints it.
pub struct MergedAt {
    pub as_str: Option<String>,
    pub json: String,
}

/// The author of a pull request.
pub struct UserObject {
    pub login: String,
    pub html_url: String,
}

/// The repository a webhook is about.
pub struct RepositoryObject {
    pub id: i32,
    pub name: String,
    pub html_url: String,
}

/// The pull request a webhook is about.
pub struct PullRequestObject {
    pub merged_at: MergedAt,
    pub url: String,
    pub diff_url: String,
    pub title: String,
    pub user: UserObject,
}

/// A pull-request webhook.
pub struct PullRequestEvent {
    pub pull_request: PullRequestObject,
    pub repository: RepositoryObject,
}

/// The message for a pull request that is not merged.
pub open spec fn not_merged_text(e: PullRequestEvent) -> Seq<char> {
    "\n'merged_at': null, 'repo': "@ + e.repository.name@ + ", 'url': "@ + e.repository.html_url@
}

/// The answer to a merged pull request, before any build.
pub open spec fn answer_text(e: PullRequestEvent) -> Seq<char> {
    "\n'repo': "@ + e.repository.name@ + ", 'ID': "@ + int_text(e.repository.id as int) + ", 'url': "@
        + e.repository.html_url@ + ", 'merged_at': "@ + e.pull_request.merged_at.json@
        + ", 'cargo_msg':"@ + "nothing here yet"@
}

/// What the answer gains from a build in `path` that printed `msg`.
pub open spec fn build_content_text(e: PullRequestEvent, path: Seq<char>, msg: Seq<char>) -> Seq<char> {
    "\n'repo_name': "@ + e.repository.name@ + ", 'repo_id': "@ + int_text(e.repository.id as int)
        + ", 'html_url': "@ + e.repository.html_url@ + ", 'merged_at': "@
        + e.pull_request.merged_at.json@ + ", 'loc_path': "@ + path + ", 'cargo_msg':"@ + msg
}

/// The `ID` field of the answer to a merged pull request is the decimal
/// text of the whole repository id: reading it back gives the id, for every
/// `i32`.
pub proof fn law_answer_carries_full_id(e: PullRequestEvent)
    ensures
        exists|t: Seq<char>| #[trigger] parse_i32_spec(t) == Some(e.repository.id) && answer_text(e)
            == "\n'repo': "@ + e.repository.name@ + ", 'ID': "@ + t + ", 'url': "@
            + e.repository.html_url@ + ", 'merged_at': "@ + e.pull_request.merged_at.json@
            + ", 'cargo_msg':"@ + "nothing here yet"@,
{
    let t = int_text(e.repository.id as int);
    law_parse_reads_back_text(e.repository.id);
    assert(parse_i32_spec(t) == Some(e.repository.id));
}

/// After a build, the answer ends with `'cargo_msg':` and then the whole of
/// the build's text, and its `repo_id` field reads back as the whole
/// repository id.
pub proof fn law_build_account_ends_with_message(
    e: PullRequestEvent,
    answer: Seq<char>,
    path: Seq<char>,
    msg: Seq<char>,
)
    ensures
        ({
            let full = answer + build_content_text(e, path, msg);
            let label = ", 'cargo_msg':"@;
            &&& full.len() >= answer.len() + label.len() + msg.len()
            &&& full.subrange(0, answer.len() as int) == answer
            &&& full.subrange(full.len() - msg.len(), full.len() as int) == msg
            &&& full.subrange(full.len() - msg.len() - label.len(), full.len() - msg.len()) == label
        }),
        exists|t: Seq<char>| #[trigger] parse_i32_spec(t) == Some(e.repository.id) && build_content_text(e, path, msg)
            == "\n'repo_name': "@ + e.repository.name@ + ", 'repo_id': "@ + t
            + ", 'html_url': "@ + e.repository.html_url@ + ", 'merged_at': "@
            + e.pull_request.merged_at.json@ + ", 'loc_path': "@ + path + ", 'cargo_msg':"@ + msg,
{
    let label = ", 'cargo_msg':"@;
    let c = build_content_text(e, path, msg);
    let head = "\n'repo_name': "@ + e.repository.name@ + ", 'repo_id': "@ + int_text(e.repository.id as int)
        + ", 'html_url': "@ + e.repository.html_url@ + ", 'merged_at': "@
        + e.pull_request.merged_at.json@ + ", 'loc_path': "@ + path;
    assert(c == head + label + msg);
    let full = answer + c;
    assert(full =~= answer + head + label + msg);
    assert(full.subrange(0, answer.len() as int) =~= answer);
    assert(full.subrange(full.len() - msg.len(), full.len() as int) =~= msg);
    assert(full.subrange(full.len() - msg.len() - label.len(), full.len() - msg.len()) =~= label);
    law_parse_reads_back_text(e.repository.id);
    assert(parse_i32_spec(int_text(e.repository.id as int)) == Some(e.repository.id));
}

/// What to do with a webhook.
pub enum HookPlan {
    /// Refuse it: the pull request is not merged. Holds the message.
    NotMerged(String),
    /// Answer it, building nothing: the repository is not one the server
    /// builds. Holds the answer.
    Answer(String),
    /// Build the repository checked out at `path`, then answer.
    Build { answer: String, path: String },
}

/// What to do with `event`, given the repositories the server builds.
pub fn plan_hook(event: &PullRequestEvent, subjects: &Repositories) -> (r: HookPlan)
    ensures
        match r {
            HookPlan::NotMerged(m) => event.pull_request.merged_at.as_str is None
                && m@ == not_merged_text(*event),
            HookPlan::Answer(a) => event.pull_request.merged_at.as_str is Some
                && !has_name(subjects@, event.repository.name@)
                && a@ == answer_text(*event),
            HookPlan::Build { answer, path } => event.pull_request.merged_at.as_str is Some
                && lookup(subjects@, event.repository.name@) == Some(path@)
                && answer@ == answer_text(*event),
        },
{
    let repo = &event.repository;
    if event.pull_request.merged_at.as_str.is_none() {
        let mut m = "\n'merged_at': null, 'repo': ".to_string();
        m.append(repo.name.as_str());
        m.append(", 'url': ");
        m.append(repo.html_url.as_str());
        return HookPlan::NotMerged(m);
    }
    let id = int_to_text(repo.id as i64);
    let mut a = "\n'repo': ".to_string();
    a.append(repo.name.as_str());
    a.append(", 'ID': ");
    a.append(id.as_str());
    a.append(", 'url': ");
    a.append(repo.html_url.as_str());
    a.append(", 'merged_at': ");
    a.append(event.pull_request.merged_at.json.as_str());
    a.append(", 'cargo_msg':");
    a.append("nothing here yet");
    match subjects.get(&repo.name) {
        Some(path) => HookPlan::Build { answer: a, path },
        None => HookPlan::Answer(a),
    }
}

/// The report archived for a build of `event`'s repository in `path`, filed
/// at `time`, and the full answer: `answer` followed by the build's account.
pub fn finish_hook(event: &PullRequestEvent, answer: String, path: &str, build: &Build, time: i64) -> (r: (Report, String))
    ensures
        r.0.repo_name@ == event.repository.name@,
        r.0.repo_url@ == event.repository.html_url@,
        r.0.pr_url@ == event.pull_request.url@,
        r.0.diff_url@ == event.pull_request.diff_url@,
        r.0.user@ == event.pull_request.user.login@,
        r.0.user_url@ == event.pull_request.user.html_url@,
        r.0.title@ == event.pull_request.title@,
        r.0.time == time,
        r.0.cargo_msg@ == build.text(),
        r.1@ == answer@ + build_content_text(*event, path@, build.text()),
{
    let repo = &event.repository;
    let pr = &event.pull_request;
    let msg = build.to_string();
    let id = int_to_text(repo.id as i64);
    let mut a = answer;
    a.append("\n'repo_name': ");
    a.append(repo.name.as_str());
    a.append(", 'repo_id': ");
    a.append(id.as_str());
    a.append(", 'html_url': ");
    a.append(repo.html_url.as_str());
    a.append(", 'merged_at': ");
    a.append(pr.merged_at.json.as_str());
    a.append(", 'loc_path': ");
    a.append(path);
    a.append(", 'cargo_msg':");
    a.append(msg.as_str());
    let report = Report {
        repo_name: repo.name.clone(),
        repo_url: repo.html_url.clone(),
        pr_url: pr.url.clone(),
        diff_url: pr.diff_url.clone(),
        user: pr.user.login.clone(),
        user_url: pr.user.html_url.clone(),
        title: pr.title.clone(),
        time,
        cargo_msg: msg,
    };
    (report, a)
}

} // verus!
