//! The fixed status texts a report run shows its caller, and the GitHub
//! search query for recent discussions.

use vstd::prelude::*;

verus! {

/// Whose contributions the report explores: the named user's, or the
/// community's when no user was given.
pub open spec fn addressee_spec(user: Option<Seq<char>>) -> Seq<char> {
    match user {
        Some(u) => u + "'s"@,
        None => "key community participants'"@,
    }
}

/// Renders the addressee for the opening status line.
pub fn addressee(user_name: &Option<String>) -> (r: String)
    ensures
        r@ == addressee_spec(crate::pipeline::opt_view(*user_name)),
{
    match user_name {
        Some(u) => {
            let mut out = u.clone();
            out.append("'s");
            out
        },
        None => "key community participants'".to_owned(),
    }
}

/// The opening status line of a report run.
pub open spec fn start_message_spec(addr: Seq<char>, owner: Seq<char>, repo: Seq<char>) -> Seq<
    char,
> {
    "exploring "@ + addr + " GitHub contributions to `"@ + owner + "/"@ + repo + "` project"@
}

/// Renders the opening status line.
pub fn start_message(addr: &str, owner: &str, repo: &str) -> (r: String)
    ensures
        r@ == start_message_spec(addr@, owner@, repo@),
{
    let mut out = String::new();
    out.append("exploring ");
    out.append(addr);
    out.append(" GitHub contributions to `");
    out.append(owner);
    out.append("/");
    out.append(repo);
    out.append("` project");
    proof {
        assert(out@ =~= start_message_spec(addr@, owner@, repo@));
    }
    out
}

/// The profile line woven into correlation.
pub open spec fn profile_line_spec(owner: Seq<char>, repo: Seq<char>, payload: Seq<char>) -> Seq<
    char,
> {
    "About "@ + owner + "/"@ + repo + ": "@ + payload
}

/// Renders the profile line for a validated owner/repo.
pub fn profile_line(owner: &str, repo: &str, payload: &str) -> (r: String)
    ensures
        r@ == profile_line_spec(owner@, repo@, payload@),
{
    let mut out = String::new();
    out.append("About ");
    out.append(owner);
    out.append("/");
    out.append(repo);
    out.append(": ");
    out.append(payload);
    proof {
        assert(out@ =~= profile_line_spec(owner@, repo@, payload@));
    }
    out
}

/// The reply to an invalid or private owner/repo.
pub fn invalid_input_message() -> (r: String)
    ensures
        r@ == "You've entered invalid owner/repo, or the target is private. Please try again."@,
{
    "You've entered invalid owner/repo, or the target is private. Please try again.".to_owned()
}

/// The notice shown when the named user has not contributed code.
pub open spec fn non_contributor_spec(user: Seq<char>, owner: Seq<char>, repo: Seq<char>) -> Seq<
    char,
> {
    user + " hasn't contributed code to "@ + owner + "/"@ + repo
        + ". Bot will try to find out "@ + user + "'s other contributions."@
}

/// Renders the non-contributor notice.
pub fn non_contributor_message(user: &str, owner: &str, repo: &str) -> (r: String)
    ensures
        r@ == non_contributor_spec(user@, owner@, repo@),
{
    let mut out = String::new();
    out.append(user);
    out.append(" hasn't contributed code to ");
    out.append(owner);
    out.append("/");
    out.append(repo);
    out.append(". Bot will try to find out ");
    out.append(user);
    out.append("'s other contributions.");
    proof {
        assert(out@ =~= non_contributor_spec(user@, owner@, repo@));
    }
    out
}

/// The notice shown when no user was named.
pub open spec fn no_user_spec(owner: Seq<char>, repo: Seq<char>) -> Seq<char> {
    "You didn't input a user's name. Bot will then create a report on the weekly progress of "@
        + owner + "/"@ + repo + "."@
}

/// Renders the no-user notice.
pub fn no_user_message(owner: &str, repo: &str) -> (r: String)
    ensures
        r@ == no_user_spec(owner@, repo@),
{
    let mut out = String::new();
    out.append(
        "You didn't input a user's name. Bot will then create a report on the weekly progress of ",
    );
    out.append(owner);
    out.append("/");
    out.append(repo);
    out.append(".");
    proof {
        assert(out@ =~= no_user_spec(owner@, repo@));
    }
    out
}

/// The GitHub search query for discussions a user was involved in since the
/// window opened.
pub open spec fn discussion_query_spec(user: Seq<char>, since: Seq<char>) -> Seq<char> {
    "involves:"@ + user + " updated:>"@ + since
}

/// Renders the discussion search query from the user and the window-start
/// timestamp.
pub fn discussion_query(user: &str, since: &str) -> (r: String)
    ensures
        r@ == discussion_query_spec(user@, since@),
{
    let mut out = String::new();
    out.append("involves:");
    out.append(user);
    out.append(" updated:>");
    out.append(since);
    proof {
        assert(out@ =~= discussion_query_spec(user@, since@));
    }
    out
}

/// Relies on `chrono::Utc::now`, `chrono::Duration::days` and
/// `DateTime::format`: the moment `n_days` days ago, rendered as a UTC
/// timestamp for GitHub search. The result depends on the clock, so nothing
/// is promised of it; `discussion_query` takes it as an argument.
#[verifier::external_body]
fn window_start_timestamp(n_days: u16) -> String {
    let start = chrono::Utc::now() - chrono::Duration::days(n_days as i64);
    start.format("%Y-%m-%dT%H:%M:%SZ").to_string()
}

/// The discussion query for the window that opened `n_days` days ago: a
/// well-formed query for whatever timestamp the clock yields.
pub fn weekly_discussion_query(user: &str, n_days: u16) -> (r: String)
    ensures
        exists|since: Seq<char>| r@ == #[trigger] discussion_query_spec(user@, since),
{
    let since = window_start_timestamp(n_days);
    let r = discussion_query(user, since.as_str());
    proof {
        assert(r@ == discussion_query_spec(user@, since@));
    }
    r
}

} // verus!
