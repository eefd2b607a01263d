//! Source pipeline and correlator: the per-source progress accounting and
//! the final report assembly.
//!
//! For each data source (commits, issues, discussions) the pipeline records a
//! progress line naming what was found, then accepts that source's
//! summarization outcome. The correlator turns the accumulated state and the
//! final chained-summarizer answer into the report: a fixed no-data message
//! when every source stayed empty, a fixed placeholder when correlation
//! failed, and otherwise the progress buffer followed by the correlated
//! narrative.

use vstd::prelude::*;
use crate::text::join_sep;

verus! {

/// One unit of raw activity: a commit, issue, or discussion thread.
pub struct ActivityItem {
    /// Where the item came from; its last path segment names it in progress
    /// lines.
    pub source_url: String,
    /// The free text handed to budgeting and summarization.
    pub payload: String,
}

/// A successful fetch: how many items the query reported, and the items.
pub struct Fetched {
    pub count: u64,
    pub items: Vec<ActivityItem>,
}

/// The three data sources, in their fixed pipeline order.
#[derive(Clone, Copy, PartialEq, Eq, Debug)]
pub enum SourceKind {
    Commits,
    Issues,
    Discussions,
}

/// How one source's summarization step ended.
pub enum SourceOutcome {
    /// The source had no items; summarization was skipped.
    NoData,
    /// The chained summarizer produced this summary.
    Summarized(String),
    /// Summarization failed; the source contributes nothing.
    Failed,
}

/// The decimal digit characters.
pub open spec fn digit_char(d: nat) -> char {
    if d == 0 {
        '0'
    } else if d == 1 {
        '1'
    } else if d == 2 {
        '2'
    } else if d == 3 {
        '3'
    } else if d == 4 {
        '4'
    } else if d == 5 {
        '5'
    } else if d == 6 {
        '6'
    } else if d == 7 {
        '7'
    } else if d == 8 {
        '8'
    } else {
        '9'
    }
}

/// The decimal rendering of a number, most significant digit first.
pub open spec fn decimal_of(n: nat) -> Seq<char>
    decreases n,
{
    if n < 10 {
        seq![digit_char(n)]
    } else {
        decimal_of(n / 10).push(digit_char(n % 10))
    }
}

fn digit_str(d: u64) -> (r: &'static str)
    requires
        d < 10,
    ensures
        r@ == seq![digit_char(d as nat)],
{
    if d == 0 {
        proof {
            reveal_strlit("0");
            assert("0"@ =~= seq![digit_char(0)]);
        }
        "0"
    } else if d == 1 {
        proof {
            reveal_strlit("1");
            assert("1"@ =~= seq![digit_char(1)]);
        }
        "1"
    } else if d == 2 {
        proof {
            reveal_strlit("2");
            assert("2"@ =~= seq![digit_char(2)]);
        }
        "2"
    } else if d == 3 {
        proof {
            reveal_strlit("3");
            assert("3"@ =~= seq![digit_char(3)]);
        }
        "3"
    } else if d == 4 {
        proof {
            reveal_strlit("4");
            assert("4"@ =~= seq![digit_char(4)]);
        }
        "4"
    } else if d == 5 {
        proof {
            reveal_strlit("5");
            assert("5"@ =~= seq![digit_char(5)]);
        }
        "5"
    } else if d == 6 {
        proof {
            reveal_strlit("6");
            assert("6"@ =~= seq![digit_char(6)]);
        }
        "6"
    } else if d == 7 {
        proof {
            reveal_strlit("7");
            assert("7"@ =~= seq![digit_char(7)]);
        }
        "7"
    } else if d == 8 {
        proof {
            reveal_strlit("8");
            assert("8"@ =~= seq![digit_char(8)]);
        }
        "8"
    } else {
        proof {
            reveal_strlit("9");
            assert("9"@ =~= seq![digit_char(9)]);
        }
        "9"
    }
}

/// Renders a count in decimal.
pub fn u64_to_string(n: u64) -> (r: String)
    ensures
        r@ == decimal_of(n as nat),
    decreases n,
{
    if n < 10 {
        let d = digit_str(n);
        d.to_owned()
    } else {
        let mut s = u64_to_string(n / 10);
        let d = digit_str(n % 10);
        s.append(d);
        proof {
            assert(s@ =~= decimal_of((n / 10) as nat).push(digit_char((n % 10) as nat)));
        }
        s
    }
}

/// The characters after the last `'/'` of a URL (the whole text when it has
/// no `'/'`; empty when it ends with one).
pub open spec fn after_last_slash(s: Seq<char>) -> Seq<char>
    decreases s.len(),
{
    if s.len() == 0 {
        s
    } else if s.last() == '/' {
        Seq::<char>::empty()
    } else {
        after_last_slash(s.drop_last()).push(s.last())
    }
}

proof fn lemma_after_last_slash_at(s: Seq<char>, p: int)
    requires
        0 <= p < s.len(),
        s[p] == '/',
        forall|j: int| p < j < s.len() ==> s[j] != '/',
    ensures
        after_last_slash(s) == s.subrange(p + 1, s.len() as int),
    decreases s.len(),
{
    if p == s.len() - 1 {
        assert(after_last_slash(s) =~= s.subrange(p + 1, s.len() as int));
    } else {
        assert(s.last() != '/');
        lemma_after_last_slash_at(s.drop_last(), p);
        assert(after_last_slash(s.drop_last()) == s.drop_last().subrange(
            p + 1,
            s.len() - 1,
        ));
        assert(s.drop_last().subrange(p + 1, s.len() - 1) =~= s.subrange(p + 1, s.len() - 1));
        assert(s.subrange(p + 1, s.len() - 1).push(s.last()) =~= s.subrange(p + 1, s.len() as int));
    }
}

proof fn lemma_after_last_slash_none(s: Seq<char>)
    requires
        forall|j: int| 0 <= j < s.len() ==> s[j] != '/',
    ensures
        after_last_slash(s) == s,
    decreases s.len(),
{
    if s.len() > 0 {
        lemma_after_last_slash_none(s.drop_last());
        assert(after_last_slash(s.drop_last()).push(s.last()) =~= s);
    }
}

/// The last path segment of a URL.
pub fn last_segment(url: &str) -> (r: String)
    ensures
        r@ == after_last_slash(url@),
{
    let n = url.unicode_len();
    let mut i = n;
    while i > 0
        invariant
            i <= n,
            n == url@.len(),
            forall|j: int| i <= j < n ==> url@[j] != '/',
        decreases i,
    {
        if url.get_char(i - 1) == '/' {
            let r = url.substring_char(i, n);
            proof {
                lemma_after_last_slash_at(url@, i - 1);
            }
            return r.to_owned();
        }
        i -= 1;
    }
    proof {
        lemma_after_last_slash_none(url@);
    }
    url.to_owned()
}

/// The short display id that names an item in a progress line: the last URL
/// segment, shortened to the first seven characters for commit hashes.
pub open spec fn display_id(kind: SourceKind, url: Seq<char>) -> Seq<char> {
    let seg = after_last_slash(url);
    if kind == SourceKind::Commits && seg.len() > 7 {
        seg.take(7)
    } else {
        seg
    }
}

/// Renders one item's display id.
pub fn item_display_id(kind: SourceKind, url: &str) -> (r: String)
    ensures
        r@ == display_id(kind, url@),
{
    let seg = last_segment(url);
    let is_commits = match kind {
        SourceKind::Commits => true,
        _ => false,
    };
    if is_commits && seg.as_str().unicode_len() > 7 {
        let short = seg.as_str().substring_char(0, 7);
        proof {
            assert(seg@.subrange(0, 7) =~= seg@.take(7));
        }
        short.to_owned()
    } else {
        seg
    }
}

/// The display ids of a fetched item list, in order.
pub open spec fn ids_spec(kind: SourceKind, items: Seq<ActivityItem>) -> Seq<Seq<char>> {
    Seq::new(items.len(), |i: int| display_id(kind, items[i].source_url@))
}

/// Renders the display ids of all fetched items.
pub fn item_ids(kind: SourceKind, items: &Vec<ActivityItem>) -> (r: Vec<String>)
    ensures
        r.deep_view() == ids_spec(kind, items@),
{
    let mut out: Vec<String> = Vec::new();
    let mut i: usize = 0;
    while i < items.len()
        invariant
            i <= items.len(),
            out.deep_view() =~~= ids_spec(kind, items@).take(i as int),
        decreases items.len() - i,
    {
        let ghost old_dv = out.deep_view();
        let id = item_display_id(kind, items[i].source_url.as_str());
        out.push(id);
        proof {
            assert(out.deep_view() =~~= old_dv + seq![display_id(kind, items@[i as int].source_url@)]);
            assert(out.deep_view() =~~= ids_spec(kind, items@).take(i + 1));
        }
        i += 1;
    }
    proof {
        assert(ids_spec(kind, items@).take(items@.len() as int) =~~= ids_spec(kind, items@));
    }
    out
}

/// The plural name of a source in progress lines.
pub open spec fn label_spec(kind: SourceKind) -> Seq<char> {
    match kind {
        SourceKind::Commits => "commits"@,
        SourceKind::Issues => "issues"@,
        SourceKind::Discussions => "discussions"@,
    }
}

/// The progress line for one source: what was found, and the ids.
pub open spec fn progress_line_spec(kind: SourceKind, count: nat, ids: Seq<Seq<char>>) -> Seq<
    char,
> {
    "found "@ + decimal_of(count) + " "@ + label_spec(kind) + ": "@ + join_sep(ids, ", "@)
}

/// The progress line a fetch result earns: a failed fetch reads as zero
/// items.
pub open spec fn fetch_line_spec(kind: SourceKind, fetch: Option<Fetched>) -> Seq<char> {
    match fetch {
        Some(f) => progress_line_spec(kind, f.count as nat, ids_spec(kind, f.items@)),
        None => progress_line_spec(kind, 0, Seq::<Seq<char>>::empty()),
    }
}

/// Renders the progress line for one source's fetch result.
pub fn fetch_progress_line(kind: SourceKind, fetch: &Option<Fetched>) -> (r: String)
    ensures
        r@ == fetch_line_spec(kind, *fetch),
{
    let mut out = String::new();
    out.append("found ");
    match fetch {
        Some(f) => {
            let num = u64_to_string(f.count);
            out.append(num.as_str());
        },
        None => {
            let num = u64_to_string(0);
            out.append(num.as_str());
        },
    }
    out.append(" ");
    match kind {
        SourceKind::Commits => out.append("commits"),
        SourceKind::Issues => out.append("issues"),
        SourceKind::Discussions => out.append("discussions"),
    }
    out.append(": ");
    match fetch {
        Some(f) => {
            let ids = item_ids(kind, &f.items);
            let joined = crate::text::join_with(&ids, ", ");
            out.append(joined.as_str());
        },
        None => {
            proof {
                assert(join_sep(Seq::<Seq<char>>::empty(), ", "@) =~= Seq::<char>::empty());
            }
        },
    }
    out
}

/// The view of an optional user name.
pub open spec fn opt_view(u: Option<String>) -> Option<Seq<char>> {
    match u {
        Some(s) => Some(s@),
        None => None,
    }
}

/// The fixed message when every source stayed empty: it names the user when
/// one was given.
pub open spec fn no_data_spec(user: Option<Seq<char>>) -> Seq<char> {
    match user {
        Some(u) => "No useful data found for "@ + u
            + ", you may try `/search` to find out more about "@ + u,
        None => "No useful data found, nothing to report"@,
    }
}

/// Renders the no-data message for the given user, or the generic variant.
pub fn no_data_message(user_name: &Option<String>) -> (r: String)
    ensures
        r@ == no_data_spec(opt_view(*user_name)),
{
    match user_name {
        Some(u) => {
            let mut out = String::new();
            out.append("No useful data found for ");
            out.append(u.as_str());
            out.append(", you may try `/search` to find out more about ");
            out.append(u.as_str());
            proof {
                assert(out@ =~= no_data_spec(opt_view(*user_name)));
            }
            out
        },
        None => "No useful data found, nothing to report".to_owned(),
    }
}

/// The text a summarization outcome leaves in a source's summary slot.
pub open spec fn outcome_text(outcome: SourceOutcome, prior: Seq<char>) -> Seq<char> {
    match outcome {
        SourceOutcome::Summarized(s) => s@,
        _ => prior,
    }
}

/// The running state of one report: the progress buffer shown to the caller
/// and the three per-source summaries awaiting correlation.
pub struct ReportState {
    /// The accumulated progress lines, one per recorded source.
    pub progress: String,
    /// The user the report is about, when one was given.
    pub user_name: Option<String>,
    /// The owner/repo profile text woven into correlation.
    pub profile: String,
    pub commits_summary: String,
    pub issues_summary: String,
    pub discussions_summary: String,
}

impl ReportState {
    /// Well-formedness: the progress buffer holds only recorded progress
    /// lines (so it opens with one), and no summary exists before its
    /// source's progress line was recorded.
    pub open spec fn inv(self) -> bool {
        &&& (self.progress@.len() > 0 ==> self.progress@[0] == 'f')
        &&& ((self.commits_summary@.len() > 0 || self.issues_summary@.len() > 0
            || self.discussions_summary@.len() > 0) ==> self.progress@.len() > 0)
    }

    /// No source contributed a summary.
    pub open spec fn all_sources_empty(self) -> bool {
        self.commits_summary@.len() == 0 && self.issues_summary@.len() == 0
            && self.discussions_summary@.len() == 0
    }

    /// Opens a report run for the given user and profile.
    pub fn new(user_name: Option<String>, profile: String) -> (r: ReportState)
        ensures
            r.progress@ == Seq::<char>::empty(),
            r.user_name == user_name,
            r.profile == profile,
            r.all_sources_empty(),
            r.inv(),
    {
        ReportState {
            progress: String::new(),
            user_name,
            profile,
            commits_summary: String::new(),
            issues_summary: String::new(),
            discussions_summary: String::new(),
        }
    }

    /// Records one source's fetch result: appends its progress line to the
    /// buffer and hands the line back for the incremental status update.
    /// Returns whether the source has items to summarize; a failed fetch
    /// reads as zero items and never aborts the run.
    pub fn record_source(&mut self, kind: SourceKind, fetch: &Option<Fetched>) -> (r: (
        String,
        bool,
    ))
        requires
            old(self).inv(),
        ensures
            final(self).inv(),
            final(self).progress@.len() > 0,
            r.0@ == fetch_line_spec(kind, *fetch),
            final(self).progress@ == old(self).progress@ + fetch_line_spec(kind, *fetch) + "\n"@,
            final(self).user_name == old(self).user_name,
            final(self).profile == old(self).profile,
            final(self).commits_summary == old(self).commits_summary,
            final(self).issues_summary == old(self).issues_summary,
            final(self).discussions_summary == old(self).discussions_summary,
            r.1 == match *fetch {
                Some(f) => f.count > 0,
                None => false,
            },
    {
        let line = fetch_progress_line(kind, fetch);
        self.progress.append(line.as_str());
        self.progress.append("\n");
        let has_items = match fetch {
            Some(f) => f.count > 0,
            None => false,
        };
        proof {
            reveal_strlit("found ");
            reveal_strlit("\n");
            assert(fetch_line_spec(kind, *fetch)[0] == 'f');
            assert(self.progress@[0] == 'f');
        }
        (line, has_items)
    }

    /// Stores one source's summarization outcome: a summary fills that
    /// source's slot, while no-data and failure leave it empty — the same
    /// empty contribution to correlation, recorded after the source's
    /// progress line.
    pub fn record_outcome(&mut self, kind: SourceKind, outcome: SourceOutcome)
        requires
            old(self).inv(),
            old(self).progress@.len() > 0,
        ensures
            final(self).inv(),
            final(self).progress == old(self).progress,
            final(self).user_name == old(self).user_name,
            final(self).profile == old(self).profile,
            final(self).commits_summary@ == if kind == SourceKind::Commits {
                outcome_text(outcome, old(self).commits_summary@)
            } else {
                old(self).commits_summary@
            },
            final(self).issues_summary@ == if kind == SourceKind::Issues {
                outcome_text(outcome, old(self).issues_summary@)
            } else {
                old(self).issues_summary@
            },
            final(self).discussions_summary@ == if kind == SourceKind::Discussions {
                outcome_text(outcome, old(self).discussions_summary@)
            } else {
                old(self).discussions_summary@
            },
    {
        match outcome {
            SourceOutcome::Summarized(s) => {
                match kind {
                    SourceKind::Commits => self.commits_summary = s,
                    SourceKind::Issues => self.issues_summary = s,
                    SourceKind::Discussions => self.discussions_summary = s,
                }
            },
            SourceOutcome::NoData => (),
            SourceOutcome::Failed => (),
        }
    }

    /// The correlator's last word: the fixed no-data message when every
    /// source stayed empty (the given correlation is not consulted), the
    /// fixed placeholder when correlation failed, and otherwise the progress
    /// buffer followed by the correlated narrative. The no-data message is
    /// returned in exactly that case and never otherwise.
    pub fn final_report(&self, correlation: Option<&String>) -> (r: String)
        requires
            self.inv(),
        ensures
            self.all_sources_empty() ==> r@ == no_data_spec(opt_view(self.user_name)),
            !self.all_sources_empty() ==> r@ == match correlation {
                Some(s) => self.progress@ + s@,
                None => "no report generated"@,
            },
            !self.all_sources_empty() ==> r@ != no_data_spec(opt_view(self.user_name)),
    {
        let empty = self.commits_summary.as_str().is_empty()
            && self.issues_summary.as_str().is_empty()
            && self.discussions_summary.as_str().is_empty();
        if empty {
            no_data_message(&self.user_name)
        } else {
            proof {
                reveal_strlit("no report generated");
                reveal_strlit("No useful data found for ");
                reveal_strlit("No useful data found, nothing to report");
            }
            let r = match correlation {
                Some(s) => {
                    let mut out = self.progress.clone();
                    out.append(s.as_str());
                    out
                },
                None => "no report generated".to_owned(),
            };
            proof {
                let t = no_data_spec(opt_view(self.user_name));
                assert(t.len() > 0 && t[0] == 'N');
                assert(r@.len() > 0 && r@[0] != 'N');
            }
            r
        }
    }
}

} // verus!
