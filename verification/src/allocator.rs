//! Budget allocator: fits two text blocks into a fixed word budget.
//!
//! The budget is a word count. When the blocks together exceed it, the
//! primary block is privileged up to `floor(budget * ratio)` words and the
//! secondary block absorbs the remaining slack; the ratio is given in
//! thousandths, so `ratio_pm = 400` stands for a 0.4 split.

use vstd::prelude::*;
use crate::text::{
    words, join_sep, wf_words, lemma_words_of_join, lemma_words_wf, lemma_wf_words_take,
    split_words, join_with,
};

verus! {

/// Word budget shared by the two blocks of one model request.
pub const SOURCE_BUDGET: usize = 44000;

/// Words granted to the primary block when the budget is exceeded.
pub open spec fn primary_cap(total_budget: nat, ratio_pm: nat) -> nat {
    total_budget * ratio_pm / 1000
}

/// The allocation policy on word sequences: pass both through when they fit;
/// otherwise truncate the primary to its cap if it exceeds the cap, and
/// otherwise cap the secondary to the slack the primary leaves.
pub open spec fn alloc_words(
    pw: Seq<Seq<char>>,
    sw: Seq<Seq<char>>,
    total_budget: nat,
    ratio_pm: nat,
) -> (Seq<Seq<char>>, Seq<Seq<char>>) {
    if pw.len() + sw.len() <= total_budget {
        (pw, sw)
    } else {
        let cap = primary_cap(total_budget, ratio_pm);
        if pw.len() > cap {
            (pw.take(cap as int), sw)
        } else {
            (pw, sw.take(total_budget - pw.len()))
        }
    }
}

/// The allocator on texts: tokenize, apply the word policy, rejoin with
/// single spaces.
pub open spec fn allocate_spec(
    primary: Seq<char>,
    secondary: Seq<char>,
    total_budget: nat,
    ratio_pm: nat,
) -> (Seq<char>, Seq<char>) {
    let r = alloc_words(words(primary), words(secondary), total_budget, ratio_pm);
    (join_sep(r.0, seq![' ']), join_sep(r.1, seq![' ']))
}

/// The primary's cap never exceeds the whole budget.
pub proof fn lemma_primary_cap_le_budget(total_budget: nat, ratio_pm: nat)
    requires
        ratio_pm <= 1000,
    ensures
        primary_cap(total_budget, ratio_pm) <= total_budget,
{
    assert(total_budget * ratio_pm <= total_budget * 1000) by (nonlinear_arith)
        requires ratio_pm <= 1000;
    assert(total_budget * 1000 / 1000 == total_budget) by (nonlinear_arith);
    assert(total_budget * ratio_pm / 1000 <= total_budget * 1000 / 1000) by (nonlinear_arith)
        requires total_budget * ratio_pm <= total_budget * 1000;
}

/// Splits a word budget between two texts.
///
/// Both texts pass through (normalized to single spaces between words) when
/// they fit the budget together; otherwise the policy of `alloc_words`
/// truncates one of them.
pub fn allocate(primary: &str, secondary: &str, total_budget: usize, ratio_pm: usize) -> (r: (
    String,
    String,
))
    requires
        ratio_pm <= 1000,
        total_budget * ratio_pm <= usize::MAX,
    ensures
        (r.0@, r.1@) == allocate_spec(primary@, secondary@, total_budget as nat, ratio_pm as nat),
{
    let mut pw = split_words(primary);
    let mut sw = split_words(secondary);
    let ghost gpw = words(primary@);
    let ghost gsw = words(secondary@);
    let over = if pw.len() > total_budget {
        true
    } else {
        sw.len() > total_budget - pw.len()
    };
    if over {
        let cap = total_budget * ratio_pm / 1000;
        proof {
            lemma_primary_cap_le_budget(total_budget as nat, ratio_pm as nat);
        }
        if pw.len() > cap {
            pw.truncate(cap);
            proof {
                assert(pw.deep_view() =~~= gpw.take(cap as int));
            }
        } else {
            let slack = total_budget - pw.len();
            sw.truncate(slack);
            proof {
                assert(sw.deep_view() =~~= gsw.take(slack as int));
            }
        }
    }
    let p_out = join_with(&pw, " ");
    let s_out = join_with(&sw, " ");
    proof {
        reveal_strlit(" ");
        assert(" "@ =~= seq![' ']);
    }
    (p_out, s_out)
}

/// Budget law: except in the documented primary-overflow edge case (a
/// primary longer than its cap), the two outputs together never exceed the
/// budget in words.
pub proof fn lemma_allocate_within_budget(
    primary: Seq<char>,
    secondary: Seq<char>,
    total_budget: nat,
    ratio_pm: nat,
)
    requires
        ratio_pm <= 1000,
        words(primary).len() <= primary_cap(total_budget, ratio_pm) || words(primary).len()
            + words(secondary).len() <= total_budget,
    ensures
        ({
            let r = allocate_spec(primary, secondary, total_budget, ratio_pm);
            words(r.0).len() + words(r.1).len() <= total_budget
        }),
{
    let pw = words(primary);
    let sw = words(secondary);
    let rw = alloc_words(pw, sw, total_budget, ratio_pm);
    lemma_words_wf(primary);
    lemma_words_wf(secondary);
    lemma_primary_cap_le_budget(total_budget, ratio_pm);
    assert(wf_words(rw.0) && wf_words(rw.1)) by {
        if pw.len() + sw.len() <= total_budget {
        } else if pw.len() > primary_cap(total_budget, ratio_pm) {
            lemma_wf_words_take(pw, primary_cap(total_budget, ratio_pm) as int);
        } else {
            lemma_wf_words_take(sw, (total_budget - pw.len()) as int);
        }
    }
    lemma_words_of_join(rw.0);
    lemma_words_of_join(rw.1);
}

/// Idempotence law: once an allocation's outputs fit the budget, running the
/// allocator again on them (with any ratio) changes nothing.
pub proof fn lemma_allocate_idempotent(
    primary: Seq<char>,
    secondary: Seq<char>,
    total_budget: nat,
    ratio_pm: nat,
    ratio2_pm: nat,
)
    requires
        ({
            let rw = alloc_words(words(primary), words(secondary), total_budget, ratio_pm);
            rw.0.len() + rw.1.len() <= total_budget
        }),
    ensures
        ({
            let r = allocate_spec(primary, secondary, total_budget, ratio_pm);
            allocate_spec(r.0, r.1, total_budget, ratio2_pm) == r
        }),
{
    let pw = words(primary);
    let sw = words(secondary);
    let rw = alloc_words(pw, sw, total_budget, ratio_pm);
    lemma_words_wf(primary);
    lemma_words_wf(secondary);
    assert(wf_words(rw.0) && wf_words(rw.1)) by {
        if pw.len() + sw.len() <= total_budget {
        } else if pw.len() > primary_cap(total_budget, ratio_pm) {
            lemma_wf_words_take(pw, primary_cap(total_budget, ratio_pm) as int);
        } else {
            lemma_wf_words_take(sw, (total_budget - pw.len()) as int);
        }
    }
    lemma_words_of_join(rw.0);
    lemma_words_of_join(rw.1);
}

/// The source's allocator: splits the shared source budget between commit
/// text and issue text, privileging commits up to the split ratio.
pub fn squeeze_fit_commits_issues(commits: &str, issues: &str, ratio_pm: usize) -> (r: (
    String,
    String,
))
    requires
        ratio_pm <= 1000,
    ensures
        (r.0@, r.1@) == allocate_spec(commits@, issues@, SOURCE_BUDGET as nat, ratio_pm as nat),
{
    allocate(commits, issues, SOURCE_BUDGET, ratio_pm)
}

} // verus!
