//! Comment squeeze: strips quoted-reply blocks from a comment body and fits
//! the rest into a word budget by keeping the head and tail of the text.
//!
//! Lines are delimited by `'\n'`. A line containing the quote marker toggles
//! an "inside quoted block" flag and is itself dropped; lines seen while the
//! flag is set are dropped entirely. If the surviving text still exceeds the
//! word budget, the first `floor(budget * ratio)` and the last remaining
//! budgeted words are kept and the middle is dropped.

use vstd::prelude::*;
use crate::text::{words, join_sep, split_words, join_with};
use crate::allocator::{primary_cap, lemma_primary_cap_le_budget};

verus! {

/// The text split at every `'\n'`; always one more segment than newlines.
pub open spec fn segments(s: Seq<char>) -> Seq<Seq<char>>
    decreases s.len(),
{
    if s.len() == 0 {
        seq![Seq::<char>::empty()]
    } else if s.last() == '\n' {
        segments(s.drop_last()).push(Seq::<char>::empty())
    } else {
        let q = segments(s.drop_last());
        q.update(q.len() - 1, q.last().push(s.last()))
    }
}

/// The lines of the text: the segments, except that a final newline does not
/// open a last empty line.
pub open spec fn lines_of(s: Seq<char>) -> Seq<Seq<char>> {
    if s.len() == 0 {
        Seq::<Seq<char>>::empty()
    } else if s.last() == '\n' {
        segments(s.drop_last())
    } else {
        segments(s)
    }
}

/// `m` occurs contiguously somewhere in `s`.
pub open spec fn contains_seq(s: Seq<char>, m: Seq<char>) -> bool {
    exists|i: int| 0 <= i <= s.len() - m.len() && #[trigger] s.subrange(i, i + m.len()) == m
}

/// The quote-stripping pass over a line list, with the toggle flag `inside`:
/// marker lines flip the flag and are dropped, quoted lines are dropped,
/// the rest pass through in order.
pub open spec fn strip_rec(ls: Seq<Seq<char>>, m: Seq<char>, inside: bool) -> Seq<Seq<char>>
    decreases ls.len(),
{
    if ls.len() == 0 {
        Seq::<Seq<char>>::empty()
    } else if contains_seq(ls[0], m) {
        strip_rec(ls.skip(1), m, !inside)
    } else if inside {
        strip_rec(ls.skip(1), m, inside)
    } else {
        seq![ls[0]] + strip_rec(ls.skip(1), m, inside)
    }
}

/// Text rebuilt from kept lines, each line closed with a newline.
pub open spec fn concat_lines(ls: Seq<Seq<char>>) -> Seq<char>
    decreases ls.len(),
{
    if ls.len() == 0 {
        Seq::<char>::empty()
    } else {
        concat_lines(ls.drop_last()) + ls.last() + seq!['\n']
    }
}

/// The comment body after quote stripping.
pub open spec fn stripped_body(s: Seq<char>, m: Seq<char>) -> Seq<char> {
    concat_lines(strip_rec(lines_of(s), m, false))
}

/// The full squeeze: strip quotes, then keep head and tail words when the
/// body exceeds the budget.
pub open spec fn squeeze_spec(s: Seq<char>, m: Seq<char>, max_words: nat, ratio_pm: nat) -> Seq<
    char,
> {
    let body = stripped_body(s, m);
    let bw = words(body);
    if bw.len() <= max_words {
        body
    } else {
        let head = primary_cap(max_words, ratio_pm);
        let tail = max_words - head;
        join_sep(bw.take(head as int) + bw.skip(bw.len() - tail), seq![' '])
    }
}

/// Boundary law: when the stripped body already fits the word budget, the
/// squeeze returns it exactly — the input unchanged, modulo quote stripping.
pub proof fn lemma_squeeze_within_budget(
    s: Seq<char>,
    m: Seq<char>,
    max_words: nat,
    ratio_pm: nat,
)
    requires
        words(stripped_body(s, m)).len() <= max_words,
    ensures
        squeeze_spec(s, m, max_words, ratio_pm) == stripped_body(s, m),
{
}

/// No line that survives the stripping pass contains the quote marker, for
/// any marker placement and any starting flag.
pub proof fn lemma_strip_no_marker(ls: Seq<Seq<char>>, m: Seq<char>, inside: bool)
    ensures
        forall|k: int|
            0 <= k < strip_rec(ls, m, inside).len() ==> !contains_seq(
                #[trigger] strip_rec(ls, m, inside)[k],
                m,
            ),
    decreases ls.len(),
{
    if ls.len() > 0 {
        let r = strip_rec(ls, m, inside);
        if contains_seq(ls[0], m) {
            lemma_strip_no_marker(ls.skip(1), m, !inside);
            let rest = strip_rec(ls.skip(1), m, !inside);
            assert forall|k: int| 0 <= k < r.len() implies !contains_seq(#[trigger] r[k], m) by {
                assert(r[k] == rest[k]);
            }
        } else if inside {
            lemma_strip_no_marker(ls.skip(1), m, inside);
            let rest = strip_rec(ls.skip(1), m, inside);
            assert forall|k: int| 0 <= k < r.len() implies !contains_seq(#[trigger] r[k], m) by {
                assert(r[k] == rest[k]);
            }
        } else {
            lemma_strip_no_marker(ls.skip(1), m, inside);
            let rest = strip_rec(ls.skip(1), m, inside);
            assert forall|k: int| 0 <= k < r.len() implies !contains_seq(#[trigger] r[k], m) by {
                if k > 0 {
                    assert(r[k] == rest[k - 1]);
                }
            }
        }
    }
}

/// The flag state after the first `j` lines have been processed: `true`
/// exactly when an odd number of marker lines has been seen.
pub open spec fn inside_after(ls: Seq<Seq<char>>, m: Seq<char>, j: int) -> bool
    decreases j,
{
    if j <= 0 {
        false
    } else {
        inside_after(ls, m, j - 1) != contains_seq(ls[j - 1], m)
    }
}

/// Line `j` survives stripping: it is not a marker line and not inside a
/// quoted block.
pub open spec fn line_kept(ls: Seq<Seq<char>>, m: Seq<char>, j: int) -> bool {
    !contains_seq(ls[j], m) && !inside_after(ls, m, j)
}

/// The kept lines from index `i` on, in order.
pub open spec fn kept_from(ls: Seq<Seq<char>>, m: Seq<char>, i: int) -> Seq<Seq<char>>
    decreases ls.len() - i,
{
    if i < 0 || i >= ls.len() {
        Seq::<Seq<char>>::empty()
    } else if line_kept(ls, m, i) {
        seq![ls[i]] + kept_from(ls, m, i + 1)
    } else {
        kept_from(ls, m, i + 1)
    }
}

proof fn lemma_strip_is_kept_from(ls: Seq<Seq<char>>, m: Seq<char>, i: int)
    requires
        0 <= i <= ls.len(),
    ensures
        strip_rec(ls.skip(i), m, inside_after(ls, m, i)) == kept_from(ls, m, i),
    decreases ls.len() - i,
{
    let suf = ls.skip(i);
    if i == ls.len() {
        assert(suf =~~= Seq::<Seq<char>>::empty());
    } else {
        assert(suf[0] == ls[i]);
        assert(suf.skip(1) =~~= ls.skip(i + 1));
        lemma_strip_is_kept_from(ls, m, i + 1);
        assert(inside_after(ls, m, i + 1) == (inside_after(ls, m, i) != contains_seq(ls[i], m)));
        if contains_seq(ls[i], m) {
            assert(!line_kept(ls, m, i));
            assert(inside_after(ls, m, i + 1) == !inside_after(ls, m, i));
        } else if inside_after(ls, m, i) {
            assert(!line_kept(ls, m, i));
        } else {
            assert(line_kept(ls, m, i));
        }
    }
}

/// Stripping keeps exactly the lines that are neither marker lines nor
/// inside a quoted block: quoted-block content never reaches the output.
pub proof fn lemma_strip_exact(ls: Seq<Seq<char>>, m: Seq<char>)
    ensures
        strip_rec(ls, m, false) == kept_from(ls, m, 0),
{
    assert(ls.skip(0) =~~= ls);
    lemma_strip_is_kept_from(ls, m, 0);
}

/// Executable containment test.
pub fn contains_sub(s: &str, m: &str) -> (r: bool)
    ensures
        r == contains_seq(s@, m@),
{
    let n = s.unicode_len();
    let k = m.unicode_len();
    if k > n {
        return false;
    }
    if k == 0 {
        proof {
            assert(s@.subrange(0, 0 + m@.len() as int) =~= m@);
            assert(contains_seq(s@, m@));
        }
        return true;
    }
    let mut i: usize = 0;
    while i <= n - k
        invariant
            n == s@.len(),
            k == m@.len(),
            1 <= k <= n,
            i <= n - k + 1,
            forall|p: int| 0 <= p < i ==> #[trigger] s@.subrange(p, p + k) != m@,
        decreases n - k - i + 1,
    {
        let mut j: usize = 0;
        let mut hit = true;
        while j < k
            invariant
                n == s@.len(),
                k == m@.len(),
                k <= n,
                i <= n - k,
                j <= k,
                hit ==> forall|q: int| 0 <= q < j ==> s@[i + q] == m@[q],
                !hit ==> s@.subrange(i as int, i + k) != m@,
            decreases k - j,
        {
            if hit {
                let a = s.get_char(i + j);
                let b = m.get_char(j);
                if a != b {
                    proof {
                        assert(s@.subrange(i as int, i + k)[j as int] == s@[i + j]);
                    }
                    hit = false;
                }
            }
            j += 1;
        }
        if hit {
            proof {
                assert(s@.subrange(i as int, i + k) =~= m@);
            }
            return true;
        }
        i += 1;
    }
    proof {
        assert forall|p: int| 0 <= p <= s@.len() - m@.len() implies #[trigger] s@.subrange(p, p + k)
            != m@ by {
            assert(p < i);
        }
    }
    false
}

/// Splits the text at every newline, std-style: a final newline closes the
/// last line instead of opening an empty one.
pub fn split_lines(s: &str) -> (r: Vec<String>)
    ensures
        r.deep_view() == lines_of(s@),
{
    let n = s.unicode_len();
    let mut out: Vec<String> = Vec::new();
    let mut start: usize = 0;
    let mut i: usize = 0;
    proof {
        assert(s@.take(0) =~= Seq::<char>::empty());
        assert(segments(s@.take(0)) =~~= out.deep_view() + seq![s@.subrange(0, 0)]);
    }
    while i < n
        invariant
            start <= i <= n,
            n == s@.len(),
            segments(s@.take(i as int)) == out.deep_view() + seq![s@.subrange(start as int, i as int)],
            start == 0 || s@[start - 1] == '\n',
            forall|j: int| start <= j < i ==> s@[j] != '\n',
        decreases n - i,
    {
        let c = s.get_char(i);
        proof {
            assert(s@.take(i + 1) =~= s@.take(i as int).push(s@[i as int]));
            assert(s@.take(i + 1).drop_last() =~= s@.take(i as int));
        }
        if c == '\n' {
            let w = s.substring_char(start, i);
            let ghost old_dv = out.deep_view();
            out.push(w.to_owned());
            proof {
                assert(out.deep_view() =~~= old_dv + seq![w@]);
                assert(segments(s@.take(i + 1)) =~~= out.deep_view() + seq![
                    s@.subrange(i + 1, i + 1),
                ]);
            }
            start = i + 1;
        } else {
            proof {
                let q = segments(s@.take(i as int));
                let q2 = segments(s@.take(i + 1));
                assert(q2 == q.update(q.len() - 1, q.last().push(s@[i as int])));
                assert(q.last() == s@.subrange(start as int, i as int));
                assert(s@.subrange(start as int, i as int).push(s@[i as int]) =~= s@.subrange(
                    start as int,
                    i + 1,
                ));
                assert(q2 =~~= out.deep_view() + seq![s@.subrange(start as int, i + 1)]);
            }
        }
        i += 1;
    }
    proof {
        assert(s@.take(n as int) =~= s@);
    }
    if n == 0 {
        proof {
            assert(out.deep_view() =~~= lines_of(s@));
        }
        return out;
    }
    if start < n {
        let w = s.substring_char(start, n);
        let ghost old_dv = out.deep_view();
        out.push(w.to_owned());
        proof {
            assert(s@.last() != '\n');
            assert(w@ == s@.subrange(start as int, n as int));
            assert(out.deep_view() =~~= old_dv + seq![w@]);
            assert(out.deep_view() =~~= segments(s@));
        }
    } else {
        proof {
            assert(s@.last() == '\n');
            assert(s@.take(n - 1) =~= s@.drop_last());
            assert(segments(s@) == segments(s@.drop_last()).push(Seq::<char>::empty()));
            assert(segments(s@) == out.deep_view() + seq![s@.subrange(n as int, n as int)]);
            assert(s@.subrange(n as int, n as int) =~= Seq::<char>::empty());
            assert(segments(s@).drop_last() =~~= out.deep_view());
            assert(segments(s@.drop_last()) =~~= segments(s@).drop_last());
            assert(out.deep_view() =~~= lines_of(s@));
        }
    }
    out
}

/// Strips quoted blocks from `s` and rebuilds the body, one kept line per
/// output line.
pub fn strip_quoted(s: &str, quote_mark: &str) -> (r: String)
    ensures
        r@ == stripped_body(s@, quote_mark@),
{
    let ls = split_lines(s);
    let ghost dv = ls.deep_view();
    let ghost mut done = Seq::<Seq<char>>::empty();
    let mut body = String::new();
    let mut inside = false;
    let mut i: usize = 0;
    proof {
        assert(dv.skip(0) =~~= dv);
        assert(strip_rec(dv, quote_mark@, false) =~~= done + strip_rec(dv, quote_mark@, false));
    }
    while i < ls.len()
        invariant
            i <= ls.len(),
            dv == ls.deep_view(),
            strip_rec(dv, quote_mark@, false) == done + strip_rec(
                dv.skip(i as int),
                quote_mark@,
                inside,
            ),
            body@ == concat_lines(done),
        decreases ls.len() - i,
    {
        proof {
            assert(dv.skip(i as int)[0] == dv[i as int]);
            assert(dv.skip(i as int).skip(1) =~~= dv.skip(i + 1));
        }
        let line = &ls[i];
        if contains_sub(line.as_str(), quote_mark) {
            inside = !inside;
        } else if !inside {
            let ghost old_body = body@;
            let ghost rest = strip_rec(dv.skip(i + 1), quote_mark@, inside);
            body.append(line.as_str());
            body.append("\n");
            proof {
                reveal_strlit("\n");
                assert("\n"@ =~= seq!['\n']);
                let l = dv[i as int];
                assert(body@ == old_body + l + seq!['\n']);
                let done2 = done.push(l);
                assert(done + (seq![l] + rest) =~~= done2 + rest);
                assert(done2.drop_last() =~~= done);
                assert(concat_lines(done2) == concat_lines(done) + l + seq!['\n']);
                done = done2;
            }
        }
        i += 1;
    }
    proof {
        assert(dv.skip(ls.len() as int) =~~= Seq::<Seq<char>>::empty());
        assert(done + Seq::<Seq<char>>::empty() =~~= done);
    }
    body
}

/// The comment allocator: drops quoted blocks, then keeps the whole body if
/// it fits `max_words`, and otherwise its first `floor(max_words * ratio)`
/// and last remaining budgeted words.
pub fn squeeze_fit_comment_texts(inp_str: &str, quote_mark: &str, max_words: u16, ratio_pm: usize) -> (r:
    String)
    requires
        ratio_pm <= 1000,
    ensures
        r@ == squeeze_spec(inp_str@, quote_mark@, max_words as nat, ratio_pm as nat),
{
    let body = strip_quoted(inp_str, quote_mark);
    let bw = split_words(body.as_str());
    let ghost gbw = words(body@);
    let max = max_words as usize;
    if bw.len() <= max {
        return body;
    }
    proof {
        assert(max * ratio_pm <= 65535 * 1000) by (nonlinear_arith)
            requires max <= 65535 && ratio_pm <= 1000;
        lemma_primary_cap_le_budget(max as nat, ratio_pm as nat);
    }
    let head = max * ratio_pm / 1000;
    let tail = max - head;
    let mut kept: Vec<String> = Vec::new();
    let mut k: usize = 0;
    while k < head
        invariant
            head <= max < bw.len(),
            k <= head,
            bw.deep_view() == gbw,
            kept.deep_view() == gbw.take(k as int),
        decreases head - k,
    {
        let ghost old_dv = kept.deep_view();
        kept.push(bw[k].clone());
        proof {
            assert(kept.deep_view() =~~= old_dv + seq![gbw[k as int]]);
            assert(gbw.take(k + 1) =~~= gbw.take(k as int) + seq![gbw[k as int]]);
        }
        k += 1;
    }
    let mut t: usize = bw.len() - tail;
    proof {
        assert(kept.deep_view() =~~= gbw.take(head as int) + gbw.skip(gbw.len() - tail).take(0));
    }
    while t < bw.len()
        invariant
            head + tail <= max < bw.len(),
            bw.len() - tail <= t <= bw.len(),
            bw.deep_view() == gbw,
            kept.deep_view() == gbw.take(head as int) + gbw.skip(gbw.len() - tail).take(
                t - (gbw.len() - tail),
            ),
        decreases bw.len() - t,
    {
        let ghost old_dv = kept.deep_view();
        kept.push(bw[t].clone());
        proof {
            let off = gbw.len() - tail;
            assert(kept.deep_view() =~~= old_dv + seq![gbw[t as int]]);
            assert(gbw.skip(off)[t - off] == gbw[t as int]);
            assert(gbw.skip(off).take(t + 1 - off) =~~= gbw.skip(off).take(t - off) + seq![
                gbw.skip(off)[t - off],
            ]);
            assert(kept.deep_view() =~~= gbw.take(head as int) + gbw.skip(off).take(t + 1 - off));
        }
        t += 1;
    }
    proof {
        assert(gbw.skip(gbw.len() - tail).take(tail as int) =~~= gbw.skip(gbw.len() - tail));
    }
    let r = join_with(&kept, " ");
    proof {
        reveal_strlit(" ");
        assert(" "@ =~= seq![' ']);
    }
    r
}

} // verus!
