//! Word-level text model: whitespace tokenization and joining.
//!
//! The budget allocator measures and trims text in units of whitespace-
//! separated words. The functions here give that unit an exact mathematical
//! meaning: `words` maps a character sequence to its word sequence, and
//! `join_with` rebuilds text from words with a chosen separator.

use vstd::prelude::*;

verus! {

/// The characters treated as word separators.
pub open spec fn is_space(c: char) -> bool {
    c == ' ' || c == '\t' || c == '\n' || c == '\r'
}

/// Length of the longest all-non-space suffix of `s` (the word currently
/// being read when text is scanned left to right).
pub open spec fn trailing_word_len(s: Seq<char>) -> nat
    decreases s.len(),
{
    if s.len() == 0 {
        0
    } else if is_space(s.last()) {
        0
    } else {
        1 + trailing_word_len(s.drop_last())
    }
}

/// The whitespace-separated words of `s`, in order.
pub open spec fn words(s: Seq<char>) -> Seq<Seq<char>>
    decreases s.len(),
    via words_decreases
{
    if s.len() == 0 {
        Seq::<Seq<char>>::empty()
    } else if is_space(s.last()) {
        words(s.drop_last())
    } else {
        let k = trailing_word_len(s);
        words(s.take(s.len() - k)) + seq![s.skip(s.len() - k)]
    }
}

/// A well-formed word list: what `words` can produce, and what `join_with`
/// turns back into text losslessly — every word non-empty and space-free.
pub open spec fn wf_words(ws: Seq<Seq<char>>) -> bool {
    forall|i: int|
        0 <= i < ws.len() ==> (#[trigger] ws[i]).len() > 0 && forall|j: int|
            0 <= j < ws[i].len() ==> !is_space(#[trigger] ws[i][j])
}

/// Text rebuilt from `ws` with `sep` between consecutive words.
pub open spec fn join_sep(ws: Seq<Seq<char>>, sep: Seq<char>) -> Seq<char>
    decreases ws.len(),
{
    if ws.len() == 0 {
        Seq::<char>::empty()
    } else if ws.len() == 1 {
        ws[0]
    } else {
        join_sep(ws.drop_last(), sep) + sep + ws.last()
    }
}

#[via_fn]
proof fn words_decreases(s: Seq<char>) {
    if s.len() > 0 && !is_space(s.last()) {
        lemma_trailing_word_len_bound(s);
    }
}

/// The trailing word is never longer than the text.
pub proof fn lemma_trailing_word_len_bound(s: Seq<char>)
    ensures
        trailing_word_len(s) <= s.len(),
    decreases s.len(),
{
    if s.len() > 0 && !is_space(s.last()) {
        lemma_trailing_word_len_bound(s.drop_last());
    }
}

/// Every character of the trailing word is non-space.
pub proof fn lemma_trailing_word_chars(s: Seq<char>)
    ensures
        forall|j: int|
            s.len() - trailing_word_len(s) <= j < s.len() ==> !is_space(#[trigger] s[j]),
    decreases s.len(),
{
    lemma_trailing_word_len_bound(s);
    if s.len() > 0 && !is_space(s.last()) {
        lemma_trailing_word_chars(s.drop_last());
        lemma_trailing_word_len_bound(s.drop_last());
        assert forall|j: int|
            s.len() - trailing_word_len(s) <= j < s.len() implies !is_space(#[trigger] s[j]) by {
            if j < s.len() - 1 {
                assert(s[j] == s.drop_last()[j]);
            }
        }
    }
}

/// Every word of `words(s)` is non-empty and space-free.
pub proof fn lemma_words_wf(s: Seq<char>)
    ensures
        wf_words(words(s)),
    decreases s.len(),
{
    if s.len() == 0 {
    } else if is_space(s.last()) {
        lemma_words_wf(s.drop_last());
    } else {
        let k = trailing_word_len(s);
        lemma_trailing_word_len_bound(s);
        lemma_trailing_word_chars(s);
        lemma_words_wf(s.take(s.len() - k));
        let w = s.skip(s.len() - k);
        assert(k >= 1);
        assert(forall|j: int| 0 <= j < w.len() ==> !is_space(#[trigger] w[j])) by {
            assert(forall|j: int|
                0 <= j < w.len() ==> w[j] == s[s.len() - k + j] && !is_space(s[s.len() - k + j]));
        }
        let front = words(s.take(s.len() - k));
        assert forall|i: int| 0 <= i < words(s).len() implies (#[trigger] words(s)[i]).len() > 0
            && forall|j: int| 0 <= j < words(s)[i].len() ==> !is_space(#[trigger] words(s)[i][j]) by {
            if i < front.len() {
                assert(words(s)[i] == front[i]);
            } else {
                assert(words(s)[i] == w);
            }
        }
    }
}

/// Appending a separator character leaves the word sequence unchanged.
pub proof fn lemma_words_push_space(t: Seq<char>, c: char)
    requires
        is_space(c),
    ensures
        words(t.push(c)) == words(t),
        trailing_word_len(t.push(c)) == 0,
{
    assert(t.push(c).drop_last() =~= t);
}

/// Appending a non-separator character extends the trailing word.
pub proof fn lemma_words_push_nonspace(t: Seq<char>, c: char)
    requires
        !is_space(c),
    ensures
        trailing_word_len(t.push(c)) == trailing_word_len(t) + 1,
        words(t.push(c)) == words(t.take(t.len() - trailing_word_len(t))) + seq![
            t.skip(t.len() - trailing_word_len(t)).push(c),
        ],
{
    let tp = t.push(c);
    let k = trailing_word_len(t);
    lemma_trailing_word_len_bound(t);
    assert(tp.drop_last() =~= t);
    assert(trailing_word_len(tp) == 1 + k);
    assert(tp.take(tp.len() - (k + 1)) =~= t.take(t.len() - k));
    assert(tp.skip(tp.len() - (k + 1)) =~= t.skip(t.len() - k).push(c));
}

/// A text always splits as: words of the part before the trailing word,
/// then the trailing word itself (when one is in progress).
pub proof fn lemma_words_split_at_trailing(t: Seq<char>)
    ensures
        trailing_word_len(t) == 0 ==> words(t.take(t.len() - trailing_word_len(t))) == words(t),
        trailing_word_len(t) > 0 ==> words(t) == words(
            t.take(t.len() - trailing_word_len(t)),
        ) + seq![t.skip(t.len() - trailing_word_len(t))],
{
    let k = trailing_word_len(t);
    lemma_trailing_word_len_bound(t);
    if k == 0 {
        assert(t.take(t.len() as int) =~= t);
    } else {
        assert(t.len() > 0 && !is_space(t.last()));
    }
}

/// Appending an all-non-space block `w` to text with no trailing word
/// appends exactly one word.
pub proof fn lemma_words_append_word(t: Seq<char>, w: Seq<char>)
    requires
        trailing_word_len(t) == 0,
        w.len() > 0,
        forall|j: int| 0 <= j < w.len() ==> !is_space(#[trigger] w[j]),
    ensures
        words(t + w) == words(t) + seq![w],
        trailing_word_len(t + w) == w.len(),
    decreases w.len(),
{
    if w.len() == 1 {
        assert(t + w =~= t.push(w[0]));
        lemma_words_push_nonspace(t, w[0]);
        assert(t.take(t.len() as int) =~= t);
        assert(t.skip(t.len() as int).push(w[0]) =~= w);
    } else {
        let w0 = w.drop_last();
        assert(forall|j: int| 0 <= j < w0.len() ==> !is_space(#[trigger] w0[j])) by {
            assert(forall|j: int| 0 <= j < w0.len() ==> w0[j] == w[j]);
        }
        lemma_words_append_word(t, w0);
        let tw0 = t + w0;
        lemma_words_push_nonspace(tw0, w.last());
        assert(t + w =~= tw0.push(w.last()));
        lemma_trailing_word_len_bound(t);
        assert(tw0.take(tw0.len() - w0.len()) =~= t);
        assert(tw0.skip(tw0.len() - w0.len()) =~= w0);
        lemma_words_split_at_trailing(t);
        assert(words(tw0.take(tw0.len() - w0.len())) == words(t));
        assert(w0.push(w.last()) =~= w);
        assert(words(t + w) == words(t) + seq![w]);
    }
}

/// Joining well-formed words with a single space and re-splitting returns
/// exactly the same words: tokenization inverts joining.
pub proof fn lemma_words_of_join(ws: Seq<Seq<char>>)
    requires
        wf_words(ws),
    ensures
        words(join_sep(ws, seq![' '])) == ws,
    decreases ws.len(),
{
    let sep = seq![' '];
    if ws.len() == 0 {
        assert(words(join_sep(ws, sep)) =~~= ws);
    } else if ws.len() == 1 {
        let w = ws[0];
        assert(Seq::<char>::empty() + w =~= w);
        lemma_words_append_word(Seq::<char>::empty(), w);
        assert(words(join_sep(ws, sep)) == Seq::<Seq<char>>::empty() + seq![w]);
        assert(Seq::<Seq<char>>::empty() + seq![w] =~~= ws);
    } else {
        let front = ws.drop_last();
        let w = ws.last();
        assert(wf_words(front)) by {
            assert(forall|i: int| 0 <= i < front.len() ==> front[i] == ws[i]);
        }
        lemma_words_of_join(front);
        let jf = join_sep(front, sep);
        let jfs = jf + sep;
        assert(jfs =~= jf.push(' '));
        lemma_words_push_space(jf, ' ');
        lemma_words_append_word(jfs, w);
        assert(join_sep(ws, sep) =~= jfs + w);
        assert(words(join_sep(ws, sep)) == front + seq![w]);
        assert(front + seq![w] =~~= ws);
    }
}

/// Truncating a well-formed word list keeps it well formed.
pub proof fn lemma_wf_words_take(ws: Seq<Seq<char>>, k: int)
    requires
        wf_words(ws),
        0 <= k <= ws.len(),
    ensures
        wf_words(ws.take(k)),
{
    assert(forall|i: int| 0 <= i < k ==> ws.take(k)[i] == ws[i]);
}

/// Executable test for the separator characters.
pub fn is_space_char(c: char) -> (r: bool)
    ensures
        r == is_space(c),
{
    c == ' ' || c == '\t' || c == '\n' || c == '\r'
}

/// Splits `s` into its whitespace-separated words.
pub fn split_words(s: &str) -> (r: Vec<String>)
    ensures
        r.deep_view() == words(s@),
        wf_words(r.deep_view()),
{
    let n = s.unicode_len();
    let mut out: Vec<String> = Vec::new();
    let mut start: usize = 0;
    let mut i: usize = 0;
    proof {
        assert(s@.take(0) =~= Seq::<char>::empty());
        assert(out.deep_view() =~~= words(s@.take(0)));
    }
    while i < n
        invariant
            start <= i <= n,
            n == s@.len(),
            trailing_word_len(s@.take(i as int)) == i - start,
            out.deep_view() == words(s@.take(start as int)),
        decreases n - i,
    {
        let c = s.get_char(i);
        proof {
            assert(s@.take(i + 1) =~= s@.take(i as int).push(s@[i as int]));
        }
        if is_space_char(c) {
            if start < i {
                let w = s.substring_char(start, i);
                let ghost old_dv = out.deep_view();
                out.push(w.to_owned());
                proof {
                    assert(w@ =~= s@.take(i as int).skip(start as int));
                    assert(out.deep_view() =~~= old_dv + seq![w@]);
                    lemma_words_split_at_trailing(s@.take(i as int));
                    assert(s@.take(i as int).take(start as int) =~= s@.take(start as int));
                    assert(words(s@.take(i as int)) == words(s@.take(start as int)) + seq![w@]);
                }
            } else {
                proof {
                    assert(s@.take(i as int) =~= s@.take(start as int));
                }
            }
            proof {
                lemma_words_push_space(s@.take(i as int), c);
            }
            start = i + 1;
        } else {
            proof {
                lemma_words_push_nonspace(s@.take(i as int), c);
            }
        }
        i += 1;
    }
    proof {
        assert(s@.take(n as int) =~= s@);
    }
    if start < n {
        let w = s.substring_char(start, n);
        let ghost old_dv = out.deep_view();
        out.push(w.to_owned());
        proof {
            assert(w@ =~= s@.skip(start as int));
            assert(out.deep_view() =~~= old_dv + seq![w@]);
            lemma_words_split_at_trailing(s@);
            assert(words(s@) == words(s@.take(start as int)) + seq![w@]);
        }
    } else {
        proof {
            lemma_words_split_at_trailing(s@);
            assert(s@.take(start as int) =~= s@);
        }
    }
    proof {
        lemma_words_wf(s@);
    }
    out
}

/// Joins `v` with `sep` between consecutive elements.
pub fn join_with(v: &Vec<String>, sep: &str) -> (r: String)
    ensures
        r@ == join_sep(v.deep_view(), sep@),
{
    let ghost ws = v.deep_view();
    let mut out = String::new();
    let mut k: usize = 0;
    proof {
        assert(ws.take(0) =~~= Seq::<Seq<char>>::empty());
    }
    while k < v.len()
        invariant
            k <= v.len(),
            ws == v.deep_view(),
            out@ == join_sep(ws.take(k as int), sep@),
        decreases v.len() - k,
    {
        if k > 0 {
            out.append(sep);
        }
        out.append(v[k].as_str());
        proof {
            assert(ws.take(k + 1).drop_last() =~~= ws.take(k as int));
            assert(ws.take(k + 1).last() == ws[k as int]);
            assert(ws[k as int] == v@[k as int]@);
            if k == 0 {
                assert(join_sep(ws.take(1), sep@) == ws[0]);
                assert(Seq::<char>::empty() + ws[0] =~= ws[0]);
            }
        }
        k += 1;
    }
    proof {
        assert(ws.take(v.len() as int) =~~= ws);
    }
    out
}

} // verus!
