//! Text as sequences of characters: comparing, splitting into words and
//! lines, and cutting at a marker.

use vstd::prelude::*;
use vstd::string::StrSliceExecFns;
use vstd::string::StringSliceAdditionalSpecFns;
use vstd::utf8::encode_utf8_decode_utf8;

verus! {

/// The texts of a sequence of string slices.
pub open spec fn texts(words: Seq<&str>) -> Seq<Seq<char>> {
    words.map_values(|w: &str| w@)
}

/// The texts of a sequence of owned strings.
pub open spec fn owned_texts(words: Seq<String>) -> Seq<Seq<char>> {
    words.map_values(|w: String| w@)
}

/// The characters of `s`, in order.
pub fn chars_of(s: &str) -> (v: Vec<char>)
    ensures
        v@ == s@,
{
    let mut v: Vec<char> = Vec::new();
    for c in it: s.chars()
        invariant
            v@ == it.seq().take(it.index() as int),
            it.seq() == s@,
    {
        v.push(c);
    }
    v
}

/// Whether two string slices hold the same text.
pub fn text_eq(a: &str, b: &str) -> (r: bool)
    ensures
        r == (a@ == b@),
{
    let x = a.as_bytes();
    let y = b.as_bytes();
    proof {
        encode_utf8_decode_utf8(a@);
        encode_utf8_decode_utf8(b@);
    }
    if x.len() != y.len() {
        return false;
    }
    let mut i: usize = 0;
    while i < x.len()
        invariant
            i <= x.len(),
            x.len() == y.len(),
            x@ == a.spec_bytes(),
            y@ == b.spec_bytes(),
            forall|j: int| 0 <= j < i ==> x@[j] == y@[j],
        decreases x.len() - i,
    {
        if x[i] != y[i] {
            return false;
        }
        i = i + 1;
    }
    assert(x@ =~= y@);
    true
}

/// A space or a comma: what stands between the words of a line.
pub open spec fn is_separator(c: char) -> bool {
    c == ' ' || c == ','
}

/// How many characters at the start of `s` precede the first separator.
pub open spec fn word_len(s: Seq<char>) -> nat
    decreases s.len(),
{
    if s.len() == 0 || is_separator(s[0]) {
        0
    } else {
        1 + word_len(s.drop_first())
    }
}

/// The first word is never longer than the text.
pub proof fn lemma_word_len_bound(s: Seq<char>)
    ensures
        word_len(s) <= s.len(),
    decreases s.len(),
{
    if s.len() > 0 && !is_separator(s[0]) {
        lemma_word_len_bound(s.drop_first());
    }
}

/// The words of `s`: its maximal runs of characters that are not
/// separators, in order. No word is empty.
pub open spec fn words(s: Seq<char>) -> Seq<Seq<char>>
    decreases s.len(),
{
    if s.len() == 0 {
        Seq::empty()
    } else if is_separator(s[0]) {
        words(s.drop_first())
    } else {
        proof {
            lemma_word_len_bound(s);
        }
        seq![s.take(word_len(s) as int)] + words(s.skip(word_len(s) as int))
    }
}

/// A run of `k` characters without a separator, followed by a separator or
/// by the end of the text, is the first word.
pub proof fn lemma_word_len_run(s: Seq<char>, k: int)
    requires
        0 <= k <= s.len(),
        forall|j: int| 0 <= j < k ==> !is_separator(#[trigger] s[j]),
        k == s.len() || is_separator(s[k]),
    ensures
        word_len(s) == k,
    decreases k,
{
    if k > 0 {
        lemma_word_len_run(s.drop_first(), k - 1);
    }
}

/// The words of `line`, each a slice of it.
pub fn split_words<'a>(line: &'a str) -> (out: Vec<&'a str>)
    ensures
        texts(out@) == words(line@),
{
    let chars = chars_of(line);
    let n = chars.len();
    let mut out: Vec<&'a str> = Vec::new();
    let mut i: usize = 0;
    assert(line@.skip(0) =~= line@);
    assert(texts(out@) =~= Seq::<Seq<char>>::empty());
    while i < n
        invariant
            i <= n,
            n == chars.len(),
            chars@ == line@,
            words(line@) == texts(out@) + words(line@.skip(i as int)),
        decreases n - i,
    {
        let ghost rest = line@.skip(i as int);
        if chars[i] == ' ' || chars[i] == ',' {
            assert(rest.drop_first() =~= line@.skip(i + 1));
            i = i + 1;
        } else {
            let start = i;
            while i < n && !(chars[i] == ' ' || chars[i] == ',')
                invariant
                    start <= i <= n,
                    n == chars.len(),
                    chars@ == line@,
                    forall|j: int| start <= j < i ==> !is_separator(#[trigger] chars@[j]),
                decreases n - i,
            {
                i = i + 1;
            }
            let word = line.substring_char(start, i);
            proof {
                assert forall|j: int| 0 <= j < i - start implies !is_separator(
                    #[trigger] rest[j],
                ) by {
                    assert(rest[j] == chars@[start + j]);
                }
                lemma_word_len_run(rest, i - start);
                assert(rest.take(i - start) =~= line@.subrange(start as int, i as int));
                assert(rest.skip(i - start) =~= line@.skip(i as int));
                assert(texts(out@.push(word)) =~= texts(out@) + seq![word@]);
            }
            out.push(word);
        }
    }
    assert(line@.skip(n as int) =~= Seq::<char>::empty());
    assert(texts(out@) + Seq::<Seq<char>>::empty() =~= texts(out@));
    out
}

/// How many characters at the start of `s` precede the first line feed.
pub open spec fn line_len(s: Seq<char>) -> nat
    decreases s.len(),
{
    if s.len() == 0 || s[0] == '\n' {
        0
    } else {
        1 + line_len(s.drop_first())
    }
}

/// The first line is never longer than the text.
pub proof fn lemma_line_len_bound(s: Seq<char>)
    ensures
        line_len(s) <= s.len(),
    decreases s.len(),
{
    if s.len() > 0 && s[0] != '\n' {
        lemma_line_len_bound(s.drop_first());
    }
}

/// `line` without a carriage return at its end.
pub open spec fn without_cr(line: Seq<char>) -> Seq<char> {
    if line.len() > 0 && line.last() == '\r' {
        line.drop_last()
    } else {
        line
    }
}

/// The lines of `s`. A line ends at a line feed, or at a carriage return
/// that a line feed follows; neither belongs to the line. What follows
/// the last line feed is a line of its own unless it is empty, and keeps
/// a carriage return at its end.
pub open spec fn lines(s: Seq<char>) -> Seq<Seq<char>>
    decreases s.len(),
{
    if s.len() == 0 {
        Seq::empty()
    } else {
        proof {
            lemma_line_len_bound(s);
        }
        let n = line_len(s) as int;
        if n == s.len() {
            seq![s]
        } else {
            seq![without_cr(s.take(n))] + lines(s.skip(n + 1))
        }
    }
}

/// A run of `k` characters without a line feed, followed by a line feed or
/// by the end of the text, is the first line.
pub proof fn lemma_line_len_run(s: Seq<char>, k: int)
    requires
        0 <= k <= s.len(),
        forall|j: int| 0 <= j < k ==> #[trigger] s[j] != '\n',
        k == s.len() || s[k] == '\n',
    ensures
        line_len(s) == k,
    decreases k,
{
    if k > 0 {
        lemma_line_len_run(s.drop_first(), k - 1);
    }
}

/// The lines of `text`, each a slice of it.
pub fn split_lines<'a>(text: &'a str) -> (out: Vec<&'a str>)
    ensures
        texts(out@) == lines(text@),
{
    let chars = chars_of(text);
    let n = chars.len();
    let mut out: Vec<&'a str> = Vec::new();
    let mut i: usize = 0;
    assert(text@.skip(0) =~= text@);
    assert(texts(out@) =~= Seq::<Seq<char>>::empty());
    while i < n
        invariant
            i <= n,
            n == chars.len(),
            chars@ == text@,
            lines(text@) == texts(out@) + lines(text@.skip(i as int)),
        decreases n - i,
    {
        let ghost rest = text@.skip(i as int);
        let start = i;
        while i < n && chars[i] != '\n'
            invariant
                start <= i <= n,
                n == chars.len(),
                chars@ == text@,
                forall|j: int| start <= j < i ==> #[trigger] chars@[j] != '\n',
            decreases n - i,
        {
            i = i + 1;
        }
        proof {
            assert forall|j: int| 0 <= j < i - start implies #[trigger] rest[j] != '\n' by {
                assert(rest[j] == chars@[start + j]);
            }
            lemma_line_len_run(rest, i - start);
        }
        if i == n {
            let line = text.substring_char(start, n);
            proof {
                assert(line@ =~= rest);
                assert(texts(out@.push(line)) =~= texts(out@) + seq![line@]);
            }
            out.push(line);
        } else {
            let end: usize = if i > start && chars[i - 1] == '\r' {
                (i - 1) as usize
            } else {
                i
            };
            let line = text.substring_char(start, end);
            proof {
                assert(rest.take(i - start) =~= text@.subrange(start as int, i as int));
                assert(line@ =~= without_cr(rest.take(i - start)));
                assert(rest.skip(i - start + 1) =~= text@.skip(i + 1));
                assert(texts(out@.push(line)) =~= texts(out@) + seq![line@]);
            }
            out.push(line);
            i = i + 1;
        }
    }
    assert(text@.skip(n as int) =~= Seq::<char>::empty());
    assert(texts(out@) + Seq::<Seq<char>>::empty() =~= texts(out@));
    out
}

/// The part of `s` before the first place where `marker` stands, or all
/// of `s` where it stands nowhere.
pub open spec fn before_first(s: Seq<char>, marker: Seq<char>) -> Seq<char>
    decreases s.len(),
{
    if s.len() == 0 || marker.is_prefix_of(s) {
        Seq::empty()
    } else {
        seq![s[0]] + before_first(s.drop_first(), marker)
    }
}

/// Whether `marker` stands in `text` at position `at`.
pub fn stands_at(text: &Vec<char>, marker: &Vec<char>, at: usize) -> (r: bool)
    requires
        at <= text.len(),
    ensures
        r == marker@.is_prefix_of(text@.skip(at as int)),
{
    let m = marker.len();
    if m > text.len() - at {
        return false;
    }
    let ghost rest = text@.skip(at as int);
    let mut k: usize = 0;
    while k < m
        invariant
            k <= m,
            m == marker.len(),
            at + m <= text.len(),
            rest == text@.skip(at as int),
            forall|j: int| 0 <= j < k ==> marker@[j] == #[trigger] rest[j],
        decreases m - k,
    {
        if marker[k] != text[at + k] {
            assert(rest.subrange(0, m as int)[k as int] == rest[k as int]);
            return false;
        }
        k = k + 1;
    }
    assert(marker@ =~= rest.subrange(0, m as int));
    true
}

/// The part of `path` before the first place where `marker` stands.
pub fn cut_before<'a>(path: &'a str, marker: &str) -> (stem: &'a str)
    ensures
        stem@ == before_first(path@, marker@),
{
    let text = chars_of(path);
    let pattern = chars_of(marker);
    let n = text.len();
    let mut i: usize = 0;
    assert(path@.skip(0) =~= path@);
    assert(path@.take(0) + before_first(path@, marker@) =~= before_first(path@, marker@));
    while i < n && !stands_at(&text, &pattern, i)
        invariant
            i <= n,
            n == text.len(),
            text@ == path@,
            pattern@ == marker@,
            before_first(path@, marker@) == path@.take(i as int) + before_first(
                path@.skip(i as int),
                marker@,
            ),
        decreases n - i,
    {
        proof {
            let rest = path@.skip(i as int);
            assert(rest.drop_first() =~= path@.skip(i + 1));
            assert(path@.take(i + 1) =~= path@.take(i as int) + seq![rest[0]]);
            assert(path@.take(i as int) + (seq![rest[0]] + before_first(
                rest.drop_first(),
                marker@,
            )) =~= path@.take(i + 1) + before_first(path@.skip(i + 1), marker@));
        }
        i = i + 1;
    }
    proof {
        assert(before_first(path@.skip(i as int), marker@) =~= Seq::<char>::empty());
        assert(path@.take(i as int) + Seq::<char>::empty() =~= path@.subrange(0, i as int));
    }
    path.substring_char(0, i)
}

/// Whether `s` holds no separator.
pub open spec fn no_separator(s: Seq<char>) -> bool {
    forall|i: int| 0 <= i < s.len() ==> !is_separator(#[trigger] s[i])
}

/// Whether `s` holds separators only.
pub open spec fn all_separators(s: Seq<char>) -> bool {
    forall|i: int| 0 <= i < s.len() ==> is_separator(#[trigger] s[i])
}

/// The first word holds no separator, and a separator or the end of the
/// text follows it.
pub proof fn lemma_word_len_stops(s: Seq<char>)
    ensures
        word_len(s) <= s.len(),
        no_separator(s.take(word_len(s) as int)),
        word_len(s) < s.len() ==> is_separator(s[word_len(s) as int]),
    decreases s.len(),
{
    if s.len() > 0 && !is_separator(s[0]) {
        let rest = s.drop_first();
        lemma_word_len_stops(rest);
        let n = word_len(s) as int;
        assert forall|i: int| 0 <= i < n implies !is_separator(#[trigger] s.take(n)[i]) by {
            if i > 0 {
                assert(s.take(n)[i] == rest.take(n - 1)[i - 1]);
            }
        }
    }
}

/// A text without a separator is one word.
pub proof fn lemma_words_single(w: Seq<char>)
    requires
        w.len() > 0,
        no_separator(w),
    ensures
        words(w) == seq![w],
{
    assert(!is_separator(w[0]));
    lemma_word_len_run(w, w.len() as int);
    assert(w.take(w.len() as int) =~= w);
    assert(w.skip(w.len() as int).len() == 0);
    assert(words(w.skip(w.len() as int)) =~= Seq::<Seq<char>>::empty());
    assert(words(w) =~= seq![w]);
}

/// Separators at the start of a text add no word.
pub proof fn lemma_words_skip_gap(gap: Seq<char>, rest: Seq<char>)
    requires
        all_separators(gap),
    ensures
        words(gap + rest) == words(rest),
    decreases gap.len(),
{
    if gap.len() == 0 {
        assert(gap + rest =~= rest);
    } else {
        assert(is_separator(gap[0]));
        assert((gap + rest).drop_first() =~= gap.drop_first() + rest);
        lemma_words_skip_gap(gap.drop_first(), rest);
    }
}

/// A word that follows a text after at least one separator is one more
/// word at the end.
pub proof fn lemma_words_append(s: Seq<char>, gap: Seq<char>, w: Seq<char>)
    requires
        gap.len() > 0,
        all_separators(gap),
        w.len() > 0,
        no_separator(w),
    ensures
        words(s + gap + w) == words(s).push(w),
    decreases s.len(),
{
    let text = s + gap + w;
    if s.len() == 0 {
        assert(text =~= gap + w);
        lemma_words_skip_gap(gap, w);
        lemma_words_single(w);
        assert(words(s).push(w) =~= seq![w]);
    } else if is_separator(s[0]) {
        assert(text.drop_first() =~= s.drop_first() + gap + w);
        lemma_words_append(s.drop_first(), gap, w);
    } else {
        lemma_word_len_stops(s);
        let n = word_len(s) as int;
        assert forall|j: int| 0 <= j < n implies !is_separator(#[trigger] text[j]) by {
            assert(text[j] == s.take(n)[j]);
        }
        assert(is_separator(text[n])) by {
            if n == s.len() {
                assert(text[n] == gap[0]);
            }
        }
        lemma_word_len_run(text, n);
        assert(text.take(n) =~= s.take(n));
        assert(text.skip(n) =~= s.skip(n) + gap + w);
        lemma_words_append(s.skip(n), gap, w);
        assert(seq![s.take(n)] + words(s.skip(n)).push(w) =~= (seq![s.take(n)] + words(
            s.skip(n),
        )).push(w));
    }
}

} // verus!
