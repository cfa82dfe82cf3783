use vstd::prelude::*;
use vstd::string::StrSliceExecFns;

verus! {

/// Whether `c` is white space: the code points that Unicode gives the
/// `White_Space` property.
pub open spec fn is_space(c: char) -> bool {
    let u = c as u32;
    ||| 0x09 <= u <= 0x0D
    ||| u == 0x20
    ||| u == 0x85
    ||| u == 0xA0
    ||| u == 0x1680
    ||| 0x2000 <= u <= 0x200A
    ||| u == 0x2028
    ||| u == 0x2029
    ||| u == 0x202F
    ||| u == 0x205F
    ||| u == 0x3000
}

/// The first index at or after `i` that holds white space, or the length of
/// `s` where none does.
pub open spec fn word_end(s: Seq<char>, i: int) -> int
    decreases s.len() - i,
{
    if i < 0 || i >= s.len() || is_space(s[i]) {
        i
    } else {
        word_end(s, i + 1)
    }
}

/// The words of `s` that start at or after `i`, where `i` is not inside a word.
pub open spec fn tokens_from(s: Seq<char>, i: int) -> Seq<Seq<char>>
    decreases s.len() - i,
    via tokens_from_decreases
{
    if i < 0 || i >= s.len() {
        Seq::empty()
    } else if is_space(s[i]) {
        tokens_from(s, i + 1)
    } else {
        seq![s.subrange(i, word_end(s, i))] + tokens_from(s, word_end(s, i))
    }
}

#[via_fn]
proof fn tokens_from_decreases(s: Seq<char>, i: int) {
    if 0 <= i < s.len() && !is_space(s[i]) {
        lemma_word_end(s, i);
    }
}

/// The maximal runs of characters of `s` that hold no white space, from left
/// to right.
pub open spec fn tokens(s: Seq<char>) -> Seq<Seq<char>> {
    tokens_from(s, 0)
}

/// The texts of a vector of string slices.
pub open spec fn texts(v: Seq<&str>) -> Seq<Seq<char>> {
    Seq::new(v.len(), |i: int| v[i]@)
}

/// A word ends after its start, inside the text, and holds no white space.
pub proof fn lemma_word_end(s: Seq<char>, i: int)
    requires
        0 <= i <= s.len(),
    ensures
        i <= word_end(s, i) <= s.len(),
        i < s.len() && !is_space(s[i]) ==> i < word_end(s, i),
        word_end(s, i) < s.len() ==> is_space(s[word_end(s, i)]),
        forall|k: int| i <= k < word_end(s, i) ==> !is_space(#[trigger] s[k]),
    decreases s.len() - i,
{
    if i < s.len() && !is_space(s[i]) {
        lemma_word_end(s, i + 1);
    }
}

/// Whether `t` can be a word: it is not empty and holds no white space.
pub open spec fn is_word(t: Seq<char>) -> bool {
    &&& t.len() > 0
    &&& forall|j: int| 0 <= j < t.len() ==> !is_space(#[trigger] t[j])
}

/// No word of a text is empty and none holds white space.
pub proof fn lemma_tokens_are_words(s: Seq<char>, i: int)
    requires
        0 <= i <= s.len(),
    ensures
        forall|k: int| 0 <= k < tokens_from(s, i).len() ==> is_word(#[trigger] tokens_from(s, i)[k]),
    decreases s.len() - i,
{
    if i >= s.len() {
        assert(tokens_from(s, i).len() == 0);
    } else if is_space(s[i]) {
        lemma_tokens_are_words(s, i + 1);
        assert(tokens_from(s, i) == tokens_from(s, i + 1));
    } else {
        let e = word_end(s, i);
        lemma_word_end(s, i);
        lemma_tokens_are_words(s, e);
        let head = s.subrange(i, e);
        let rest = tokens_from(s, e);
        assert(tokens_from(s, i) == seq![head] + rest);
        assert forall|k: int| 0 <= k < tokens_from(s, i).len() implies is_word(
            #[trigger] tokens_from(s, i)[k],
        ) by {
            if k == 0 {
                assert(tokens_from(s, i)[0] == head);
                assert forall|j: int| 0 <= j < head.len() implies !is_space(
                    #[trigger] head[j],
                ) by {
                    assert(head[j] == s[i + j]);
                }
            } else {
                assert(tokens_from(s, i)[k] == rest[k - 1]);
            }
        }
    }
}

/// Whether the characters of `s` from `a` up to `b` are a maximal run without
/// white space: white space or an end of the text lies on either side.
pub open spec fn is_maximal_run(s: Seq<char>, a: int, b: int) -> bool {
    &&& 0 <= a < b <= s.len()
    &&& forall|j: int| a <= j < b ==> !is_space(#[trigger] s[j])
    &&& (a == 0 || is_space(s[a - 1]))
    &&& (b == s.len() || is_space(s[b]))
}

/// Whether `t` is a maximal run of `s` without white space that starts at or
/// after `i`.
pub open spec fn is_maximal_word(s: Seq<char>, i: int, t: Seq<char>) -> bool {
    exists|a: int, b: int| i <= a && #[trigger] is_maximal_run(s, a, b) && t == s.subrange(a, b)
}

/// Every word of a text is a maximal run of it without white space.
pub proof fn lemma_tokens_are_maximal(s: Seq<char>, i: int)
    requires
        0 <= i <= s.len(),
        i == 0 || i == s.len() || is_space(s[i - 1]) || is_space(s[i]),
    ensures
        forall|k: int|
            0 <= k < tokens_from(s, i).len() ==> is_maximal_word(
                s,
                i,
                #[trigger] tokens_from(s, i)[k],
            ),
    decreases s.len() - i,
{
    if i >= s.len() {
        assert(tokens_from(s, i).len() == 0);
    } else if is_space(s[i]) {
        lemma_tokens_are_maximal(s, i + 1);
        assert(tokens_from(s, i) == tokens_from(s, i + 1));
        assert forall|k: int| 0 <= k < tokens_from(s, i).len() implies is_maximal_word(
            s,
            i,
            #[trigger] tokens_from(s, i)[k],
        ) by {
            let t = tokens_from(s, i + 1)[k];
            assert(is_maximal_word(s, i + 1, t));
            let (a, b) = choose|a: int, b: int|
                i + 1 <= a && #[trigger] is_maximal_run(s, a, b) && t == s.subrange(a, b);
            assert(i <= a && is_maximal_run(s, a, b) && t == s.subrange(a, b));
        }
    } else {
        let e = word_end(s, i);
        lemma_word_end(s, i);
        lemma_tokens_are_maximal(s, e);
        let head = s.subrange(i, e);
        let rest = tokens_from(s, e);
        assert(tokens_from(s, i) == seq![head] + rest);
        assert(is_maximal_run(s, i, e));
        assert forall|k: int| 0 <= k < tokens_from(s, i).len() implies is_maximal_word(
            s,
            i,
            #[trigger] tokens_from(s, i)[k],
        ) by {
            if k == 0 {
                assert(tokens_from(s, i)[0] == head);
            } else {
                let t = rest[k - 1];
                assert(tokens_from(s, i)[k] == t);
                assert(is_maximal_word(s, e, t));
                let (a, b) = choose|a: int, b: int|
                    e <= a && #[trigger] is_maximal_run(s, a, b) && t == s.subrange(a, b);
                assert(i <= a && is_maximal_run(s, a, b) && t == s.subrange(a, b));
            }
        }
    }
}

/// Every maximal run of a text without white space is one of its words.
pub proof fn lemma_runs_are_tokens(s: Seq<char>, i: int, a: int, b: int)
    requires
        0 <= i <= s.len(),
        i == 0 || i == s.len() || is_space(s[i - 1]) || is_space(s[i]),
        i <= a,
        is_maximal_run(s, a, b),
    ensures
        tokens_from(s, i).contains(s.subrange(a, b)),
    decreases s.len() - i,
{
    assert(!is_space(s[a]));
    if is_space(s[i]) {
        lemma_runs_are_tokens(s, i + 1, a, b);
        assert(tokens_from(s, i) == tokens_from(s, i + 1));
    } else {
        let e = word_end(s, i);
        lemma_word_end(s, i);
        let head = s.subrange(i, e);
        let rest = tokens_from(s, e);
        assert(tokens_from(s, i) == seq![head] + rest);
        if a == i {
            if e < b {
                assert(!is_space(s[e]));
            }
            if b < e {
                assert(!is_space(s[b]));
            }
            assert(tokens_from(s, i)[0] == head);
        } else {
            if a - 1 < e {
                assert(!is_space(s[a - 1]));
            }
            lemma_runs_are_tokens(s, e, a, b);
            let j = choose|j: int| 0 <= j < rest.len() && rest[j] == s.subrange(a, b);
            assert(tokens_from(s, i)[j + 1] == rest[j]);
        }
    }
}

/// Whether `c` is white space.
pub fn is_whitespace(c: char) -> (r: bool)
    ensures
        r == is_space(c),
{
    let u: u32 = c as u32;
    (0x09 <= u && u <= 0x0D) || u == 0x20 || u == 0x85 || u == 0xA0 || u == 0x1680 || (0x2000 <= u
        && u <= 0x200A) || u == 0x2028 || u == 0x2029 || u == 0x202F || u == 0x205F || u == 0x3000
}

/// Splits a line into its words: the maximal runs of characters that are not
/// white space, in order. A line of white space alone has none.
pub fn words<'a>(s: &'a str) -> (out: Vec<&'a str>)
    ensures
        texts(out@) == tokens(s@),
{
    let n: usize = s.unicode_len();
    let mut out: Vec<&'a str> = Vec::new();
    let mut i: usize = 0;
    assert(texts(out@) =~= Seq::<Seq<char>>::empty());
    while i < n
        invariant
            n == s@.len(),
            0 <= i <= n,
            tokens(s@) == texts(out@) + tokens_from(s@, i as int),
        decreases n - i,
    {
        let c = s.get_char(i);
        if is_whitespace(c) {
            i = i + 1;
        } else {
            let mut j: usize = i + 1;
            proof {
                lemma_word_end(s@, i as int);
            }
            while j < n && !is_whitespace(s.get_char(j))
                invariant
                    n == s@.len(),
                    i < j <= n,
                    word_end(s@, i as int) == word_end(s@, j as int),
                decreases n - j,
            {
                j = j + 1;
            }
            let word = s.substring_char(i, j);
            let ghost before = texts(out@);
            out.push(word);
            proof {
                assert(word_end(s@, i as int) == j);
                assert(texts(out@) =~= before + seq![s@.subrange(i as int, j as int)]);
                assert(tokens_from(s@, i as int) == seq![s@.subrange(i as int, j as int)]
                    + tokens_from(s@, j as int));
            }
            i = j;
        }
    }
    assert(tokens_from(s@, n as int) =~= Seq::<Seq<char>>::empty());
    out
}

} // verus!
