//! Splitting a command line into arguments.
use vstd::prelude::*;

use crate::status::ShellError;
use crate::text::{char_is_space, chars_of, has_content, is_space, string_of};

verus! {

/// Length of the run of non-whitespace characters that `s` starts with.
pub open spec fn word_len(s: Seq<char>) -> int
    decreases s.len(),
{
    if s.len() == 0 || is_space(s[0]) {
        0
    } else {
        1 + word_len(s.drop_first())
    }
}

pub proof fn lemma_word_len_bounds(s: Seq<char>)
    ensures
        0 <= word_len(s) <= s.len(),
        s.len() > 0 && !is_space(s[0]) ==> word_len(s) >= 1,
        forall|k: int| 0 <= k < word_len(s) ==> !is_space(#[trigger] s[k]),
        word_len(s) < s.len() ==> is_space(s[word_len(s)]),
    decreases s.len(),
{
    if s.len() > 0 && !is_space(s[0]) {
        lemma_word_len_bounds(s.drop_first());
        assert forall|k: int| 0 <= k < word_len(s) implies !is_space(#[trigger] s[k]) by {
            if k > 0 {
                assert(s[k] == s.drop_first()[k - 1]);
            }
        }
    }
}

/// A run of `m` non-whitespace characters that ends at the end of `s` or at
/// whitespace is the word that `s` starts with.
pub proof fn lemma_word_len_exact(s: Seq<char>, m: int)
    requires
        0 <= m <= s.len(),
        forall|k: int| 0 <= k < m ==> !is_space(#[trigger] s[k]),
        m == s.len() || is_space(s[m]),
    ensures
        word_len(s) == m,
    decreases m,
{
    if m > 0 {
        assert forall|k: int| 0 <= k < m - 1 implies !is_space(#[trigger] s.drop_first()[k]) by {
            assert(s.drop_first()[k] == s[k + 1]);
        }
        if m < s.len() {
            assert(s.drop_first()[m - 1] == s[m]);
        }
        lemma_word_len_exact(s.drop_first(), m - 1);
    }
}

/// The whitespace-separated words of `s`, in order, as `str::split_whitespace`
/// yields them: leading whitespace is skipped, then a maximal run of
/// non-whitespace characters is one word, and so on to the end.
pub open spec fn words(s: Seq<char>) -> Seq<Seq<char>>
    decreases s.len(),
{
    if s.len() == 0 {
        Seq::empty()
    } else if is_space(s[0]) {
        words(s.drop_first())
    } else {
        proof {
            lemma_word_len_bounds(s);
        }
        seq![s.take(word_len(s))] + words(s.skip(word_len(s)))
    }
}

/// The views of a sequence of `String`s.
pub open spec fn texts(v: Seq<String>) -> Seq<Seq<char>> {
    v.map_values(|t: String| t@)
}

/// Whether one of the words contains a NUL character.
pub open spec fn some_word_has_nul(ws: Seq<Seq<char>>) -> bool {
    exists|k: int| 0 <= k < ws.len() && (#[trigger] ws[k]).contains('\0')
}

/// A word: non-empty, with no whitespace in it.
pub open spec fn is_word(w: Seq<char>) -> bool {
    w.len() > 0 && forall|j: int| 0 <= j < w.len() ==> !is_space(#[trigger] w[j])
}

/// Every word is non-empty and holds no whitespace.
pub proof fn lemma_words_are_words(s: Seq<char>)
    ensures
        forall|k: int| 0 <= k < words(s).len() ==> is_word(#[trigger] words(s)[k]),
    decreases s.len(),
{
    if s.len() > 0 {
        if is_space(s[0]) {
            lemma_words_are_words(s.drop_first());
            assert(words(s) == words(s.drop_first()));
        } else {
            lemma_word_len_bounds(s);
            let w = word_len(s);
            lemma_words_are_words(s.skip(w));
            let ws = words(s);
            let rest = words(s.skip(w));
            assert(ws == seq![s.take(w)] + rest);
            assert forall|k: int| 0 <= k < ws.len() implies is_word(#[trigger] ws[k]) by {
                if k == 0 {
                    assert(ws[0] == s.take(w));
                    assert forall|j: int| 0 <= j < ws[0].len() implies !is_space(
                        #[trigger] ws[0][j],
                    ) by {
                        assert(ws[0][j] == s[j]);
                    }
                } else {
                    assert(ws[k] == rest[k - 1]);
                }
            }
        }
    }
}

/// Concatenating the words gives back the text without its whitespace.
pub proof fn lemma_words_concat(s: Seq<char>)
    ensures
        words(s).flatten() == s.filter(|c: char| !is_space(c)),
    decreases s.len(),
{
    let p = |c: char| !is_space(c);
    if s.len() == 0 {
        reveal(Seq::filter);
        assert(words(s).flatten() =~= s.filter(p));
    } else {
        assert(s =~= seq![s[0]] + s.drop_first());
        s.drop_first().lemma_filter_prepend(s[0], p);
        if is_space(s[0]) {
            lemma_words_concat(s.drop_first());
            assert(s.filter(p) =~= s.drop_first().filter(p));
        } else {
            lemma_word_len_bounds(s);
            let w = word_len(s);
            lemma_words_concat(s.skip(w));
            assert(s =~= s.take(w) + s.skip(w));
            Seq::filter_distributes_over_add(s.take(w), s.skip(w), p);
            lemma_filter_keeps_all(s.take(w));
            let ws = words(s);
            assert(ws.first() == s.take(w));
            assert(ws.drop_first() =~= words(s.skip(w)));
            assert(ws.flatten() == ws.first() + ws.drop_first().flatten());
        }
    }
}

proof fn lemma_filter_keeps_all(t: Seq<char>)
    requires
        forall|k: int| 0 <= k < t.len() ==> !is_space(#[trigger] t[k]),
    ensures
        t.filter(|c: char| !is_space(c)) == t,
    decreases t.len(),
{
    let p = |c: char| !is_space(c);
    if t.len() == 0 {
        reveal(Seq::filter);
        assert(t.filter(p) =~= t);
    } else {
        assert(t =~= seq![t[0]] + t.drop_first());
        t.drop_first().lemma_filter_prepend(t[0], p);
        assert forall|k: int| 0 <= k < t.drop_first().len() implies !is_space(
            #[trigger] t.drop_first()[k],
        ) by {
            assert(t.drop_first()[k] == t[k + 1]);
        }
        lemma_filter_keeps_all(t.drop_first());
        assert(t.filter(p) =~= t);
    }
}

/// A line yields no words exactly when it is blank.
pub proof fn lemma_words_empty_iff_blank(s: Seq<char>)
    ensures
        (words(s).len() == 0) <==> !has_content(s),
    decreases s.len(),
{
    if s.len() > 0 {
        if is_space(s[0]) {
            lemma_words_empty_iff_blank(s.drop_first());
            if has_content(s) {
                let k = choose|k: int| 0 <= k < s.len() && !is_space(#[trigger] s[k]);
                assert(!is_space(s.drop_first()[k - 1]));
            }
            if has_content(s.drop_first()) {
                let k = choose|k: int|
                    0 <= k < s.drop_first().len() && !is_space(#[trigger] s.drop_first()[k]);
                assert(!is_space(s[k + 1]));
            }
        } else {
            assert(!is_space(s[0]));
        }
    }
}

/// Some word holds a NUL character exactly when the line does.
pub proof fn lemma_words_nul(s: Seq<char>)
    ensures
        some_word_has_nul(words(s)) <==> s.contains('\0'),
    decreases s.len(),
{
    if s.len() > 0 {
        assert(!is_space('\0'));
        if is_space(s[0]) {
            lemma_words_nul(s.drop_first());
            if s.contains('\0') {
                let k = choose|k: int| 0 <= k < s.len() && s[k] == '\0';
                assert(s.drop_first()[k - 1] == '\0');
            }
            if s.drop_first().contains('\0') {
                let k = choose|k: int| 0 <= k < s.drop_first().len() && s.drop_first()[k] == '\0';
                assert(s[k + 1] == '\0');
            }
        } else {
            lemma_word_len_bounds(s);
            let w = word_len(s);
            let ws = words(s);
            let rest = words(s.skip(w));
            lemma_words_nul(s.skip(w));
            assert(ws[0] == s.take(w));
            if s.contains('\0') {
                let k = choose|k: int| 0 <= k < s.len() && s[k] == '\0';
                if k < w {
                    assert(ws[0][k] == '\0');
                    assert((ws[0]).contains('\0'));
                } else {
                    assert(s.skip(w)[k - w] == '\0');
                    assert(s.skip(w).contains('\0'));
                    let j = choose|j: int| 0 <= j < rest.len() && (#[trigger] rest[j]).contains('\0');
                    assert(ws[j + 1] == rest[j]);
                }
            }
            if some_word_has_nul(ws) {
                let j = choose|j: int| 0 <= j < ws.len() && (#[trigger] ws[j]).contains('\0');
                if j == 0 {
                    let m = choose|m: int| 0 <= m < ws[0].len() && ws[0][m] == '\0';
                    assert(s[m] == '\0');
                } else {
                    assert(rest[j - 1] == ws[j]);
                    assert(some_word_has_nul(rest));
                    let m = choose|m: int| 0 <= m < s.skip(w).len() && s.skip(w)[m] == '\0';
                    assert(s[m + w] == '\0');
                }
            }
        }
    }
}

/// The words joined with one space between each two.
pub open spec fn join_words(ws: Seq<Seq<char>>) -> Seq<char>
    decreases ws.len(),
{
    if ws.len() == 0 {
        Seq::empty()
    } else if ws.len() == 1 {
        ws[0]
    } else {
        ws[0] + seq![' '] + join_words(ws.drop_first())
    }
}

/// Splitting words joined by single spaces gives the same words back.
pub proof fn law_split_of_joined_words(ws: Seq<Seq<char>>)
    requires
        forall|k: int| 0 <= k < ws.len() ==> is_word(#[trigger] ws[k]),
    ensures
        words(join_words(ws)) == ws,
    decreases ws.len(),
{
    if ws.len() > 0 {
        let w = ws[0];
        assert(is_word(w));
        let t = join_words(ws);
        let rest = if ws.len() == 1 {
            Seq::<char>::empty()
        } else {
            seq![' '] + join_words(ws.drop_first())
        };
        assert(t =~= w + rest);
        let n = w.len() as int;
        assert forall|k: int| 0 <= k < n implies !is_space(#[trigger] t[k]) by {
            assert(t[k] == w[k]);
        }
        if ws.len() > 1 {
            assert(t[n] == ' ');
            assert(is_space(' '));
        }
        lemma_word_len_exact(t, n);
        assert(!is_space(t[0]));
        assert(t.take(n) =~= w);
        assert(t.skip(n) =~= rest);
        assert(words(t) == seq![w] + words(rest));
        if ws.len() == 1 {
            assert(words(rest) =~= Seq::<Seq<char>>::empty());
            assert(ws =~= seq![w]);
        } else {
            let tail = ws.drop_first();
            assert forall|k: int| 0 <= k < tail.len() implies is_word(#[trigger] tail[k]) by {
                assert(tail[k] == ws[k + 1]);
            }
            law_split_of_joined_words(tail);
            assert(is_space(rest[0]));
            assert(rest.drop_first() =~= join_words(tail));
            assert(words(rest) == words(rest.drop_first()));
            assert(ws =~= seq![w] + tail);
        }
    }
}

/// Re-splitting a line's words joined by single spaces gives back the same
/// words, and the joined line holds a NUL character exactly when the line does
/// (so `split_input` accepts the one exactly when it accepts the other).
pub proof fn law_resplit_line(s: Seq<char>)
    ensures
        words(join_words(words(s))) == words(s),
        join_words(words(s)).contains('\0') <==> s.contains('\0'),
{
    lemma_words_are_words(s);
    law_split_of_joined_words(words(s));
    lemma_words_nul(s);
    lemma_words_nul(join_words(words(s)));
}

/// Splits a command line into its whitespace-separated arguments. An argument
/// that holds a NUL character cannot be handed to the operating system, so
/// such a line is refused with `CStringNullByte`.
pub fn split_input(input: &str) -> (r: Result<Vec<String>, ShellError>)
    ensures
        r is Err <==> some_word_has_nul(words(input@)),
        r is Err <==> input@.contains('\0'),
        r matches Err(e) ==> e == ShellError::CStringNullByte,
        r matches Ok(args) ==> texts(args@) == words(input@),
{
    proof {
        lemma_words_nul(input@);
    }
    let v = chars_of(input);
    let n = v.len();
    let mut k: usize = 0;
    while k < n
        invariant
            n == v@.len(),
            v@ == input@,
            k <= n,
            forall|j: int| 0 <= j < k ==> v@[j] != '\0',
        decreases n - k,
    {
        if v[k] == '\0' {
            assert(input@[k as int] == '\0');
            assert(input@.contains('\0'));
            proof {
                lemma_words_nul(input@);
            }
            return Err(ShellError::CStringNullByte);
        }
        k = k + 1;
    }
    assert(!input@.contains('\0'));
    let mut args: Vec<String> = Vec::new();
    let mut i: usize = 0;
    assert(v@.skip(0) =~= v@);
    while i < n
        invariant
            n == v@.len(),
            v@ == input@,
            i <= n,
            texts(args@) + words(v@.skip(i as int)) == words(v@),
        decreases n - i,
    {
        let ghost t = v@.skip(i as int);
        if char_is_space(v[i]) {
            assert(t.drop_first() =~= v@.skip(i + 1));
            i = i + 1;
        } else {
            let mut j: usize = i;
            while j < n && !char_is_space(v[j])
                invariant
                    n == v@.len(),
                    i <= j <= n,
                    forall|m: int| i <= m < j ==> !is_space(#[trigger] v@[m]),
                decreases n - j,
            {
                j = j + 1;
            }
            let word = string_of(&v, i, j);
            proof {
                assert forall|m: int| 0 <= m < j - i implies !is_space(#[trigger] t[m]) by {
                    assert(t[m] == v@[i + m]);
                }
                if j < n {
                    assert(t[j - i] == v@[j as int]);
                }
                lemma_word_len_exact(t, j - i);
                assert(t.take(j - i) =~= v@.subrange(i as int, j as int));
                assert(t.skip(j - i) =~= v@.skip(j as int));
                assert(words(t) == seq![t.take(j - i)] + words(t.skip(j - i)));
            }
            let ghost before = args@;
            args.push(word);
            proof {
                assert(texts(args@) =~= texts(before).push(word@));
                assert(texts(args@) + words(v@.skip(j as int)) =~= texts(before) + words(t));
            }
            i = j;
        }
    }
    assert(words(v@.skip(n as int)) =~= Seq::<Seq<char>>::empty()) by {
        assert(v@.skip(n as int).len() == 0);
    }
    assert(texts(args@) =~= words(v@));
    Ok(args)
}

} // verus!
