//! Character classes, and what the parser does with text: it looks for a
//! letter in a name, and cuts a line into words.

use vstd::prelude::*;

verus! {

/// The ASCII letters.
pub open spec fn is_alphabetic(c: char) -> bool {
    ('a' <= c && c <= 'z') || ('A' <= c && c <= 'Z')
}

/// The ASCII letters and digits.
pub open spec fn is_alphanumeric(c: char) -> bool {
    is_alphabetic(c) || ('0' <= c && c <= '9')
}

/// The characters with the Unicode property `White_Space`.
pub open spec fn is_whitespace(c: char) -> bool {
    ||| ('\u{0009}' <= c && c <= '\u{000D}')
    ||| c == '\u{0020}'
    ||| c == '\u{0085}'
    ||| c == '\u{00A0}'
    ||| c == '\u{1680}'
    ||| ('\u{2000}' <= c && c <= '\u{200A}')
    ||| c == '\u{2028}'
    ||| c == '\u{2029}'
    ||| c == '\u{202F}'
    ||| c == '\u{205F}'
    ||| c == '\u{3000}'
}

/// Whether some character of `s` is an ASCII letter.
pub open spec fn has_alphabetic(s: Seq<char>) -> bool {
    exists|i: int| 0 <= i < s.len() && is_alphabetic(#[trigger] s[i])
}

/// Whether some character of `s` is an ASCII letter or digit.
pub open spec fn has_alphanumeric(s: Seq<char>) -> bool {
    exists|i: int| 0 <= i < s.len() && is_alphanumeric(#[trigger] s[i])
}

/// How many characters at the start of `s` are not whitespace.
pub open spec fn word_len(s: Seq<char>) -> nat
    decreases s.len(),
{
    if s.len() == 0 || is_whitespace(s[0]) {
        0
    } else {
        1 + word_len(s.drop_first())
    }
}

/// The words of `s`: its maximal runs of characters that are not whitespace,
/// from left to right.
pub open spec fn words(s: Seq<char>) -> Seq<Seq<char>>
    decreases s.len(),
{
    if s.len() == 0 {
        Seq::empty()
    } else if is_whitespace(s[0]) {
        words(s.drop_first())
    } else {
        let n = word_len(s) as int;
        proof {
            lemma_word_len_sound(s);
        }
        seq![s.take(n)] + words(s.skip(n))
    }
}

/// `tokens` without the entries equal to `name`, the others in their order.
pub open spec fn without(tokens: Seq<Seq<char>>, name: Seq<char>) -> Seq<Seq<char>>
    decreases tokens.len(),
{
    if tokens.len() == 0 {
        Seq::empty()
    } else if tokens.last() == name {
        without(tokens.drop_last(), name)
    } else {
        without(tokens.drop_last(), name).push(tokens.last())
    }
}

/// The characters that `word_len` counts are not whitespace, and the one
/// behind them is, if there is one.
pub proof fn lemma_word_len_sound(s: Seq<char>)
    ensures
        word_len(s) <= s.len(),
        forall|j: int| 0 <= j < word_len(s) ==> !is_whitespace(#[trigger] s[j]),
        word_len(s) < s.len() ==> is_whitespace(s[word_len(s) as int]),
    decreases s.len(),
{
    if s.len() > 0 && !is_whitespace(s[0]) {
        let t = s.drop_first();
        lemma_word_len_sound(t);
        assert forall|j: int| 0 <= j < word_len(s) implies !is_whitespace(#[trigger] s[j]) by {
            if j > 0 {
                assert(s[j] == t[j - 1]);
            }
        }
    }
}

/// A word is not empty and holds no whitespace.
pub open spec fn is_word(w: Seq<char>) -> bool {
    w.len() > 0 && forall|j: int| 0 <= j < w.len() ==> !is_whitespace(#[trigger] w[j])
}

/// Every entry of `words` is a word.
pub proof fn lemma_words_sound(s: Seq<char>)
    ensures
        forall|i: int| 0 <= i < words(s).len() ==> is_word(#[trigger] words(s)[i]),
    decreases s.len(),
{
    if s.len() == 0 {
        assert(words(s).len() == 0);
    } else if is_whitespace(s[0]) {
        lemma_words_sound(s.drop_first());
        assert(words(s) == words(s.drop_first()));
    } else {
        let n = word_len(s) as int;
        lemma_word_len_sound(s);
        lemma_words_sound(s.skip(n));
        let first = s.take(n);
        let rest = words(s.skip(n));
        let all = words(s);
        assert(all == seq![first] + rest);
        assert forall|j: int| 0 <= j < first.len() implies !is_whitespace(#[trigger] first[j]) by {
            assert(first[j] == s[j]);
        }
        assert forall|i: int| 0 <= i < all.len() implies is_word(#[trigger] all[i]) by {
            if i == 0 {
                assert(all[0] == first);
            } else {
                assert(all[i] == rest[i - 1]);
            }
        }
    }
}

/// What `without` leaves holds no entry equal to `name`.
pub proof fn lemma_without_sound(tokens: Seq<Seq<char>>, name: Seq<char>)
    ensures
        forall|i: int| 0 <= i < without(tokens, name).len() ==> #[trigger] without(tokens, name)[i]
            != name,
        without(tokens, name).len() <= tokens.len(),
    decreases tokens.len(),
{
    if tokens.len() > 0 {
        lemma_without_sound(tokens.drop_last(), name);
    }
}

/// The first `k` characters of `s` are a whole word when none of them is
/// whitespace and the word cannot go on.
pub proof fn lemma_word_len(s: Seq<char>, k: int)
    requires
        0 <= k <= s.len(),
        forall|j: int| 0 <= j < k ==> !is_whitespace(#[trigger] s[j]),
        k == s.len() || is_whitespace(s[k]),
    ensures
        word_len(s) == k,
    decreases k,
{
    if k > 0 {
        let t = s.drop_first();
        assert forall|j: int| 0 <= j < k - 1 implies !is_whitespace(#[trigger] t[j]) by {
            assert(t[j] == s[j + 1]);
        }
        lemma_word_len(t, k - 1);
    }
}

/// Whether `c` is an ASCII letter.
pub fn char_is_alphabetic(c: char) -> (r: bool)
    ensures
        r == is_alphabetic(c),
{
    ('a' <= c && c <= 'z') || ('A' <= c && c <= 'Z')
}

/// Whether `c` is an ASCII letter or digit.
pub fn char_is_alphanumeric(c: char) -> (r: bool)
    ensures
        r == is_alphanumeric(c),
{
    char_is_alphabetic(c) || ('0' <= c && c <= '9')
}

/// Whether `c` has the Unicode property `White_Space`.
pub fn char_is_whitespace(c: char) -> (r: bool)
    ensures
        r == is_whitespace(c),
{
    ('\u{0009}' <= c && c <= '\u{000D}') || c == '\u{0020}' || c == '\u{0085}' || c == '\u{00A0}'
        || c == '\u{1680}' || ('\u{2000}' <= c && c <= '\u{200A}') || c == '\u{2028}' || c
        == '\u{2029}' || c == '\u{202F}' || c == '\u{205F}' || c == '\u{3000}'
}

/// The characters of `s`, in order.
pub fn chars_of(s: &str) -> (r: Vec<char>)
    ensures
        r@ == s@,
{
    let mut out: Vec<char> = Vec::new();
    let chars = s.chars();
    for c in it: chars
        invariant
            it.seq() == s@,
            out@ == s@.take(it.index()),
    {
        out.push(c);
    }
    out
}

/// Whether `s` holds an ASCII letter.
pub fn contains_alphabetic(s: &str) -> (r: bool)
    ensures
        r == has_alphabetic(s@),
{
    let chars = s.chars();
    for c in it: chars
        invariant
            it.seq() == s@,
            forall|j: int| 0 <= j < it.index() ==> !is_alphabetic(#[trigger] s@[j]),
    {
        if char_is_alphabetic(c) {
            return true;
        }
    }
    false
}

/// Whether `s` holds an ASCII letter or digit.
pub fn contains_alphanumeric(s: &str) -> (r: bool)
    ensures
        r == has_alphanumeric(s@),
{
    let chars = s.chars();
    for c in it: chars
        invariant
            it.seq() == s@,
            forall|j: int| 0 <= j < it.index() ==> !is_alphanumeric(#[trigger] s@[j]),
    {
        if char_is_alphanumeric(c) {
            return true;
        }
    }
    false
}

/// Cuts `s` into its words.
pub fn split_whitespace(s: &str) -> (r: Vec<String>)
    ensures
        r.deep_view() == words(s@),
{
    let cs = chars_of(s);
    let n = cs.len();
    let mut out: Vec<String> = Vec::new();
    let mut i: usize = 0;
    assert(s@.skip(0) =~= s@);
    assert(out.deep_view() =~= Seq::<Seq<char>>::empty());
    while i < n
        invariant
            cs@ == s@,
            n == cs.len(),
            i <= n,
            words(s@) == out.deep_view() + words(s@.skip(i as int)),
        decreases n - i,
    {
        let ghost rest = s@.skip(i as int);
        if char_is_whitespace(cs[i]) {
            assert(rest.drop_first() =~= s@.skip(i + 1));
            i += 1;
        } else {
            let start = i;
            while i < n && !char_is_whitespace(cs[i])
                invariant
                    cs@ == s@,
                    n == cs.len(),
                    start <= i <= n,
                    forall|k: int| start <= k < i ==> !is_whitespace(#[trigger] s@[k]),
                decreases n - i,
            {
                i += 1;
            }
            let word = s.substring_char(start, i).to_owned();
            let ghost before = out.deep_view();
            out.push(word);
            proof {
                let k = i - start;
                assert forall|j: int| 0 <= j < k implies !is_whitespace(#[trigger] rest[j]) by {
                    assert(rest[j] == s@[start + j]);
                }
                lemma_word_len(rest, k);
                assert(rest.take(k) =~= s@.subrange(start as int, i as int));
                assert(rest.skip(k) =~= s@.skip(i as int));
                assert(out.deep_view() =~= before.push(word@));
                assert(before + (seq![rest.take(k)] + words(rest.skip(k))) =~= before.push(word@)
                    + words(s@.skip(i as int)));
            }
        }
    }
    assert(s@.skip(n as int) =~= Seq::<char>::empty());
    assert(out.deep_view() + Seq::<Seq<char>>::empty() =~= out.deep_view());
    out
}

/// `tokens` without the entries equal to `name`.
pub fn remove_all(tokens: Vec<String>, name: &String) -> (r: Vec<String>)
    ensures
        r.deep_view() == without(tokens.deep_view(), name@),
{
    let mut kept: Vec<String> = Vec::new();
    assert(tokens.deep_view().take(0) =~= Seq::<Seq<char>>::empty());
    assert(kept.deep_view() =~= Seq::<Seq<char>>::empty());
    for token in it: tokens
        invariant
            kept.deep_view() == without(tokens.deep_view().take(it.index()), name@),
    {
        let ghost before = kept.deep_view();
        let ghost seen = tokens.deep_view().take(it.index() + 1);
        assert(seen.drop_last() =~= tokens.deep_view().take(it.index()));
        assert(seen.last() == token@);
        if token != *name {
            kept.push(token);
            assert(kept.deep_view() =~= before.push(token@));
        }
    }
    assert(tokens.deep_view().take(tokens.len() as int) =~= tokens.deep_view());
    kept
}

} // verus!
