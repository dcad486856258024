use vstd::prelude::*;

verus! {

/// Whether `c` has the Unicode White_Space property, which is what `char::is_whitespace`
/// tests: tab, line feed, vertical tab, form feed, carriage return, space, next line,
/// no-break space, ogham space mark, the spaces U+2000 to U+200A, line separator,
/// paragraph separator, narrow no-break space, medium mathematical space and ideographic
/// space.
pub open spec fn unicode_white_space(c: char) -> bool {
    ('\t' <= c && c <= '\r') || c == ' ' || c == '\u{85}' || c == '\u{a0}' || c == '\u{1680}'
        || ('\u{2000}' <= c && c <= '\u{200a}') || c == '\u{2028}' || c == '\u{2029}'
        || c == '\u{202f}' || c == '\u{205f}' || c == '\u{3000}'
}

/// `char::is_whitespace`: whether `c` has the Unicode White_Space property, the set
/// that `unicode_white_space` lists.
#[verifier::external_body]
pub(crate) fn is_whitespace(c: char) -> (r: bool)
    ensures
        r == unicode_white_space(c),
{
    c.is_whitespace()
}

/// `String::push`: appends the character `c` to the end of `s`.
#[verifier::external_body]
pub(crate) fn push_char(s: &mut String, c: char)
    ensures
        final(s)@ == old(s)@.push(c),
{
    s.push(c)
}

/// The characters of `s`, in order.
pub fn chars_of(s: &str) -> (v: Vec<char>)
    ensures
        v@ == s@,
{
    let mut v: Vec<char> = Vec::new();
    for c in it: s.chars()
        invariant
            v@ == it.seq().take(it.index()),
    {
        v.push(c);
    }
    v
}

/// The text views of a sequence of strings.
pub open spec fn texts(v: Seq<String>) -> Seq<Seq<char>> {
    v.map_values(|t: String| t@)
}

/// The words of `s`: its maximal runs of characters that are not white space, in order.
pub open spec fn words(s: Seq<char>) -> Seq<Seq<char>>
    decreases s.len(),
{
    if s.len() == 0 {
        seq![]
    } else {
        let w = words(s.drop_last());
        let c = s.last();
        if unicode_white_space(c) {
            w
        } else if s.len() >= 2 && !unicode_white_space(s[s.len() - 2]) {
            w.update(w.len() - 1, w.last().push(c))
        } else {
            w.push(seq![c])
        }
    }
}

/// Whether `s` begins with `prefix`.
pub open spec fn starts_with(s: Seq<char>, prefix: Seq<char>) -> bool {
    prefix.len() <= s.len() && s.take(prefix.len() as int) == prefix
}

/// Whether `s` ends with `suffix`.
pub open spec fn ends_with(s: Seq<char>, suffix: Seq<char>) -> bool {
    suffix.len() <= s.len() && s.skip(s.len() - suffix.len()) == suffix
}

/// Whether `pattern` occurs in `s` as a run of consecutive characters.
pub open spec fn contains(s: Seq<char>, pattern: Seq<char>) -> bool {
    exists|i: int|
        0 <= i && i + pattern.len() <= s.len() && #[trigger] s.subrange(i, i + pattern.len())
            == pattern
}

/// Splits a line into its words, as `str::split_whitespace` does.
pub fn tokenize_line(line: &str) -> (tokens: Vec<String>)
    ensures
        texts(tokens@) == words(line@),
{
    let mut tokens: Vec<String> = Vec::new();
    let mut current: String = String::new();
    let mut in_word = false;
    let ghost mut seen: Seq<char> = Seq::empty();
    for c in it: line.chars()
        invariant
            seen == it.seq().take(it.index()),
            in_word ==> current@.len() > 0,
            in_word ==> seen.len() > 0 && !unicode_white_space(seen.last()),
            !in_word ==> seen.len() == 0 || unicode_white_space(seen.last()),
            words(seen) == if in_word {
                texts(tokens@).push(current@)
            } else {
                texts(tokens@)
            },
    {
        let ghost prefix = seen;
        proof {
            seen = seen.push(c);
        }
        assert(seen.drop_last() =~= prefix);
        if is_whitespace(c) {
            if in_word {
                let ghost before = tokens@;
                let ghost word = current@;
                let finished = current;
                current = String::new();
                tokens.push(finished);
                assert(texts(tokens@) =~= texts(before).push(word));
            }
            in_word = false;
        } else if in_word {
            let ghost word = current@;
            push_char(&mut current, c);
            assert(texts(tokens@).push(word).update(texts(tokens@).len() as int, word.push(c))
                =~= texts(tokens@).push(current@));
        } else {
            current = String::new();
            push_char(&mut current, c);
            assert(current@ =~= seq![c]);
            in_word = true;
        }
    }
    assert(seen =~= line@);
    let ghost before = tokens@;
    let ghost word = current@;
    if in_word {
        tokens.push(current);
        assert(texts(tokens@) =~= texts(before).push(word));
    }
    assert(texts(tokens@) =~= words(line@));
    tokens
}

/// Whether `s` begins with `prefix`.
pub fn has_prefix(s: &Vec<char>, prefix: &Vec<char>) -> (r: bool)
    ensures
        r == starts_with(s@, prefix@),
{
    if prefix.len() > s.len() {
        return false;
    }
    let mut i: usize = 0;
    while i < prefix.len()
        invariant
            i <= prefix.len() <= s.len(),
            forall|j: int| 0 <= j < i ==> s@[j] == prefix@[j],
        decreases prefix.len() - i,
    {
        if s[i] != prefix[i] {
            assert(s@.take(prefix.len() as int)[i as int] != prefix@[i as int]);
            return false;
        }
        i = i + 1;
    }
    assert(s@.take(prefix.len() as int) =~= prefix@);
    true
}

/// Whether `s` ends with `suffix`.
pub fn has_suffix(s: &Vec<char>, suffix: &Vec<char>) -> (r: bool)
    ensures
        r == ends_with(s@, suffix@),
{
    if suffix.len() > s.len() {
        return false;
    }
    let start = s.len() - suffix.len();
    let mut i: usize = 0;
    while i < suffix.len()
        invariant
            i <= suffix.len() <= s.len(),
            start == s.len() - suffix.len(),
            forall|j: int| 0 <= j < i ==> s@[start + j] == suffix@[j],
        decreases suffix.len() - i,
    {
        if s[start + i] != suffix[i] {
            assert(s@.skip(start as int)[i as int] != suffix@[i as int]);
            return false;
        }
        i = i + 1;
    }
    assert(s@.skip(start as int) =~= suffix@);
    true
}

/// Whether `pattern` occurs in `s` as a run of consecutive characters.
pub fn has_pattern(s: &Vec<char>, pattern: &Vec<char>) -> (r: bool)
    ensures
        r == contains(s@, pattern@),
{
    if pattern.len() > s.len() {
        return false;
    }
    let last_start = s.len() - pattern.len();
    let mut start: usize = 0;
    while start <= last_start
        invariant
            pattern.len() <= s.len(),
            last_start == s.len() - pattern.len(),
            start <= last_start + 1,
            forall|k: int|
                0 <= k < start ==> #[trigger] s@.subrange(k, k + pattern.len()) != pattern@,
        decreases last_start + 1 - start,
    {
        let mut i: usize = 0;
        let mut matched = true;
        while i < pattern.len()
            invariant
                start + pattern.len() <= s.len(),
                i <= pattern.len(),
                matched == (forall|j: int| 0 <= j < i ==> s@[start + j] == pattern@[j]),
            decreases pattern.len() - i,
        {
            if s[start + i] != pattern[i] {
                matched = false;
            }
            i = i + 1;
        }
        if matched {
            assert(s@.subrange(start as int, start + pattern.len()) =~= pattern@);
            return true;
        }
        let ghost k = start as int;
        assert(exists|j: int| 0 <= j < pattern.len() && s@[k + j] != pattern@[j]);
        let ghost j = choose|j: int| 0 <= j < pattern.len() && s@[k + j] != pattern@[j];
        assert(s@.subrange(k, k + pattern.len())[j] != pattern@[j]);
        start = start + 1;
    }
    assert forall|k: int| 0 <= k && k + pattern.len() <= s.len() implies #[trigger] s@.subrange(
        k,
        k + pattern.len(),
    ) != pattern@ by {}
    false
}

/// Whether `s` is one word: not empty, with no white space in it.
pub open spec fn is_word(s: Seq<char>) -> bool {
    s.len() > 0 && forall|i: int| 0 <= i < s.len() ==> !unicode_white_space(#[trigger] s[i])
}

/// A text that ends in a character other than white space has at least one word.
pub proof fn lemma_words_nonempty(s: Seq<char>)
    requires
        s.len() > 0,
        !unicode_white_space(s.last()),
    ensures
        words(s).len() > 0,
    decreases s.len(),
{
    if s.len() >= 2 && !unicode_white_space(s[s.len() - 2]) {
        lemma_words_nonempty(s.drop_last());
    }
}

/// One word is its own only word.
pub proof fn lemma_words_of_word(s: Seq<char>)
    requires
        is_word(s),
    ensures
        words(s) == seq![s],
    decreases s.len(),
{
    if s.len() == 1 {
        assert(s.drop_last() =~= Seq::<char>::empty());
        assert(words(s.drop_last()) =~= Seq::<Seq<char>>::empty());
        assert(seq![s.last()] =~= s);
        assert(words(s) =~= seq![seq![s.last()]]);
    } else {
        let front = s.drop_last();
        assert(is_word(front)) by {
            assert forall|i: int| 0 <= i < front.len() implies !unicode_white_space(#[trigger] front[i]) by {
                assert(front[i] == s[i]);
            }
        }
        lemma_words_of_word(front);
        assert(!unicode_white_space(s[s.len() - 2]));
        assert(front.push(s.last()) =~= s);
        assert(seq![front].update(0, front.push(s.last())) =~= seq![s]);
    }
}

/// White space splits a text: the words of `p`, a white-space character, then `q` are
/// the words of `p` followed by the words of `q`.
pub proof fn lemma_words_split(p: Seq<char>, c: char, q: Seq<char>)
    requires
        unicode_white_space(c),
    ensures
        words(p + seq![c] + q) == words(p) + words(q),
    decreases q.len(),
{
    let s = p + seq![c] + q;
    if q.len() == 0 {
        assert(s.drop_last() =~= p);
        assert(words(p) + words(q) =~= words(p));
    } else {
        let q1 = q.drop_last();
        let x = q.last();
        assert(s.drop_last() =~= p + seq![c] + q1);
        lemma_words_split(p, c, q1);
        let a = words(p);
        let b = words(q1);
        assert(s.last() == x);
        if unicode_white_space(x) {
        } else if q1.len() == 0 {
            assert(s[s.len() - 2] == c);
            assert(b =~= Seq::<Seq<char>>::empty());
            assert((a + b).push(seq![x]) =~= a + b.push(seq![x]));
        } else {
            assert(s[s.len() - 2] == q1.last());
            assert(q[q.len() - 2] == q1.last());
            if !unicode_white_space(q1.last()) {
                lemma_words_nonempty(q1);
                assert((a + b).update((a + b).len() - 1, (a + b).last().push(x)) =~= a + b.update(
                    b.len() - 1,
                    b.last().push(x),
                ));
            } else {
                assert((a + b).push(seq![x]) =~= a + b.push(seq![x]));
            }
        }
    }
}

/// The line `name = value`.
pub open spec fn assignment_line(name: Seq<char>, value: Seq<char>) -> Seq<char> {
    name + seq![' ', '=', ' '] + value
}

/// The words of `name = value` are the name, `=` and the value.
pub proof fn lemma_assignment_words(name: Seq<char>, value: Seq<char>)
    requires
        is_word(name),
        is_word(value),
    ensures
        words(assignment_line(name, value)) == seq![name, seq!['='], value],
{
    let rest = seq!['='] + seq![' '] + value;
    assert(assignment_line(name, value) =~= name + seq![' '] + rest);
    lemma_words_split(name, ' ', rest);
    lemma_words_split(seq!['='], ' ', value);
    lemma_words_of_word(name);
    lemma_words_of_word(value);
    lemma_words_of_word(seq!['=']);
    assert(seq![name] + (seq![seq!['=']] + seq![value]) =~= seq![name, seq!['='], value]);
}

} // verus!
