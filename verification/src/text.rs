//! Text on character sequences: whitespace, words, lines, decimal numbers and
//! ASCII case folding.

use vstd::prelude::*;
use vstd::slice::{slice_subrange, slice_to_vec};

verus! {

/// `String::push` appends one character at the end of the string.
pub assume_specification[ String::push ](s: &mut String, c: char)
    ensures
        final(s)@ == old(s)@.push(c),
;

/// The characters with the Unicode `White_Space` property.
pub open spec fn is_space(c: char) -> bool {
    ||| '\u{9}' <= c <= '\u{d}'
    ||| c == '\u{20}'
    ||| c == '\u{85}'
    ||| c == '\u{a0}'
    ||| c == '\u{1680}'
    ||| '\u{2000}' <= c <= '\u{200a}'
    ||| c == '\u{2028}'
    ||| c == '\u{2029}'
    ||| c == '\u{202f}'
    ||| c == '\u{205f}'
    ||| c == '\u{3000}'
}

pub fn is_space_char(c: char) -> (r: bool)
    ensures
        r == is_space(c),
{
    ('\u{9}' <= c && c <= '\u{d}') || c == '\u{20}' || c == '\u{85}' || c == '\u{a0}' || c
        == '\u{1680}' || ('\u{2000}' <= c && c <= '\u{200a}') || c == '\u{2028}' || c == '\u{2029}'
        || c == '\u{202f}' || c == '\u{205f}' || c == '\u{3000}'
}

/// The characters of a string, in order.
pub fn chars_of(s: &str) -> (v: Vec<char>)
    ensures
        v@ == s@,
{
    let mut v: Vec<char> = Vec::new();
    for c in iter: s.chars()
        invariant
            v@ == iter.seq().take(iter.index() as int),
            iter.seq() == s@,
    {
        v.push(c);
    }
    v
}

/// The string that holds exactly the given characters.
pub fn string_of(v: &[char]) -> (s: String)
    ensures
        s@ == v@,
{
    let mut s = String::new();
    let mut i: usize = 0;
    while i < v.len()
        invariant
            i <= v.len(),
            s@ == v@.take(i as int),
        decreases v.len() - i,
    {
        s.push(v[i]);
        i += 1;
        assert(v@.take(i as int) =~= v@.take(i - 1).push(v@[i - 1]));
    }
    assert(v@.take(i as int) =~= v@);
    s
}

/// `s` without its leading whitespace.
pub open spec fn trim_start(s: Seq<char>) -> Seq<char>
    decreases s.len(),
{
    if s.len() > 0 && is_space(s[0]) {
        trim_start(s.drop_first())
    } else {
        s
    }
}

/// `s` without its trailing whitespace.
pub open spec fn trim_end(s: Seq<char>) -> Seq<char>
    decreases s.len(),
{
    if s.len() > 0 && is_space(s.last()) {
        trim_end(s.drop_last())
    } else {
        s
    }
}

/// `s` without whitespace at either end.
pub open spec fn trim(s: Seq<char>) -> Seq<char> {
    trim_end(trim_start(s))
}

pub fn trim_chars(v: &[char]) -> (r: &[char])
    ensures
        r@ == trim(v@),
{
    let mut start: usize = 0;
    assert(v@.skip(0) =~= v@);
    while start < v.len() && is_space_char(v[start])
        invariant
            start <= v.len(),
            trim_start(v@.skip(start as int)) == trim_start(v@),
        decreases v.len() - start,
    {
        assert(v@.skip(start as int).drop_first() =~= v@.skip(start + 1));
        start += 1;
    }
    let mut end: usize = v.len();
    assert(v@.subrange(start as int, end as int) =~= v@.skip(start as int));
    while end > start && is_space_char(v[end - 1])
        invariant
            start <= end <= v.len(),
            trim_end(v@.subrange(start as int, end as int)) == trim(v@),
        decreases end,
    {
        assert(v@.subrange(start as int, end as int).drop_last() =~= v@.subrange(
            start as int,
            end - 1,
        ));
        end -= 1;
    }
    slice_subrange(v, start, end)
}

/// How many characters at the front of `s` are not whitespace.
pub open spec fn word_len(s: Seq<char>) -> nat
    decreases s.len(),
{
    if s.len() > 0 && !is_space(s[0]) {
        1 + word_len(s.drop_first())
    } else {
        0
    }
}

pub proof fn lemma_word_len_bound(s: Seq<char>)
    ensures
        word_len(s) <= s.len(),
    decreases s.len(),
{
    if s.len() > 0 && !is_space(s[0]) {
        lemma_word_len_bound(s.drop_first());
    }
}

pub proof fn lemma_trim_start_len(s: Seq<char>)
    ensures
        trim_start(s).len() <= s.len(),
        trim_start(s).len() > 0 ==> !is_space(trim_start(s)[0]),
    decreases s.len(),
{
    if s.len() > 0 && is_space(s[0]) {
        lemma_trim_start_len(s.drop_first());
    }
}

/// The maximal runs of characters that are not whitespace, in order.
pub open spec fn words(s: Seq<char>) -> Seq<Seq<char>>
    decreases s.len(),
{
    let t = trim_start(s);
    if t.len() == 0 {
        Seq::empty()
    } else {
        proof {
            lemma_trim_start_len(s);
            lemma_word_len_bound(t);
        }
        seq![t.take(word_len(t) as int)] + words(t.skip(word_len(t) as int))
    }
}

/// The contents of a list of character vectors.
pub open spec fn texts(v: Seq<Vec<char>>) -> Seq<Seq<char>> {
    Seq::new(v.len(), |i: int| v[i]@)
}

pub fn split_words(v: &[char]) -> (r: Vec<Vec<char>>)
    ensures
        texts(r@) == words(v@),
{
    let mut r: Vec<Vec<char>> = Vec::new();
    let mut i: usize = 0;
    assert(v@.skip(0) =~= v@);
    assert(texts(r@) =~= Seq::<Seq<char>>::empty());
    assert(texts(r@) + words(v@) =~= words(v@));
    loop
        invariant
            i <= v.len(),
            texts(r@) + words(v@.skip(i as int)) == words(v@),
        decreases v.len() - i,
    {
        let ghost before = i;
        while i < v.len() && is_space_char(v[i])
            invariant
                before <= i <= v.len(),
                trim_start(v@.skip(i as int)) == trim_start(v@.skip(before as int)),
            decreases v.len() - i,
        {
            assert(v@.skip(i as int).drop_first() =~= v@.skip(i + 1));
            i += 1;
        }
        if i >= v.len() {
            assert(words(v@.skip(before as int)) =~= Seq::<Seq<char>>::empty());
            assert(texts(r@) =~= words(v@));
            return r;
        }
        let ghost t = v@.skip(i as int);
        let start: usize = i;
        assert(t.skip(0) =~= t);
        while i < v.len() && !is_space_char(v[i])
            invariant
                start <= i <= v.len(),
                t == v@.skip(start as int),
                word_len(t) == (i - start) + word_len(t.skip(i - start)),
            decreases v.len() - i,
        {
            assert(t.skip(i - start).drop_first() =~= t.skip(i - start + 1));
            assert(t.skip(i - start)[0] == v@[i as int]);
            i += 1;
        }
        if i < v.len() {
            assert(t.skip(i - start)[0] == v@[i as int]);
        }
        assert(word_len(t) == i - start);
        let word = slice_to_vec(slice_subrange(v, start, i));
        assert(word@ =~= t.take(i - start));
        assert(t.skip(i - start) =~= v@.skip(i as int));
        let ghost old_r = r@;
        r.push(word);
        assert(texts(r@) =~= texts(old_r).push(word@));
        assert(texts(old_r) + (seq![word@] + words(v@.skip(i as int))) =~= texts(r@) + words(
            v@.skip(i as int),
        ));
    }
}

/// The position of the first `c` in `s`, or the length of `s` if there is none.
pub open spec fn find_char(s: Seq<char>, c: char) -> nat
    decreases s.len(),
{
    if s.len() == 0 || s[0] == c {
        0
    } else {
        1 + find_char(s.drop_first(), c)
    }
}

pub proof fn lemma_find_char(s: Seq<char>, c: char)
    ensures
        find_char(s, c) <= s.len(),
        find_char(s, c) < s.len() ==> s[find_char(s, c) as int] == c,
        forall|i: int| 0 <= i < find_char(s, c) ==> s[i] != c,
    decreases s.len(),
{
    if s.len() != 0 && s[0] != c {
        lemma_find_char(s.drop_first(), c);
        assert forall|i: int| 0 <= i < find_char(s, c) implies s[i] != c by {
            if i > 0 {
                assert(s[i] == s.drop_first()[i - 1]);
            }
        }
    }
}

pub fn position_of(v: &[char], c: char) -> (r: usize)
    ensures
        r == find_char(v@, c),
        r <= v.len(),
{
    let mut i: usize = 0;
    assert(v@.skip(0) =~= v@);
    while i < v.len() && v[i] != c
        invariant
            i <= v.len(),
            find_char(v@, c) == i + find_char(v@.skip(i as int), c),
        decreases v.len() - i,
    {
        assert(v@.skip(i as int).drop_first() =~= v@.skip(i + 1));
        i += 1;
    }
    i
}

/// The lines of `s`: each ends at a line feed or at the end of the text, and a
/// carriage return in front of the line feed belongs to the line ending.
pub open spec fn lines(s: Seq<char>) -> Seq<Seq<char>>
    decreases s.len(),
{
    if s.len() == 0 {
        Seq::empty()
    } else {
        let n = find_char(s, '\n') as int;
        if n >= s.len() {
            seq![s]
        } else {
            seq![
                if n > 0 && s[n - 1] == '\r' {
                    s.take(n - 1)
                } else {
                    s.take(n)
                },
            ] + lines(s.skip(n + 1))
        }
    }
}

/// A text without line endings, behind which one stands, is a line of its own.
pub proof fn lemma_first_line(a: Seq<char>, rest: Seq<char>)
    requires
        forall|i: int| 0 <= i < a.len() ==> a[i] != '\n',
        a.len() > 0 ==> a.last() != '\r',
    ensures
        lines(a + seq!['\n'] + rest) == seq![a] + lines(rest),
{
    let s = a + seq!['\n'] + rest;
    lemma_find_char(s, '\n');
    let n = find_char(s, '\n') as int;
    assert(s[a.len() as int] == '\n');
    if n < a.len() {
        assert(s[n] == a[n]);
    }
    assert(n == a.len());
    assert(s.take(n) =~= a);
    assert(s.skip(n + 1) =~= rest);
    if n > 0 {
        assert(s[n - 1] == a.last());
    }
}

/// A text that starts and ends without whitespace stays as it is.
pub proof fn lemma_trimmed(s: Seq<char>)
    requires
        s.len() > 0 ==> !is_space(s[0]) && !is_space(s.last()),
    ensures
        trim(s) == s,
{
}

/// What is left after trimming starts and ends without whitespace.
pub proof fn lemma_trim_ends(s: Seq<char>)
    ensures
        trim(s).len() > 0 ==> !is_space(trim(s)[0]) && !is_space(trim(s).last()),
{
    lemma_trim_start_len(s);
    lemma_trim_end_keeps(trim_start(s));
}

proof fn lemma_trim_end_keeps(s: Seq<char>)
    ensures
        trim_end(s).len() > 0 ==> !is_space(trim_end(s).last()) && trim_end(s)[0] == s[0],
    decreases s.len(),
{
    if s.len() > 0 && is_space(s.last()) {
        lemma_trim_end_keeps(s.drop_last());
    }
}

pub fn split_lines(v: &[char]) -> (r: Vec<Vec<char>>)
    ensures
        texts(r@) == lines(v@),
{
    let mut r: Vec<Vec<char>> = Vec::new();
    let mut i: usize = 0;
    assert(v@.skip(0) =~= v@);
    assert(texts(r@) + lines(v@) =~= lines(v@));
    while i < v.len()
        invariant
            i <= v.len(),
            texts(r@) + lines(v@.skip(i as int)) == lines(v@),
        decreases v.len() - i,
    {
        let rest = slice_subrange(v, i, v.len());
        assert(rest@ =~= v@.skip(i as int));
        let n: usize = position_of(rest, '\n');
        let ghost old_r = r@;
        if n >= rest.len() {
            let line = slice_to_vec(rest);
            r.push(line);
            assert(texts(r@) =~= texts(old_r).push(rest@));
            assert(lines(v@.skip(v.len() as int)) =~= Seq::<Seq<char>>::empty());
            assert(texts(old_r) + seq![rest@] =~= texts(r@) + Seq::<Seq<char>>::empty());
            i = v.len();
        } else {
            let end: usize = if n > 0 && rest[n - 1] == '\r' {
                n - 1
            } else {
                n
            };
            let line = slice_to_vec(slice_subrange(rest, 0, end));
            assert(line@ =~= rest@.take(end as int));
            r.push(line);
            assert(texts(r@) =~= texts(old_r).push(line@));
            assert(rest@.skip(n + 1) =~= v@.skip(i + n + 1));
            assert(texts(old_r) + (seq![line@] + lines(v@.skip(i + n + 1))) =~= texts(r@) + lines(
                v@.skip(i + n + 1),
            ));
            i = i + n + 1;
        }
    }
    assert(texts(r@) + lines(v@.skip(i as int)) =~= texts(r@));
    r
}

/// `c` with the upper case ASCII letters turned into lower case ones.
pub open spec fn ascii_lower(c: char) -> char {
    if 'A' <= c <= 'Z' {
        ((c as u32 + 32) as u32) as char
    } else {
        c
    }
}

pub open spec fn ascii_lower_all(s: Seq<char>) -> Seq<char> {
    Seq::new(s.len(), |i: int| ascii_lower(s[i]))
}

/// Equality of texts up to the case of ASCII letters.
pub open spec fn same_ignoring_case(a: Seq<char>, b: Seq<char>) -> bool {
    ascii_lower_all(a) == ascii_lower_all(b)
}

pub fn ascii_lower_char(c: char) -> (r: char)
    ensures
        r == ascii_lower(c),
{
    if 'A' <= c && c <= 'Z' {
        ((c as u8) + 32) as char
    } else {
        c
    }
}

pub fn eq_ignoring_case(a: &[char], b: &[char]) -> (r: bool)
    ensures
        r == same_ignoring_case(a@, b@),
{
    if a.len() != b.len() {
        assert(ascii_lower_all(a@).len() != ascii_lower_all(b@).len());
        return false;
    }
    let mut i: usize = 0;
    while i < a.len()
        invariant
            i <= a.len(),
            a.len() == b.len(),
            forall|j: int| 0 <= j < i ==> ascii_lower(a@[j]) == ascii_lower(b@[j]),
        decreases a.len() - i,
    {
        if ascii_lower_char(a[i]) != ascii_lower_char(b[i]) {
            assert(ascii_lower_all(a@)[i as int] != ascii_lower_all(b@)[i as int]);
            return false;
        }
        i += 1;
    }
    assert(ascii_lower_all(a@) =~= ascii_lower_all(b@));
    true
}

pub fn eq_chars(a: &[char], b: &[char]) -> (r: bool)
    ensures
        r == (a@ == b@),
{
    if a.len() != b.len() {
        return false;
    }
    let mut i: usize = 0;
    while i < a.len()
        invariant
            i <= a.len(),
            a.len() == b.len(),
            forall|j: int| 0 <= j < i ==> a@[j] == b@[j],
        decreases a.len() - i,
    {
        if a[i] != b[i] {
            return false;
        }
        i += 1;
    }
    assert(a@ =~= b@);
    true
}

/// Whether `v` is the text of the literal `s`.
pub fn is_text(v: &[char], s: &str) -> (r: bool)
    ensures
        r == (v@ == s@),
{
    let w = chars_of(s);
    eq_chars(v, w.as_slice())
}

/// Whether `v` is the text of `s` up to the case of ASCII letters.
pub fn is_text_ignoring_case(v: &[char], s: &str) -> (r: bool)
    ensures
        r == same_ignoring_case(v@, s@),
{
    let w = chars_of(s);
    eq_ignoring_case(v, w.as_slice())
}

pub open spec fn has_prefix(s: Seq<char>, p: Seq<char>) -> bool {
    p.len() <= s.len() && s.take(p.len() as int) == p
}

pub fn starts_with_text(v: &[char], p: &str) -> (r: bool)
    ensures
        r == has_prefix(v@, p@),
{
    let w = chars_of(p);
    if w.len() > v.len() {
        return false;
    }
    let head = slice_subrange(v, 0, w.len());
    assert(head@ =~= v@.take(w.len() as int));
    eq_chars(head, w.as_slice())
}

/// `s` without the prefix `p`, or `s` itself where it does not start with `p`.
pub open spec fn without_prefix(s: Seq<char>, p: Seq<char>) -> Seq<char> {
    if has_prefix(s, p) {
        s.skip(p.len() as int)
    } else {
        s
    }
}

pub fn drop_prefix<'a>(v: &'a [char], p: &str) -> (r: &'a [char])
    ensures
        r@ == without_prefix(v@, p@),
{
    if starts_with_text(v, p) {
        let w = chars_of(p);
        let rest = slice_subrange(v, w.len(), v.len());
        assert(rest@ =~= v@.skip(w.len() as int));
        rest
    } else {
        v
    }
}

/// Whether `p` occurs in `s` as a contiguous run of characters.
pub open spec fn contains_text(s: Seq<char>, p: Seq<char>) -> bool {
    exists|i: int| 0 <= i && has_prefix_at(s, p, i)
}

pub open spec fn has_prefix_at(s: Seq<char>, p: Seq<char>, i: int) -> bool {
    i + p.len() <= s.len() && s.subrange(i, i + p.len()) == p
}

pub fn has_substring(v: &[char], p: &str) -> (r: bool)
    ensures
        r == contains_text(v@, p@),
{
    let w = chars_of(p);
    let mut i: usize = 0;
    while i <= v.len() && w.len() <= v.len() - i
        invariant
            i <= v.len() + 1,
            w@ == p@,
            forall|j: int| 0 <= j < i ==> !has_prefix_at(v@, p@, j),
        decreases v.len() + 1 - i,
    {
        if eq_chars(slice_subrange(v, i, i + w.len()), w.as_slice()) {
            assert(has_prefix_at(v@, p@, i as int));
            return true;
        }
        if i == v.len() {
            assert forall|j: int| 0 <= j implies !has_prefix_at(v@, p@, j) by {}
            return false;
        }
        i += 1;
    }
    assert forall|j: int| 0 <= j implies !has_prefix_at(v@, p@, j) by {}
    false
}

/// Every character of the text is whitespace.
pub open spec fn is_blank(s: Seq<char>) -> bool {
    forall|i: int| 0 <= i < s.len() ==> is_space(#[trigger] s[i])
}

/// The text has characters, and none of them is whitespace.
pub open spec fn is_word(s: Seq<char>) -> bool {
    s.len() > 0 && forall|i: int| 0 <= i < s.len() ==> !is_space(#[trigger] s[i])
}

/// Blanks, tabs and line ends are whitespace; visible ASCII characters are not.
pub proof fn law_visible_characters_are_not_blank(c: char)
    ensures
        c == ' ' || c == '\t' || c == '\n' || c == '\r' ==> is_space(c),
        '!' <= c <= '~' ==> !is_space(c),
{
}

proof fn lemma_skip_blanks(gap: Seq<char>, rest: Seq<char>)
    requires
        is_blank(gap),
    ensures
        trim_start(gap + rest) == trim_start(rest),
    decreases gap.len(),
{
    if gap.len() > 0 {
        assert((gap + rest)[0] == gap[0]);
        assert((gap + rest).drop_first() =~= gap.drop_first() + rest);
        assert forall|i: int| 0 <= i < gap.drop_first().len() implies is_space(
            #[trigger] gap.drop_first()[i],
        ) by {
            assert(gap.drop_first()[i] == gap[i + 1]);
        }
        lemma_skip_blanks(gap.drop_first(), rest);
    } else {
        assert(gap + rest =~= rest);
    }
}

proof fn lemma_skip_blanks_behind(rest: Seq<char>, gap: Seq<char>)
    requires
        is_blank(gap),
    ensures
        trim_end(rest + gap) == trim_end(rest),
    decreases gap.len(),
{
    if gap.len() > 0 {
        assert(gap[gap.len() - 1] == gap.last());
        assert((rest + gap).last() == gap.last());
        assert((rest + gap).drop_last() =~= rest + gap.drop_last());
        assert forall|i: int| 0 <= i < gap.drop_last().len() implies is_space(
            #[trigger] gap.drop_last()[i],
        ) by {
            assert(gap.drop_last()[i] == gap[i]);
        }
        lemma_skip_blanks_behind(rest, gap.drop_last());
    } else {
        assert(rest + gap =~= rest);
    }
}

proof fn lemma_word_in_front(first: Seq<char>, rest: Seq<char>)
    requires
        forall|i: int| 0 <= i < first.len() ==> !is_space(#[trigger] first[i]),
        rest.len() > 0 ==> is_space(rest[0]),
    ensures
        word_len(first + rest) == first.len(),
    decreases first.len(),
{
    if first.len() > 0 {
        assert((first + rest)[0] == first[0]);
        assert((first + rest).drop_first() =~= first.drop_first() + rest);
        assert forall|i: int| 0 <= i < first.drop_first().len() implies !is_space(
            #[trigger] first.drop_first()[i],
        ) by {
            assert(first.drop_first()[i] == first[i + 1]);
        }
        lemma_word_in_front(first.drop_first(), rest);
    } else {
        assert(first + rest =~= rest);
    }
}

/// A word with blanks behind it is the first word of a text, and the others
/// are those of the rest; blanks in front do not count.
pub proof fn law_words_come_apart(first: Seq<char>, gap: Seq<char>, rest: Seq<char>)
    requires
        is_word(first),
        is_blank(gap),
        gap.len() > 0 || rest.len() == 0,
    ensures
        words(first + gap + rest) == seq![first] + words(rest),
        words(gap + rest) == words(rest),
{
    let s = first + gap + rest;
    assert(s =~= first + (gap + rest));
    assert(s[0] == first[0]);
    if gap.len() > 0 {
        assert((gap + rest)[0] == gap[0]);
    }
    lemma_word_in_front(first, gap + rest);
    assert(s.take(first.len() as int) =~= first);
    assert(s.skip(first.len() as int) =~= gap + rest);
    lemma_skip_blanks(gap, rest);
    assert(trim_start(s) == s);
    assert(words(gap + rest) == words(rest));
    assert(words(s) == seq![first] + words(gap + rest));
}

/// Trimming takes the blanks round a text away, and nothing of the text.
pub proof fn law_trimming_removes_blanks_only(before: Seq<char>, s: Seq<char>, after: Seq<char>)
    requires
        is_blank(before),
        is_blank(after),
        s.len() > 0,
        !is_space(s[0]),
        !is_space(s.last()),
    ensures
        trim(before + s + after) == s,
{
    assert(before + s + after =~= before + (s + after));
    lemma_skip_blanks(before, s + after);
    assert((s + after)[0] == s[0]);
    lemma_skip_blanks_behind(s, after);
}

/// Case does not count for two letters of the ASCII alphabet that are
/// thirty-two places apart, and counts for all other characters.
pub proof fn law_case_is_ignored_for_letters(a: char, b: char)
    ensures
        same_ignoring_case(seq![a], seq![b]) <==> a == b || ('A' <= a <= 'Z' && b as u32 == a as u32
            + 32) || ('A' <= b <= 'Z' && a as u32 == b as u32 + 32),
{
    assert(ascii_lower_all(seq![a]).len() == 1 && ascii_lower_all(seq![b]).len() == 1);
    assert(ascii_lower_all(seq![a])[0] == ascii_lower(a));
    assert(ascii_lower_all(seq![b])[0] == ascii_lower(b));
    if ascii_lower(a) == ascii_lower(b) {
        assert(ascii_lower_all(seq![a]) =~= ascii_lower_all(seq![b]));
    }
}

/// Texts are the same up to case where they are so character by character.
pub proof fn law_case_is_ignored_by_position(a: Seq<char>, b: Seq<char>)
    ensures
        same_ignoring_case(a, b) <==> a.len() == b.len() && forall|i: int|
            0 <= i < a.len() ==> same_ignoring_case(seq![#[trigger] a[i]], seq![b[i]]),
{
    if same_ignoring_case(a, b) {
        assert(ascii_lower_all(a).len() == ascii_lower_all(b).len());
        assert forall|i: int| 0 <= i < a.len() implies same_ignoring_case(
            seq![#[trigger] a[i]],
            seq![b[i]],
        ) by {
            assert(ascii_lower_all(a)[i] == ascii_lower_all(b)[i]);
            assert(ascii_lower_all(seq![a[i]]) =~= ascii_lower_all(seq![b[i]]));
        }
    }
    if a.len() == b.len() && (forall|i: int|
        0 <= i < a.len() ==> same_ignoring_case(seq![#[trigger] a[i]], seq![b[i]])) {
        assert forall|i: int| 0 <= i < a.len() implies ascii_lower(a[i]) == ascii_lower(b[i]) by {
            assert(ascii_lower_all(seq![a[i]])[0] == ascii_lower_all(seq![b[i]])[0]);
        }
        assert(ascii_lower_all(a) =~= ascii_lower_all(b));
    }
}

/// Two texts that are joined by a separator which the first does not hold can
/// be told apart again.
pub proof fn lemma_split_unique(a1: Seq<char>, b1: Seq<char>, a2: Seq<char>, b2: Seq<char>, c: char)
    requires
        a1 + seq![c] + b1 == a2 + seq![c] + b2,
        forall|i: int| 0 <= i < a1.len() ==> #[trigger] a1[i] != c,
        forall|i: int| 0 <= i < a2.len() ==> #[trigger] a2[i] != c,
    ensures
        a1 == a2,
        b1 == b2,
{
    let s1 = a1 + seq![c] + b1;
    let s2 = a2 + seq![c] + b2;
    assert(s1[a1.len() as int] == c);
    assert(s2[a2.len() as int] == c);
    if a1.len() < a2.len() {
        assert(s2[a1.len() as int] == a2[a1.len() as int]);
    }
    if a2.len() < a1.len() {
        assert(s1[a2.len() as int] == a1[a2.len() as int]);
    }
    assert forall|i: int| 0 <= i < a1.len() implies a1[i] == a2[i] by {
        assert(s1[i] == a1[i] && s2[i] == a2[i]);
    }
    assert(a1 =~= a2);
    assert(seq![c].len() == 1);
    assert(s1.len() == a1.len() + 1 + b1.len());
    assert(s2.len() == a2.len() + 1 + b2.len());
    assert forall|i: int| 0 <= i < b1.len() implies b1[i] == b2[i] by {
        assert(s1[a1.len() + 1 + i] == b1[i] && s2[a1.len() + 1 + i] == b2[i]);
    }
    assert(b1 =~= b2);
}

} // verus!
