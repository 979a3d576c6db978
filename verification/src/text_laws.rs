//! What the operations on text come to, stated over the characters alone.

use crate::text;
use vstd::prelude::*;

verus! {

/// White space is what Unicode says it is, and the blank, the tab, the line feed and the carriage
/// return are among it; a letter, a digit or a quote is not.
pub proof fn white_space_is_that_of_unicode(c: char)
    ensures
        text::white(c) <==> (9 <= c as u32 <= 13 || c as u32 == 32 || c as u32 == 133 || c as u32
            == 160 || c as u32 == 5760 || 8192 <= c as u32 <= 8202 || c as u32 == 8232 || c as u32
            == 8233 || c as u32 == 8239 || c as u32 == 8287 || c as u32 == 12288),
{
}

/// Trimming takes away white space only, takes away all of it at either end, and leaves what
/// stands between untouched: of a text with white space around it, that text is left.
pub proof fn trimming_leaves_the_middle(front: Seq<char>, middle: Seq<char>, back: Seq<char>)
    requires
        forall|i: int| 0 <= i < front.len() ==> text::white(#[trigger] front[i]),
        forall|i: int| 0 <= i < back.len() ==> text::white(#[trigger] back[i]),
        middle.len() > 0 ==> !text::white(middle[0]) && !text::white(middle.last()),
    ensures
        text::trim(front + middle + back) == middle,
    decreases front.len() + back.len(),
{
    let s = front + middle + back;
    if middle.len() == 0 {
        assert forall|i: int| 0 <= i < s.len() implies text::white(#[trigger] s[i]) by {
            if i < front.len() {
                assert(s[i] == front[i]);
            } else {
                assert(s[i] == back[i - front.len()]);
            }
        }
        lemma_all_white(s);
        assert(middle =~= Seq::<char>::empty());
    } else if front.len() > 0 {
        let rest = front.drop_first();
        assert(s[0] == front[0]);
        assert forall|i: int| 0 <= i < rest.len() implies text::white(#[trigger] rest[i]) by {
            assert(rest[i] == front[i + 1]);
        }
        assert(s.drop_first() =~= rest + middle + back);
        trimming_leaves_the_middle(rest, middle, back);
    } else {
        assert(s =~= middle + back);
        assert(s[0] == middle[0]);
        assert(text::trim_start(s) == s);
        lemma_trim_end(middle, back);
    }
}

proof fn lemma_all_white(s: Seq<char>)
    requires
        forall|i: int| 0 <= i < s.len() ==> text::white(#[trigger] s[i]),
    ensures
        text::trim_start(s) == Seq::<char>::empty(),
        text::trim_end(Seq::<char>::empty()) == Seq::<char>::empty(),
    decreases s.len(),
{
    if s.len() > 0 {
        let rest = s.drop_first();
        assert(text::white(s[0]));
        assert forall|i: int| 0 <= i < rest.len() implies text::white(#[trigger] rest[i]) by {
            assert(rest[i] == s[i + 1]);
        }
        lemma_all_white(rest);
    } else {
        assert(s =~= Seq::<char>::empty());
    }
}

proof fn lemma_trim_end(middle: Seq<char>, back: Seq<char>)
    requires
        forall|i: int| 0 <= i < back.len() ==> text::white(#[trigger] back[i]),
        middle.len() > 0,
        !text::white(middle.last()),
    ensures
        text::trim_end(middle + back) == middle,
    decreases back.len(),
{
    let s = middle + back;
    if back.len() > 0 {
        let rest = back.drop_last();
        assert(s.last() == back[back.len() - 1]);
        assert(s.drop_last() =~= middle + rest);
        assert forall|i: int| 0 <= i < rest.len() implies text::white(#[trigger] rest[i]) by {
            assert(rest[i] == back[i]);
        }
        lemma_trim_end(middle, rest);
    } else {
        assert(s =~= middle);
    }
}

/// Stripping a mark takes it away at either end, however often it stands there, and leaves it
/// everywhere else.
pub proof fn stripping_leaves_the_middle(m: nat, middle: Seq<char>, n: nat, mark: char)
    requires
        middle.len() > 0 ==> middle[0] != mark && middle.last() != mark,
    ensures
        text::strip(
            Seq::new(m, |i: int| mark) + middle + Seq::new(n, |i: int| mark),
            mark,
        ) == middle,
    decreases m,
{
    let front = Seq::new(m, |i: int| mark);
    let back = Seq::new(n, |i: int| mark);
    let s = front + middle + back;
    if m > 0 {
        let rest = Seq::new((m - 1) as nat, |i: int| mark);
        assert(s[0] == mark);
        assert(s.drop_first() =~= rest + middle + back);
        stripping_leaves_the_middle((m - 1) as nat, middle, n, mark);
    } else if middle.len() > 0 {
        assert(s =~= middle + back);
        assert(s[0] == middle[0]);
        assert(text::strip_start(s, mark) == s);
        lemma_strip_end(middle, n, mark);
    } else {
        assert(s =~= back);
        lemma_all_marks(n, mark);
        assert(middle =~= Seq::<char>::empty());
    }
}

proof fn lemma_strip_end(middle: Seq<char>, n: nat, mark: char)
    requires
        middle.len() > 0,
        middle.last() != mark,
    ensures
        text::strip_end(middle + Seq::new(n, |i: int| mark), mark) == middle,
    decreases n,
{
    let s = middle + Seq::new(n, |i: int| mark);
    if n > 0 {
        assert(s.last() == mark);
        assert(s.drop_last() =~= middle + Seq::new((n - 1) as nat, |i: int| mark));
        lemma_strip_end(middle, (n - 1) as nat, mark);
    } else {
        assert(s =~= middle);
    }
}

proof fn lemma_all_marks(n: nat, mark: char)
    ensures
        text::strip_start(Seq::new(n, |i: int| mark), mark) == Seq::<char>::empty(),
        text::strip_end(Seq::<char>::empty(), mark) == Seq::<char>::empty(),
    decreases n,
{
    let s = Seq::new(n, |i: int| mark);
    if n > 0 {
        assert(s.drop_first() =~= Seq::new((n - 1) as nat, |i: int| mark));
        lemma_all_marks((n - 1) as nat, mark);
    } else {
        assert(s =~= Seq::<char>::empty());
    }
}

/// A text is parted at the first mark: the parts and the mark between them make up the text again.
pub proof fn parts_make_up_the_text(a: Seq<char>, b: Seq<char>, mark: char)
    requires
        !a.contains(mark),
    ensures
        text::split_at_first(a + seq![mark] + b, mark) == Some((a, b)),
        text::split_at_first(a, mark) is None,
{
    let s = a + seq![mark] + b;
    assert forall|k: int| 0 <= k < a.len() implies a[k] != mark by {
        assert(a.contains(a[k]));
    }
    assert forall|k: int| 0 <= k < a.len() implies s[k] != mark by {
        assert(s[k] == a[k]);
    }
    assert(s[a.len() as int] == mark);
    text::lemma_find_is(s, mark, a.len() as int);
    text::lemma_find_is(a, mark, a.len() as int);
    assert(s.take(a.len() as int) =~= a);
    assert(s.skip(a.len() as int + 1) =~= b);
}

/// Every text without the mark, or parted by a first one, is one of the two forms above.
pub proof fn text_has_a_first_mark(s: Seq<char>, mark: char)
    requires
        s.contains(mark),
    ensures
        exists|a: Seq<char>, b: Seq<char>|
            !a.contains(mark) && #[trigger] (a + seq![mark] + b) == s,
{
    text::lemma_find(s, mark);
    let n = text::find(s, mark);
    let k = choose|k: int| 0 <= k < s.len() && s[k] == mark;
    assert(n <= k);
    let a = s.take(n);
    let b = s.skip(n + 1);
    assert(a + seq![mark] + b =~= s);
    assert(!a.contains(mark)) by {
        if a.contains(mark) {
            let j = choose|j: int| 0 <= j < a.len() && a[j] == mark;
            assert(s[j] == mark);
        }
    }
}

proof fn lemma_prefix(s: Seq<char>, pattern: Seq<char>)
    requires
        pattern.len() <= s.len(),
    ensures
        pattern.is_prefix_of(s) <==> s.subrange(0, pattern.len() as int) == pattern,
{
    if pattern.is_prefix_of(s) {
        assert(s.subrange(0, pattern.len() as int) =~= pattern);
    }
}

/// Removing a pattern takes away its first occurrence, and then those behind it.
pub proof fn first_occurrence_is_removed(a: Seq<char>, pattern: Seq<char>, b: Seq<char>)
    requires
        pattern.len() > 0,
        forall|i: int|
            0 <= i < a.len() ==> #[trigger] (a + pattern + b).subrange(i, i + pattern.len())
                != pattern,
    ensures
        text::remove_all(a + pattern + b, pattern) == a + text::remove_all(b, pattern),
    decreases a.len(),
{
    let s = a + pattern + b;
    lemma_prefix(s, pattern);
    if a.len() == 0 {
        assert(s.subrange(0, pattern.len() as int) =~= pattern);
        assert(s.skip(pattern.len() as int) =~= b);
        assert(a + text::remove_all(b, pattern) =~= text::remove_all(b, pattern));
    } else {
        let rest = a.drop_first();
        let t = rest + pattern + b;
        assert(s.drop_first() =~= t);
        assert(s.subrange(0int, 0int + pattern.len()) != pattern);
        assert forall|i: int| 0 <= i < rest.len() implies #[trigger] (rest + pattern + b).subrange(
            i,
            i + pattern.len(),
        ) != pattern by {
            assert(t.subrange(i, i + pattern.len()) =~= s.subrange(i + 1, i + 1 + pattern.len()));
        }
        first_occurrence_is_removed(rest, pattern, b);
        assert(seq![s[0]] + (rest + text::remove_all(b, pattern)) =~= a + text::remove_all(
            b,
            pattern,
        ));
    }
}

/// A text without the pattern stays as it is.
pub proof fn text_without_the_pattern_stays(s: Seq<char>, pattern: Seq<char>)
    requires
        pattern.len() > 0,
        forall|i: int|
            0 <= i <= s.len() - pattern.len() ==> #[trigger] s.subrange(i, i + pattern.len())
                != pattern,
    ensures
        text::remove_all(s, pattern) == s,
    decreases s.len(),
{
    if s.len() > 0 {
        let t = s.drop_first();
        if pattern.is_prefix_of(s) {
            lemma_prefix(s, pattern);
            assert(s.subrange(0int, 0int + pattern.len()) == pattern);
        }
        assert forall|i: int| 0 <= i <= t.len() - pattern.len() implies #[trigger] t.subrange(
            i,
            i + pattern.len(),
        ) != pattern by {
            assert(t.subrange(i, i + pattern.len()) =~= s.subrange(i + 1, i + 1 + pattern.len()));
        }
        text_without_the_pattern_stays(t, pattern);
        assert(seq![s[0]] + t =~= s);
    }
}

proof fn lemma_word_len(w: Seq<char>, rest: Seq<char>)
    requires
        forall|i: int| 0 <= i < w.len() ==> !text::white(#[trigger] w[i]),
        rest.len() > 0 ==> text::white(rest[0]),
    ensures
        text::word_len(w + rest) == w.len(),
    decreases w.len(),
{
    let s = w + rest;
    if w.len() > 0 {
        let v = w.drop_first();
        assert(s[0] == w[0]);
        assert(s.drop_first() =~= v + rest);
        assert forall|i: int| 0 <= i < v.len() implies !text::white(#[trigger] v[i]) by {
            assert(v[i] == w[i + 1]);
        }
        lemma_word_len(v, rest);
    } else {
        assert(s =~= rest);
    }
}

/// The words of a text are what stands between white space: white space in front says nothing,
/// and a word, with white space or nothing behind it, is the first of the words.
pub proof fn words_stand_between_white_space(w: Seq<char>, rest: Seq<char>, c: char)
    requires
        text::white(c),
        w.len() > 0,
        forall|i: int| 0 <= i < w.len() ==> !text::white(#[trigger] w[i]),
        rest.len() > 0 ==> text::white(rest[0]),
    ensures
        text::words(seq![c] + rest) == text::words(rest),
        text::words(w + rest) == seq![w] + text::words(rest),
        text::words(Seq::<char>::empty()) == Seq::<Seq<char>>::empty(),
{
    let s = w + rest;
    assert(s[0] == w[0]);
    assert(text::trim_start(s) == s);
    lemma_word_len(w, rest);
    assert(s.take(w.len() as int) =~= w);
    assert(s.skip(w.len() as int) =~= rest);
    white_space_in_front_says_nothing(c, rest);
}

/// White space in front of the words says nothing, whatever follows it.
pub proof fn white_space_in_front_says_nothing(c: char, rest: Seq<char>)
    requires
        text::white(c),
    ensures
        text::words(seq![c] + rest) == text::words(rest),
{
    let s = seq![c] + rest;
    assert(s.drop_first() =~= rest);
    assert(text::trim_start(s) == text::trim_start(rest));
    text::lemma_trim_start_len(rest);
    text::lemma_trim_start_len(s);
}

/// A line ends at a line feed and only there.
pub proof fn lines_end_at_line_feeds(a: Seq<char>, b: Seq<char>)
    requires
        !a.contains('\n'),
    ensures
        text::lines(a + seq!['\n'] + b) == seq![a] + text::lines(b),
        text::lines(a) == seq![a],
{
    parts_make_up_the_text(a, b, '\n');
    let s = a + seq!['\n'] + b;
    text::lemma_find(s, '\n');
    text::lemma_find(a, '\n');
    if text::find(a, '\n') < a.len() {
        assert(a.contains(a[text::find(a, '\n')]));
    }
    let n = text::find(s, '\n');
    assert(s.take(n) == a && s.skip(n + 1) == b);
}

/// A number is read digit by digit: one more digit makes it ten times as large and adds the digit,
/// as long as it fits.
pub proof fn number_is_read_digit_by_digit(s: Seq<char>, c: char)
    requires
        '0' <= c <= '9',
        s.len() > 0,
        s[0] != '+',
    ensures
        text::number(seq![c]) == Some((c as u32 - '0' as u32) as u16),
        match text::number(s) {
            Some(n) => text::number(s.push(c)) == if 10 * n + (c as u32 - '0' as u32) <= 65535 {
                Some((10 * n + (c as u32 - '0' as u32)) as u16)
            } else {
                None
            },
            None => text::number(s.push(c)) is None,
        },
        text::number(seq!['+'] + s) == text::number(s),
{
    let t = s.push(c);
    assert(t.drop_last() =~= s);
    assert(t[0] == s[0]);
    let one = seq![c];
    assert(one.drop_last() =~= Seq::<char>::empty());
    assert(text::digits_value(one.drop_last()) == 0);
    assert(one[0] != '+');
    if forall|i: int| 0 <= i < s.len() ==> text::is_digit(#[trigger] s[i]) {
        assert forall|i: int| 0 <= i < t.len() implies text::is_digit(#[trigger] t[i]) by {
            if i < s.len() {
                assert(t[i] == s[i]);
            }
        }
    } else {
        let i = choose|i: int| 0 <= i < s.len() && !text::is_digit(#[trigger] s[i]);
        assert(!text::is_digit(t[i]));
    }
    assert((seq!['+'] + s).drop_first() =~= s);
}

/// A text that holds anything but digits, after at most one plus sign, is no number, and neither
/// is one that holds none.
pub proof fn only_digits_make_a_number(s: Seq<char>, i: int)
    requires
        0 <= i < s.len(),
        !('0' <= s[i] <= '9'),
    ensures
        i > 0 || s[0] != '+' || s.len() == 1 ==> text::number(s) is None,
        text::number(Seq::<char>::empty()) is None,
{
    let none = Seq::<char>::empty();
    assert(!text::is_digit(s[i]));
    if s[0] == '+' {
        let t = s.drop_first();
        if i > 0 {
            assert(t[i - 1] == s[i]);
            assert(!text::is_digit(t[i - 1]));
        }
    }
}

/// A number is written with digits only, and with no zero in front unless it is zero; it is read
/// back as it was.
pub proof fn number_is_written_plainly(n: u16)
    ensures
        text::decimal(n as nat).len() > 0,
        forall|i: int|
            0 <= i < text::decimal(n as nat).len() ==> '0' <= #[trigger] text::decimal(n as nat)[i]
                <= '9',
        n > 0 ==> text::decimal(n as nat)[0] != '0',
        n == 0 ==> text::decimal(n as nat) == seq!['0'],
        text::number(text::decimal(n as nat)) == Some(n),
{
    text::number_of_decimal(n);
    lemma_plain(n as nat);
}

proof fn lemma_plain(n: nat)
    ensures
        text::decimal(n).len() > 0,
        forall|i: int| 0 <= i < text::decimal(n).len() ==> '0' <= #[trigger] text::decimal(n)[i] <= '9',
        n > 0 ==> text::decimal(n)[0] != '0',
    decreases n,
{
    if n < 10 {
        text::lemma_digit_char(n);
        assert(text::digit_char(n) == '0' ==> n == 0);
    } else {
        lemma_plain(n / 10);
        text::lemma_digit_char(n % 10);
    }
}

} // verus!
