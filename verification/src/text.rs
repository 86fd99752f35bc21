//! Strings as the rest of the crate needs them: trimming, comparing, joining and
//! writing numbers.

use vstd::prelude::*;

verus! {

/// The characters that have Unicode's `White_Space` property.
pub open spec fn is_white_space(c: char) -> bool {
    ||| '\u{9}' <= c <= '\u{d}'
    ||| c == '\u{20}'
    ||| c == '\u{85}'
    ||| c == '\u{a0}'
    ||| c == '\u{1680}'
    ||| '\u{2000}' <= c <= '\u{200a}'
    ||| c == '\u{2028}'
    ||| c == '\u{2029}'
    ||| c == '\u{202f}'
    ||| c == '\u{205f}'
    ||| c == '\u{3000}'
}

/// `s` without the white space at its start.
pub open spec fn trimmed_start(s: Seq<char>) -> Seq<char>
    decreases s.len(),
{
    if s.len() > 0 && is_white_space(s.first()) {
        trimmed_start(s.drop_first())
    } else {
        s
    }
}

/// `s` without the white space at its end.
pub open spec fn trimmed_end(s: Seq<char>) -> Seq<char>
    decreases s.len(),
{
    if s.len() > 0 && is_white_space(s.last()) {
        trimmed_end(s.drop_last())
    } else {
        s
    }
}

/// `s` without the white space at either end.
pub open spec fn trimmed(s: Seq<char>) -> Seq<char> {
    trimmed_end(trimmed_start(s))
}

/// No white space at either end.
pub open spec fn is_trimmed(s: Seq<char>) -> bool {
    s.len() > 0 ==> !is_white_space(s.first()) && !is_white_space(s.last())
}

/// Whether `part` occurs in `s` as a run of consecutive characters.
pub open spec fn occurs_in(part: Seq<char>, s: Seq<char>) -> bool {
    exists|i: int|
        0 <= i <= s.len() - part.len() && #[trigger] s.subrange(i, i + part.len()) == part
}

/// The parts in order, with one space between neighbours.
pub open spec fn joined(parts: Seq<Seq<char>>) -> Seq<char>
    decreases parts.len(),
{
    if parts.len() == 0 {
        Seq::empty()
    } else {
        after_space(joined(parts.drop_last()), parts.len() > 1, parts.last())
    }
}

/// `word` behind `text`, set off by a space where something stands before it.
pub open spec fn after_space(text: Seq<char>, spaced: bool, word: Seq<char>) -> Seq<char> {
    if spaced {
        text + seq![' '] + word
    } else {
        text + word
    }
}

/// The digit that stands for a number below ten.
pub open spec fn digit(d: nat) -> char {
    ('0' as int + d) as char
}

/// `n` in decimal, without leading zeros.
pub open spec fn decimal(n: nat) -> Seq<char>
    decreases n,
{
    if n < 10 {
        seq![digit(n)]
    } else {
        decimal(n / 10).push(digit(n % 10))
    }
}

/// `str::trim`: the slice without leading and trailing characters that have the
/// `White_Space` property.
pub assume_specification[ str::trim ](s: &str) -> (r: &str)
    ensures
        r@ == trimmed(s@),
;

/// `str::starts_with` with a string as the pattern: whether the characters of
/// `prefix` are the first ones of `s`.
#[verifier::external_body]
pub(crate) fn starts_with(s: &str, prefix: &str) -> (r: bool)
    ensures
        r == prefix@.is_prefix_of(s@),
{
    s.starts_with(prefix)
}

/// `str::contains` with a string as the pattern: whether some slice of `s` is
/// `part`.
#[verifier::external_body]
pub(crate) fn contains(s: &str, part: &str) -> (r: bool)
    ensures
        r == occurs_in(part@, s@),
{
    s.contains(part)
}

/// `==` on string slices: whether both hold the same characters.
#[verifier::external_body]
pub(crate) fn same_text(a: &str, b: &str) -> (r: bool)
    ensures
        r == (a@ == b@),
{
    a == b
}

/// Puts `word` behind what `text` holds, after a space if `spaced`.
pub(crate) fn append_word(text: &mut String, spaced: bool, word: &str)
    ensures
        final(text)@ == after_space(old(text)@, spaced, word@),
{
    proof {
        reveal_strlit(" ");
    }
    if spaced {
        text.append(" ");
        assert(text@ == old(text)@ + seq![' ']);
    }
    text.append(word);
}

/// What the strings of a list hold.
pub open spec fn texts(parts: Seq<String>) -> Seq<Seq<char>> {
    parts.map_values(|s: String| s@)
}

/// The strings of `parts`, with one space between neighbours.
pub fn join_words(parts: &Vec<String>) -> (r: String)
    ensures
        r@ == joined(texts(parts@)),
{
    let mut out = String::new();
    let mut i: usize = 0;
    while i < parts.len()
        invariant
            i <= parts.len(),
            out@ == joined(texts(parts@).take(i as int)),
        decreases parts.len() - i,
    {
        append_word(&mut out, i > 0, parts[i].as_str());
        assert(texts(parts@).take(i + 1).drop_last() =~= texts(parts@).take(i as int));
        i += 1;
    }
    assert(texts(parts@).take(i as int) =~= texts(parts@));
    out
}

fn digit_text(d: u64) -> (r: &'static str)
    requires
        d < 10,
    ensures
        r@ == seq![digit(d as nat)],
{
    proof {
        reveal_strlit("0");
        reveal_strlit("1");
        reveal_strlit("2");
        reveal_strlit("3");
        reveal_strlit("4");
        reveal_strlit("5");
        reveal_strlit("6");
        reveal_strlit("7");
        reveal_strlit("8");
        reveal_strlit("9");
    }
    let r = match d {
        0 => "0",
        1 => "1",
        2 => "2",
        3 => "3",
        4 => "4",
        5 => "5",
        6 => "6",
        7 => "7",
        8 => "8",
        _ => "9",
    };
    assert(r@ =~= seq![digit(d as nat)]);
    r
}

/// A number in decimal.
pub fn decimal_text(n: u64) -> (r: String)
    ensures
        r@ == decimal(n as nat),
    decreases n,
{
    if n < 10 {
        digit_text(n).to_string()
    } else {
        let mut r = decimal_text(n / 10);
        r.append(digit_text(n % 10));
        assert(r@ =~= decimal(n as nat));
        r
    }
}

/// What is left after trimming has no white space at its ends.
pub proof fn lemma_trimmed_is_trimmed(s: Seq<char>)
    ensures
        is_trimmed(trimmed(s)),
    decreases s.len(),
{
    if s.len() > 0 && is_white_space(s.first()) {
        lemma_trimmed_is_trimmed(s.drop_first());
    } else {
        lemma_trimmed_end_is_trimmed(s);
    }
}

proof fn lemma_trimmed_end_is_trimmed(s: Seq<char>)
    requires
        s.len() > 0 ==> !is_white_space(s.first()),
    ensures
        is_trimmed(trimmed_end(s)),
    decreases s.len(),
{
    if s.len() > 0 && is_white_space(s.last()) {
        assert(s.len() > 1);
        assert(s.drop_last().first() == s.first());
        lemma_trimmed_end_is_trimmed(s.drop_last());
    }
}

/// Trimming leaves alone what has no white space at its ends; so trimming twice is
/// trimming once.
pub proof fn lemma_trimmed_keeps_trimmed(s: Seq<char>)
    requires
        is_trimmed(s),
    ensures
        trimmed(s) == s,
{
}

/// The last part of a joined list stands behind the joined rest.
pub proof fn lemma_joined_push(parts: Seq<Seq<char>>, word: Seq<char>)
    ensures
        joined(parts.push(word)) == after_space(joined(parts), parts.len() > 0, word),
{
    assert(parts.push(word).drop_last() =~= parts);
}

/// Parts that are trimmed and not empty join into a text that is trimmed and, if
/// there is any part, not empty.
pub proof fn lemma_joined_is_trimmed(parts: Seq<Seq<char>>)
    requires
        forall|i: int| 0 <= i < parts.len() ==> #[trigger] parts[i].len() > 0 && is_trimmed(parts[i]),
    ensures
        is_trimmed(joined(parts)),
        parts.len() > 0 ==> joined(parts).len() > 0,
    decreases parts.len(),
{
    if parts.len() > 0 {
        let front = parts.drop_last();
        assert forall|i: int| 0 <= i < front.len() implies #[trigger] front[i].len() > 0
            && is_trimmed(front[i]) by {
            assert(front[i] == parts[i]);
        }
        lemma_joined_is_trimmed(front);
        let word = parts[parts.len() - 1];
        assert(word.len() > 0 && is_trimmed(word));
        let whole = joined(parts);
        assert(whole.last() == word.last());
        if parts.len() > 1 {
            assert(whole.first() == joined(front).first());
        } else {
            assert(whole =~= word);
        }
    }
}

/// Nothing but white space.
pub open spec fn is_blank(s: Seq<char>) -> bool {
    forall|i: int| 0 <= i < s.len() ==> is_white_space(#[trigger] s[i])
}

proof fn lemma_trimmed_start_drops(lead: Seq<char>, rest: Seq<char>)
    requires
        is_blank(lead),
    ensures
        trimmed_start(lead + rest) == trimmed_start(rest),
    decreases lead.len(),
{
    if lead.len() == 0 {
        assert(lead + rest =~= rest);
    } else {
        assert(is_white_space(lead[0]));
        assert((lead + rest).drop_first() =~= lead.drop_first() + rest);
        assert forall|i: int| 0 <= i < lead.drop_first().len() implies is_white_space(
            #[trigger] lead.drop_first()[i],
        ) by {
            assert(is_white_space(lead[i + 1]));
        }
        lemma_trimmed_start_drops(lead.drop_first(), rest);
    }
}

proof fn lemma_trimmed_end_drops(rest: Seq<char>, tail: Seq<char>)
    requires
        is_blank(tail),
    ensures
        trimmed_end(rest + tail) == trimmed_end(rest),
    decreases tail.len(),
{
    if tail.len() == 0 {
        assert(rest + tail =~= rest);
    } else {
        assert(is_white_space(tail[tail.len() - 1]));
        assert((rest + tail).drop_last() =~= rest + tail.drop_last());
        assert forall|i: int| 0 <= i < tail.drop_last().len() implies is_white_space(
            #[trigger] tail.drop_last()[i],
        ) by {
            assert(is_white_space(tail[i]));
        }
        lemma_trimmed_end_drops(rest, tail.drop_last());
    }
}

/// Trimming takes the white space off both ends of a text, whatever stands between, and
/// leaves that alone.
pub proof fn law_trimming_drops_padding(lead: Seq<char>, words: Seq<char>, tail: Seq<char>)
    requires
        is_blank(lead),
        is_blank(tail),
        words.len() > 0 ==> !is_white_space(words[0]) && !is_white_space(words[words.len() - 1]),
    ensures
        trimmed(lead + words + tail) == words,
{
    assert(lead + words + tail =~= lead + (words + tail));
    lemma_trimmed_start_drops(lead, words + tail);
    if words.len() > 0 {
        assert((words + tail)[0] == words[0]);
        lemma_trimmed_end_drops(words, tail);
    } else {
        assert(words + tail =~= tail + Seq::<char>::empty());
        lemma_trimmed_start_drops(tail, Seq::empty());
        assert(trimmed_start(words + tail) =~= words);
    }
}

/// Every text is what trimming leaves of it, with white space around that.
pub proof fn law_trimming_splits(s: Seq<char>) -> (around: (Seq<char>, Seq<char>))
    ensures
        s == around.0 + trimmed(s) + around.1,
        is_blank(around.0),
        is_blank(around.1),
    decreases s.len(),
{
    if s.len() > 0 && is_white_space(s.first()) {
        let (lead, tail) = law_trimming_splits(s.drop_first());
        let longer = seq![s.first()] + lead;
        assert(s =~= seq![s.first()] + s.drop_first());
        assert(s =~= longer + trimmed(s) + tail);
        assert forall|i: int| 0 <= i < longer.len() implies is_white_space(
            #[trigger] longer[i],
        ) by {
            if i > 0 {
                assert(longer[i] == lead[i - 1]);
            }
        }
        (longer, tail)
    } else {
        let tail = lemma_trimmed_end_splits(s);
        assert(s =~= Seq::<char>::empty() + trimmed(s) + tail);
        (Seq::empty(), tail)
    }
}

proof fn lemma_trimmed_end_splits(s: Seq<char>) -> (tail: Seq<char>)
    ensures
        s == trimmed_end(s) + tail,
        is_blank(tail),
    decreases s.len(),
{
    if s.len() > 0 && is_white_space(s.last()) {
        let shorter = lemma_trimmed_end_splits(s.drop_last());
        let tail = shorter.push(s.last());
        assert(s =~= s.drop_last().push(s.last()));
        assert(s =~= trimmed_end(s) + tail);
        assert forall|i: int| 0 <= i < tail.len() implies is_white_space(#[trigger] tail[i]) by {
            if i < shorter.len() {
                assert(tail[i] == shorter[i]);
            }
        }
        tail
    } else {
        assert(s =~= s + Seq::<char>::empty());
        Seq::empty()
    }
}

/// A text is left with words after trimming exactly where it has a character that is not
/// white space.
pub proof fn law_words_survive_trimming(s: Seq<char>)
    ensures
        trimmed(s).len() > 0 <==> exists|i: int| 0 <= i < s.len() && !is_white_space(#[trigger] s[i]),
{
    let (lead, tail) = law_trimming_splits(s);
    let words = trimmed(s);
    lemma_trimmed_is_trimmed(s);
    if words.len() > 0 {
        assert(s[lead.len() as int] == words[0]);
    } else {
        assert forall|i: int| 0 <= i < s.len() implies is_white_space(#[trigger] s[i]) by {
            if i < lead.len() {
                assert(s[i] == lead[i]);
            } else {
                assert(s[i] == tail[i - lead.len()]);
            }
        }
    }
}

/// A list of one part joins into that part, and two lists join into the one, a space and
/// the other: every part is there, in order, once.
pub proof fn law_joining(word: Seq<char>, a: Seq<Seq<char>>, b: Seq<Seq<char>>)
    ensures
        joined(Seq::empty()) == Seq::<char>::empty(),
        joined(seq![word]) == word,
        a.len() > 0 && b.len() > 0 ==> joined(a + b) == joined(a) + seq![' '] + joined(b),
    decreases b.len(),
{
    lemma_joined_push(Seq::empty(), word);
    assert(seq![word] =~= Seq::empty().push(word));
    assert(joined(seq![word]) =~= word);
    if a.len() > 0 && b.len() > 0 {
        assert((a + b).drop_last() =~= a + b.drop_last());
        if b.len() == 1 {
            assert(a + b.drop_last() =~= a);
            lemma_joined_push(Seq::empty(), b.last());
            assert(b =~= Seq::empty().push(b.last()));
            assert(joined(b) =~= b.last());
        } else {
            law_joining(word, a, b.drop_last());
        }
        assert(joined(a + b) =~= joined(a) + seq![' '] + joined(b));
    }
}

/// A number below ten is written as its digit, and one more digit behind a number is
/// ten times that number and the digit.
pub proof fn law_decimal_notation(n: nat, d: nat)
    requires
        d < 10,
    ensures
        decimal(d) == seq![('0' as int + d) as char],
        n > 0 ==> decimal(10 * n + d) == decimal(n).push(('0' as int + d) as char),
{
    assert((10 * n + d) / 10 == n && (10 * n + d) % 10 == d);
}

} // verus!
