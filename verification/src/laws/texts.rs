//! What trimming, cutting, ordering, collecting and counting come to.
use vstd::prelude::*;

use crate::decimal::{all_digits, decimal, digits, is_digit, parsed, value};
use crate::names::{collected, listed};
use crate::text::{
    is_white_space, precedes, trimmed, trimmed_end, trimmed_start, without_leading,
};

verus! {

/// White space throughout.
pub open spec fn is_blank(text: Seq<char>) -> bool {
    forall|i: int| 0 <= i < text.len() ==> is_white_space(#[trigger] text[i])
}

proof fn lemma_start(s: Seq<char>) -> (before: Seq<char>)
    ensures
        s == before + trimmed_start(s),
        is_blank(before),
        trimmed_start(s).len() > 0 ==> !is_white_space(trimmed_start(s).first()),
    decreases s.len(),
{
    if s.len() > 0 && is_white_space(s.first()) {
        let rest = lemma_start(s.drop_first());
        let before = seq![s.first()] + rest;
        assert(s.drop_first() == rest + trimmed_start(s));
        assert(s =~= seq![s.first()] + s.drop_first());
        assert(s =~= before + trimmed_start(s));
        before
    } else {
        assert(s =~= Seq::<char>::empty() + trimmed_start(s));
        Seq::empty()
    }
}

proof fn lemma_end(s: Seq<char>) -> (after: Seq<char>)
    ensures
        s == trimmed_end(s) + after,
        is_blank(after),
        trimmed_end(s).len() > 0 ==> !is_white_space(trimmed_end(s).last()),
        s.len() > 0 && !is_white_space(s.first()) ==> trimmed_end(s).len() > 0
            && trimmed_end(s).first() == s.first(),
    decreases s.len(),
{
    if s.len() > 0 && is_white_space(s.last()) {
        let rest = lemma_end(s.drop_last());
        let after = rest.push(s.last());
        assert(s.drop_last() == trimmed_end(s) + rest);
        assert(s =~= s.drop_last().push(s.last()));
        assert(s =~= trimmed_end(s) + after);
        after
    } else {
        assert(s =~= trimmed_end(s) + Seq::<char>::empty());
        Seq::empty()
    }
}

/// Trimming takes white space off the two ends and nothing else, and leaves none there.
pub proof fn law_trimming_takes_off_blanks_alone(s: Seq<char>)
    ensures
        exists|before: Seq<char>, after: Seq<char>|
            s == #[trigger] (before + trimmed(s) + after) && is_blank(before) && is_blank(after),
        trimmed(s).len() > 0 ==> !is_white_space(trimmed(s).first()) && !is_white_space(
            trimmed(s).last(),
        ),
{
    let before = lemma_start(s);
    let after = lemma_end(trimmed_start(s));
    assert(s =~= before + trimmed(s) + after);
}

/// A text between white space, itself without any at its ends, is what trimming leaves.
pub proof fn law_trimming_finds_what_stands_between(
    before: Seq<char>,
    text: Seq<char>,
    after: Seq<char>,
)
    requires
        is_blank(before),
        is_blank(after),
        text.len() > 0 ==> !is_white_space(text.first()) && !is_white_space(text.last()),
    ensures
        trimmed(before + text + after) == text,
    decreases before.len() + after.len(),
{
    let s = before + text + after;
    if before.len() > 0 {
        assert(is_white_space(before[0]));
        assert(is_blank(before.drop_first()));
        assert(s.drop_first() =~= before.drop_first() + text + after);
        law_trimming_finds_what_stands_between(before.drop_first(), text, after);
    } else if text.len() > 0 {
        assert(s =~= text + after);
        assert(trimmed_start(s) == s);
        lemma_end_of_blank(text, after);
    } else {
        assert(s =~= after);
        if after.len() > 0 {
            assert(is_white_space(after[0]));
            assert(is_blank(after.drop_first()));
            assert(s.drop_first() =~= before + text + after.drop_first());
            law_trimming_finds_what_stands_between(before, text, after.drop_first());
        } else {
            assert(trimmed(s) =~= text);
        }
    }
}

proof fn lemma_end_of_blank(text: Seq<char>, after: Seq<char>)
    requires
        is_blank(after),
        text.len() > 0,
        !is_white_space(text.last()),
    ensures
        trimmed_end(text + after) == text,
    decreases after.len(),
{
    if after.len() > 0 {
        assert(is_white_space(after[after.len() - 1]));
        assert((text + after).drop_last() =~= text + after.drop_last());
        assert(is_blank(after.drop_last()));
        lemma_end_of_blank(text, after.drop_last());
    } else {
        assert(text + after =~= text);
    }
}

/// Dropping the run of `c` at the start leaves a text that does not start with `c`, and takes off
/// nothing else.
pub proof fn law_dropped_start_is_gone(s: Seq<char>, c: char)
    ensures
        without_leading(s, c).len() > 0 ==> without_leading(s, c).first() != c,
        without_leading(s, c).is_suffix_of(s),
        forall|i: int|
            0 <= i < s.len() - without_leading(s, c).len() ==> #[trigger] s[i] == c,
    decreases s.len(),
{
    if s.len() > 0 && s.first() == c {
        let rest = s.drop_first();
        law_dropped_start_is_gone(rest, c);
        let kept = without_leading(s, c);
        assert(kept =~= s.subrange(s.len() - kept.len(), s.len() as int)) by {
            assert(kept =~= rest.subrange(rest.len() - kept.len(), rest.len() as int));
        }
        assert forall|i: int| 0 <= i < s.len() - kept.len() implies #[trigger] s[i] == c by {
            if i > 0 {
                assert(rest[i - 1] == c);
            }
        }
    } else {
        assert(s =~= s.subrange(0, s.len() as int));
    }
}

/// The text that stands first is the one with the lesser character where the two first differ, or
/// the one that ends there.
pub proof fn law_texts_stand_by_their_first_difference(a: Seq<char>, b: Seq<char>, k: int)
    requires
        0 <= k <= a.len(),
        k <= b.len(),
        a.take(k) == b.take(k),
        k < a.len() && k < b.len() ==> a[k] != b[k],
    ensures
        precedes(a, b) <==> k < b.len() && (k == a.len() || a[k] < b[k]),
    decreases k,
{
    if k > 0 {
        assert(a.take(k)[0] == a[0]);
        assert(b.take(k)[0] == b[0]);
        assert(a.drop_first().take(k - 1) =~= a.take(k).drop_first());
        assert(b.drop_first().take(k - 1) =~= b.take(k).drop_first());
        assert(k < a.len() ==> a.drop_first()[k - 1] == a[k]);
        assert(k < b.len() ==> b.drop_first()[k - 1] == b[k]);
        law_texts_stand_by_their_first_difference(a.drop_first(), b.drop_first(), k - 1);
    }
}

/// A list holds the names that stand in it.
pub proof fn law_lists_hold_their_names(names: Seq<String>, name: Seq<char>)
    ensures
        listed(names).contains(name) <==> exists|i: int|
            0 <= i < names.len() && (#[trigger] names[i])@ == name,
{
    let texts = names.map_values(|name: String| name@);
    if texts.contains(name) {
        assert(names[texts.index_of(name)]@ == name);
    }
    if exists|i: int| 0 <= i < names.len() && (#[trigger] names[i])@ == name {
        let i = choose|i: int| 0 <= i < names.len() && (#[trigger] names[i])@ == name;
        assert(texts[i] == name);
    }
}

/// Of pairs that are collected the last of each name stays.
pub proof fn law_the_last_pair_stays<V>(pairs: Seq<(String, V)>, i: int)
    requires
        0 <= i < pairs.len(),
        forall|j: int| i < j < pairs.len() ==> (#[trigger] pairs[j]).0@ != pairs[i].0@,
    ensures
        collected(pairs).contains_key(pairs[i].0@),
        collected(pairs)[pairs[i].0@] == pairs[i].1,
    decreases pairs.len(),
{
    if i < pairs.len() - 1 {
        assert(pairs[pairs.len() - 1].0@ != pairs[i].0@);
        law_the_last_pair_stays(pairs.drop_last(), i);
    }
}

/// No name but those of the pairs is collected.
pub proof fn law_only_given_names_are_collected<V>(pairs: Seq<(String, V)>, name: Seq<char>)
    requires
        forall|i: int| 0 <= i < pairs.len() ==> (#[trigger] pairs[i]).0@ != name,
    ensures
        !collected(pairs).contains_key(name),
    decreases pairs.len(),
{
    if pairs.len() > 0 {
        let rest = pairs.drop_last();
        assert forall|i: int| 0 <= i < rest.len() implies (#[trigger] rest[i]).0@ != name by {
            assert(pairs[i].0@ != name);
        }
        law_only_given_names_are_collected(rest, name);
        assert(pairs[pairs.len() - 1].0@ != name);
    }
}

/// A digit more makes ten times the number, and the digit.
pub proof fn law_digits_count_in_tens(s: Seq<char>, c: char)
    ensures
        value(Seq::<char>::empty()) == 0,
        value(s.push(c)) == 10 * value(s) + (c as int - '0' as int),
{
    assert(s.push(c).drop_last() =~= s);
}

proof fn lemma_digits(n: nat)
    ensures
        digits(n).len() > 0,
        forall|i: int| 0 <= i < digits(n).len() ==> '0' <= #[trigger] digits(n)[i] <= '9',
        value(digits(n)) == n,
        n > 0 ==> digits(n)[0] != '0',
        n == 0 ==> digits(n).len() == 1,
    decreases n,
{
    if n < 10 {
        law_digits_count_in_tens(Seq::<char>::empty(), digits(n)[0]);
        assert(digits(n) =~= Seq::<char>::empty().push(digits(n)[0]));
    } else {
        lemma_digits(n / 10);
        law_digits_count_in_tens(digits(n / 10), digits(n).last());
        assert(digits(n) =~= digits(n / 10).push(digits(n).last()));
    }
}

/// A number's text without its sign.
pub open spec fn unsigned(s: Seq<char>) -> Seq<char> {
    if s.len() > 0 && (s[0] == '-' || s[0] == '+') {
        s.skip(1)
    } else {
        s
    }
}

/// A number is written as its digits, without leading zeros, behind a minus sign where it is
/// negative.
pub proof fn law_numbers_are_written_by_their_digits(i: i64)
    ensures
        i < 0 <==> decimal(i as int)[0] == '-',
        decimal(i as int)[0] != '+',
        unsigned(decimal(i as int)).len() > 0,
        forall|k: int|
            0 <= k < unsigned(decimal(i as int)).len() ==> '0' <= #[trigger] unsigned(
                decimal(i as int),
            )[k] <= '9',
        i < 0 ==> value(unsigned(decimal(i as int))) == -i,
        i >= 0 ==> value(unsigned(decimal(i as int))) == i,
        unsigned(decimal(i as int))[0] == '0' ==> unsigned(decimal(i as int)).len() == 1,
{
    if i < 0 {
        lemma_digits((-i) as nat);
        assert(decimal(i as int).skip(1) =~= digits((-i) as nat));
    } else {
        lemma_digits(i as nat);
        assert('0' <= digits(i as nat)[0] <= '9');
    }
}

/// A text reads as a number exactly where it is digits, perhaps behind one sign, for a number that
/// fits, and then as that number.
pub proof fn law_numbers_are_read_by_their_digits(s: Seq<char>)
    ensures
        parsed(s) is Some <==> unsigned(s).len() > 0 && (forall|k: int|
            0 <= k < unsigned(s).len() ==> '0' <= #[trigger] unsigned(s)[k] <= '9') && (if s[0]
            == '-' {
            -value(unsigned(s)) >= i64::MIN && -value(unsigned(s)) <= i64::MAX
        } else {
            value(unsigned(s)) >= i64::MIN && value(unsigned(s)) <= i64::MAX
        }),
        parsed(s) is Some && s[0] == '-' ==> parsed(s)->0 == -value(unsigned(s)),
        parsed(s) is Some && s[0] != '-' ==> parsed(s)->0 == value(unsigned(s)),
{
    let body = unsigned(s);
    if forall|k: int| 0 <= k < body.len() ==> '0' <= #[trigger] body[k] <= '9' {
        assert forall|k: int| 0 <= k < body.len() implies is_digit(#[trigger] body[k]) by {}
        assert(all_digits(body));
    }
    if all_digits(body) {
        assert forall|k: int| 0 <= k < body.len() implies '0' <= #[trigger] body[k] <= '9' by {
            assert(is_digit(body[k]));
        }
    }
}

} // verus!
