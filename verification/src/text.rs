//! Plain text: comparing, joining, trimming and splitting.
use vstd::prelude::*;
use vstd::string::{StrSliceExecFns, StringExecFns};
use vstd::utf8::{encode_utf8, encode_utf8_decode_utf8};

verus! {

/// `String::push` appends one character at the end of the string.
pub assume_specification[ String::push ](s: &mut String, c: char)
    ensures
        final(s)@ == old(s)@.push(c),
;

/// An optional text as mathematics.
pub open spec fn text_of(value: Option<String>) -> Option<Seq<char>> {
    match value {
        Some(text) => Some(text@),
        None => None,
    }
}

/// The characters of Unicode's `White_Space` property.
pub open spec fn is_white_space(c: char) -> bool {
    let n = c as u32;
    ||| 0x9 <= n <= 0xd
    ||| n == 0x20
    ||| n == 0x85
    ||| n == 0xa0
    ||| n == 0x1680
    ||| 0x2000 <= n <= 0x200a
    ||| n == 0x2028
    ||| n == 0x2029
    ||| n == 0x202f
    ||| n == 0x205f
    ||| n == 0x3000
}

pub open spec fn trimmed_start(s: Seq<char>) -> Seq<char>
    decreases s.len(),
{
    if s.len() > 0 && is_white_space(s.first()) {
        trimmed_start(s.drop_first())
    } else {
        s
    }
}

pub open spec fn trimmed_end(s: Seq<char>) -> Seq<char>
    decreases s.len(),
{
    if s.len() > 0 && is_white_space(s.last()) {
        trimmed_end(s.drop_last())
    } else {
        s
    }
}

/// The text without the white space at either end.
pub open spec fn trimmed(s: Seq<char>) -> Seq<char> {
    trimmed_end(trimmed_start(s))
}

fn white_space(c: char) -> (r: bool)
    ensures
        r == is_white_space(c),
{
    let n = c as u32;
    (0x9 <= n && n <= 0xd) || n == 0x20 || n == 0x85 || n == 0xa0 || n == 0x1680 || (0x2000 <= n
        && n <= 0x200a) || n == 0x2028 || n == 0x2029 || n == 0x202f || n == 0x205f || n == 0x3000
}

/// Drops the white space at either end of a text.
pub fn trim<'a>(s: &'a str) -> (r: &'a str)
    ensures
        r@ == trimmed(s@),
{
    let chars = chars_of(s);
    let n = chars.len();
    let mut start: usize = 0;
    assert(s@.skip(0) =~= s@);
    while start < n && white_space(chars[start])
        invariant
            start <= n,
            n == chars@.len(),
            chars@ == s@,
            trimmed_start(s@.skip(start as int)) == trimmed_start(s@),
        decreases n - start,
    {
        assert(s@.skip(start as int).drop_first() =~= s@.skip(start + 1));
        start = start + 1;
    }
    let ghost rest = s@.skip(start as int);
    assert(rest == trimmed_start(s@));
    let mut end: usize = n;
    assert(rest.take(end - start) =~= rest);
    while end > start && white_space(chars[end - 1])
        invariant
            start <= end <= n,
            n == chars@.len(),
            chars@ == s@,
            rest == s@.skip(start as int),
            trimmed_end(rest.take(end - start)) == trimmed_end(rest),
        decreases end,
    {
        assert(rest.take(end - start).drop_last() =~= rest.take(end - start - 1));
        end = end - 1;
    }
    let r = s.substring_char(start, end);
    assert(r@ =~= rest.take(end - start));
    r
}

proof fn lemma_trimmed_start(s: Seq<char>)
    ensures
        trimmed_start(s).len() == 0 <==> forall|i: int|
            0 <= i < s.len() ==> is_white_space(#[trigger] s[i]),
        trimmed_start(s).len() > 0 ==> !is_white_space(trimmed_start(s).first()),
    decreases s.len(),
{
    if s.len() > 0 && is_white_space(s.first()) {
        let rest = s.drop_first();
        lemma_trimmed_start(rest);
        if trimmed_start(s).len() == 0 {
            assert forall|i: int| 0 <= i < s.len() implies is_white_space(#[trigger] s[i]) by {
                if i > 0 {
                    assert(rest[i - 1] == s[i]);
                }
            }
        } else {
            let i = choose|i: int| 0 <= i < rest.len() && !is_white_space(#[trigger] rest[i]);
            assert(!is_white_space(s[i + 1]));
        }
    } else if s.len() > 0 {
        assert(!is_white_space(s[0]));
    }
}

proof fn lemma_trimmed_end(s: Seq<char>)
    ensures
        s.len() > 0 && !is_white_space(s.first()) ==> trimmed_end(s).len() > 0,
        trimmed_end(s).len() > 0 ==> s.len() > 0,
    decreases s.len(),
{
    if s.len() > 0 && is_white_space(s.last()) {
        lemma_trimmed_end(s.drop_last());
    }
}

/// Trimming leaves nothing of a text exactly where it is white space throughout.
pub proof fn law_trimming_leaves_nothing_of_blanks(s: Seq<char>)
    ensures
        trimmed(s).len() == 0 <==> forall|i: int|
            0 <= i < s.len() ==> is_white_space(#[trigger] s[i]),
{
    lemma_trimmed_start(s);
    lemma_trimmed_end(trimmed_start(s));
}

/// Two texts with the same UTF-8 bytes hold the same characters.
pub proof fn lemma_bytes_determine_text(a: Seq<char>, b: Seq<char>)
    ensures
        encode_utf8(a) == encode_utf8(b) <==> a == b,
{
    encode_utf8_decode_utf8(a);
    encode_utf8_decode_utf8(b);
}

/// Whether two texts are the same.
pub fn same(a: &str, b: &str) -> (r: bool)
    ensures
        r == (a@ == b@),
{
    let x = a.as_bytes();
    let y = b.as_bytes();
    proof {
        lemma_bytes_determine_text(a@, b@);
    }
    if x.len() != y.len() {
        return false;
    }
    for i in 0..x.len()
        invariant
            x@.len() == y@.len(),
            x@ == encode_utf8(a@),
            y@ == encode_utf8(b@),
            encode_utf8(a@) == encode_utf8(b@) <==> a@ == b@,
            forall|j: int| 0 <= j < i ==> x@[j] == y@[j],
    {
        if x[i] != y[i] {
            return false;
        }
    }
    assert(x@ =~= y@);
    true
}

/// One text after the other.
pub fn joined(a: &str, b: &str) -> (r: String)
    ensures
        r@ == a@ + b@,
{
    a.to_owned().concat(b)
}

/// The characters of a text.
pub fn chars_of(s: &str) -> (r: Vec<char>)
    ensures
        r@ == s@,
{
    let mut out: Vec<char> = Vec::new();
    for c in it: s.chars()
        invariant
            it.seq() == s@,
            out@ == s@.take(it.index() as int),
    {
        out.push(c);
    }
    out
}

/// The text that the characters spell.
pub fn string_of(chars: &[char]) -> (r: String)
    ensures
        r@ == chars@,
{
    let mut out = String::new();
    for i in 0..chars.len()
        invariant
            out@ == chars@.take(i as int),
    {
        out.push(chars[i]);
    }
    out
}

/// What stands before and after the first `c`, where there is one.
pub open spec fn parted_at_first(s: Seq<char>, c: char) -> Option<(Seq<char>, Seq<char>)>
    decreases s.len(),
{
    if s.len() == 0 {
        None
    } else if s.first() == c {
        Some((Seq::empty(), s.drop_first()))
    } else {
        match parted_at_first(s.drop_first(), c) {
            Some((before, after)) => Some((seq![s.first()] + before, after)),
            None => None,
        }
    }
}

/// What stands before and after the last `c`, where there is one.
pub open spec fn parted_at_last(s: Seq<char>, c: char) -> Option<(Seq<char>, Seq<char>)>
    decreases s.len(),
{
    if s.len() == 0 {
        None
    } else if s.last() == c {
        Some((s.drop_last(), Seq::empty()))
    } else {
        match parted_at_last(s.drop_last(), c) {
            Some((before, after)) => Some((before, after.push(s.last()))),
            None => None,
        }
    }
}

/// A text parts at its first `c` into `before` and `after` exactly when it is `before`, `c`,
/// `after` and `before` holds no `c`.
pub proof fn lemma_parted_at_first(s: Seq<char>, c: char)
    ensures
        parted_at_first(s, c) is None <==> !s.contains(c),
        forall|before: Seq<char>, after: Seq<char>|
            parted_at_first(s, c) == Some((before, after)) <==> (s == before + seq![c] + after
                && !before.contains(c)),
    decreases s.len(),
{
    if s.len() > 0 {
        let rest = s.drop_first();
        lemma_parted_at_first(rest, c);
        assert(s =~= seq![s.first()] + rest);
        assert(s.contains(c) <==> s.first() == c || rest.contains(c)) by {
            if s.contains(c) && s.first() != c {
                let i = choose|i: int| 0 <= i < s.len() && s[i] == c;
                assert(rest[i - 1] == c);
            }
            if rest.contains(c) {
                let i = choose|i: int| 0 <= i < rest.len() && rest[i] == c;
                assert(s[i + 1] == c);
            }
        }
        assert forall|before: Seq<char>, after: Seq<char>|
            parted_at_first(s, c) == Some((before, after)) <==> (s == before + seq![c] + after
                && !before.contains(c)) by {
            if s == before + seq![c] + after && !before.contains(c) {
                if before.len() == 0 {
                    assert(before =~= Seq::<char>::empty());
                    assert(s.drop_first() =~= after);
                    assert(s.first() == c);
                } else {
                    assert(before[0] == s.first());
                    assert(before.contains(before[0]));
                    let shorter = before.drop_first();
                    assert(!shorter.contains(c)) by {
                        if shorter.contains(c) {
                            let i = choose|i: int| 0 <= i < shorter.len() && shorter[i] == c;
                            assert(before[i + 1] == c);
                        }
                    }
                    assert(rest =~= shorter + seq![c] + after);
                    assert(before =~= seq![s.first()] + shorter);
                }
            }
            if parted_at_first(s, c) == Some((before, after)) {
                if s.first() == c {
                    assert(s =~= before + seq![c] + after);
                } else {
                    let shorter = (parted_at_first(rest, c)->0).0;
                    assert(rest == shorter + seq![c] + after);
                    assert(before == seq![s.first()] + shorter);
                    assert(s =~= before + seq![c] + after);
                    assert(!before.contains(c)) by {
                        if before.contains(c) {
                            let i = choose|i: int| 0 <= i < before.len() && before[i] == c;
                            assert(shorter[i - 1] == c);
                        }
                    }
                }
            }
        }
    }
}

/// A text parts at its last `c` into `before` and `after` exactly when it is `before`, `c`,
/// `after` and `after` holds no `c`.
pub proof fn lemma_parted_at_last(s: Seq<char>, c: char)
    ensures
        parted_at_last(s, c) is None <==> !s.contains(c),
        forall|before: Seq<char>, after: Seq<char>|
            parted_at_last(s, c) == Some((before, after)) <==> (s == before + seq![c] + after
                && !after.contains(c)),
    decreases s.len(),
{
    if s.len() > 0 {
        let rest = s.drop_last();
        lemma_parted_at_last(rest, c);
        assert(s =~= rest.push(s.last()));
        assert(s.contains(c) <==> s.last() == c || rest.contains(c)) by {
            if s.contains(c) && s.last() != c {
                let i = choose|i: int| 0 <= i < s.len() && s[i] == c;
                assert(rest[i] == c);
            }
            if rest.contains(c) {
                let i = choose|i: int| 0 <= i < rest.len() && rest[i] == c;
                assert(s[i] == c);
            }
        }
        assert forall|before: Seq<char>, after: Seq<char>|
            parted_at_last(s, c) == Some((before, after)) <==> (s == before + seq![c] + after
                && !after.contains(c)) by {
            if s == before + seq![c] + after && !after.contains(c) {
                if after.len() == 0 {
                    assert(after =~= Seq::<char>::empty());
                    assert(s.drop_last() =~= before);
                    assert(s.last() == c);
                } else {
                    assert(after.last() == s.last());
                    assert(after.contains(after.last()));
                    let shorter = after.drop_last();
                    assert(!shorter.contains(c)) by {
                        if shorter.contains(c) {
                            let i = choose|i: int| 0 <= i < shorter.len() && shorter[i] == c;
                            assert(after[i] == c);
                        }
                    }
                    assert(rest =~= before + seq![c] + shorter);
                    assert(after =~= shorter.push(s.last()));
                }
            }
            if parted_at_last(s, c) == Some((before, after)) {
                if s.last() == c {
                    assert(s =~= before + seq![c] + after);
                } else {
                    let shorter = (parted_at_last(rest, c)->0).1;
                    assert(rest == before + seq![c] + shorter);
                    assert(after == shorter.push(s.last()));
                    assert(s =~= before + seq![c] + after);
                    assert(!after.contains(c)) by {
                        if after.contains(c) {
                            let i = choose|i: int| 0 <= i < after.len() && after[i] == c;
                            assert(shorter[i] == c);
                        }
                    }
                }
            }
        }
    }
}

/// Parts a text at its first `c`.
pub fn part_at_first<'a>(s: &'a str, c: char) -> (r: Option<(&'a str, &'a str)>)
    ensures
        match r {
            Some((before, after)) => parted_at_first(s@, c) == Some((before@, after@)),
            None => parted_at_first(s@, c) is None,
        },
{
    let chars = chars_of(s);
    proof {
        lemma_parted_at_first(s@, c);
    }
    for i in 0..chars.len()
        invariant
            chars@ == s@,
            forall|j: int| 0 <= j < i ==> chars@[j] != c,
            forall|before: Seq<char>, after: Seq<char>|
                parted_at_first(s@, c) == Some((before, after)) <==> (s@ == before + seq![c] + after
                    && !before.contains(c)),
    {
        if chars[i] == c {
            let before = s.substring_char(0, i);
            let after = s.substring_char(i + 1, chars.len());
            assert(s@ =~= before@ + seq![c] + after@);
            return Some((before, after));
        }
    }
    None
}

/// Parts a text at its last `c`.
pub fn part_at_last<'a>(s: &'a str, c: char) -> (r: Option<(&'a str, &'a str)>)
    ensures
        match r {
            Some((before, after)) => parted_at_last(s@, c) == Some((before@, after@)),
            None => parted_at_last(s@, c) is None,
        },
{
    let chars = chars_of(s);
    proof {
        lemma_parted_at_last(s@, c);
    }
    let mut i: usize = chars.len();
    while i > 0
        invariant
            i <= chars@.len(),
            chars@ == s@,
            forall|j: int| i <= j < chars@.len() ==> chars@[j] != c,
            forall|before: Seq<char>, after: Seq<char>|
                parted_at_last(s@, c) == Some((before, after)) <==> (s@ == before + seq![c] + after
                    && !after.contains(c)),
        decreases i,
    {
        i = i - 1;
        if chars[i] == c {
            let before = s.substring_char(0, i);
            let after = s.substring_char(i + 1, chars.len());
            assert(s@ =~= before@ + seq![c] + after@);
            return Some((before, after));
        }
    }
    None
}

/// The text without the run of `c` at its end.
pub open spec fn without_trailing(s: Seq<char>, c: char) -> Seq<char>
    decreases s.len(),
{
    if s.len() > 0 && s.last() == c {
        without_trailing(s.drop_last(), c)
    } else {
        s
    }
}

/// Dropping the run of `c` at the end leaves a text that does not end in `c`, and takes off
/// nothing else.
pub proof fn law_dropped_run_is_gone(s: Seq<char>, c: char)
    ensures
        without_trailing(s, c).len() > 0 ==> without_trailing(s, c).last() != c,
        without_trailing(s, c).is_prefix_of(s),
        forall|i: int| without_trailing(s, c).len() <= i < s.len() ==> #[trigger] s[i] == c,
    decreases s.len(),
{
    if s.len() > 0 && s.last() == c {
        let rest = s.drop_last();
        law_dropped_run_is_gone(rest, c);
        assert forall|i: int| without_trailing(s, c).len() <= i < s.len() implies #[trigger] s[i]
            == c by {
            if i < rest.len() {
                assert(rest[i] == c);
            }
        }
    }
}

/// The text without the run of `c` at its start.
pub open spec fn without_leading(s: Seq<char>, c: char) -> Seq<char>
    decreases s.len(),
{
    if s.len() > 0 && s.first() == c {
        without_leading(s.drop_first(), c)
    } else {
        s
    }
}

/// Drops the run of `c` at the end of a text.
pub fn drop_trailing<'a>(s: &'a str, c: char) -> (r: &'a str)
    ensures
        r@ == without_trailing(s@, c),
{
    let chars = chars_of(s);
    let mut end: usize = chars.len();
    assert(s@.take(end as int) =~= s@);
    while end > 0 && chars[end - 1] == c
        invariant
            end <= chars@.len(),
            chars@ == s@,
            without_trailing(s@.take(end as int), c) == without_trailing(s@, c),
        decreases end,
    {
        end = end - 1;
        assert(s@.take(end + 1).drop_last() =~= s@.take(end as int));
    }
    let r = s.substring_char(0, end);
    assert(r@ =~= s@.take(end as int));
    r
}

/// Drops the run of `c` at the start of a text.
pub fn drop_leading<'a>(s: &'a str, c: char) -> (r: &'a str)
    ensures
        r@ == without_leading(s@, c),
{
    let chars = chars_of(s);
    let mut start: usize = 0;
    assert(s@.skip(0) =~= s@);
    while start < chars.len() && chars[start] == c
        invariant
            start <= chars@.len(),
            chars@ == s@,
            without_leading(s@.skip(start as int), c) == without_leading(s@, c),
        decreases chars@.len() - start,
    {
        start = start + 1;
        assert(s@.skip(start - 1).drop_first() =~= s@.skip(start as int));
    }
    let r = s.substring_char(start, chars.len());
    assert(r@ =~= s@.skip(start as int));
    r
}

/// Whether a text ends with another.
pub fn ends_with(s: &str, end: &str) -> (r: bool)
    ensures
        r == end@.is_suffix_of(s@),
{
    let n = s.unicode_len();
    let m = end.unicode_len();
    if m > n {
        return false;
    }
    let tail = s.substring_char(n - m, n);
    same(tail, end)
}

/// What follows `start`, where the text begins with it.
pub fn strip_start<'a>(s: &'a str, start: &str) -> (r: Option<&'a str>)
    ensures
        match r {
            Some(rest) => s@ == start@ + rest@,
            None => !start@.is_prefix_of(s@),
        },
{
    let n = s.unicode_len();
    let m = start.unicode_len();
    if m > n {
        return None;
    }
    let head = s.substring_char(0, m);
    if same(head, start) {
        let rest = s.substring_char(m, n);
        assert(s@ =~= start@ + rest@);
        Some(rest)
    } else {
        None
    }
}

/// The order of texts by their first differing character, a text before its extensions. It is
/// also the order of their UTF-8 bytes.
pub open spec fn precedes(a: Seq<char>, b: Seq<char>) -> bool
    decreases a.len(),
{
    if b.len() == 0 {
        false
    } else if a.len() == 0 {
        true
    } else if a.first() != b.first() {
        a.first() < b.first()
    } else {
        precedes(a.drop_first(), b.drop_first())
    }
}

pub proof fn lemma_precedes_total(a: Seq<char>, b: Seq<char>)
    ensures
        !(precedes(a, b) && precedes(b, a)),
        a != b ==> precedes(a, b) || precedes(b, a),
        a == b ==> !precedes(a, b),
    decreases a.len(),
{
    if a.len() > 0 && b.len() > 0 {
        lemma_precedes_total(a.drop_first(), b.drop_first());
        if a.first() == b.first() && a.drop_first() == b.drop_first() {
            assert(a =~= seq![a.first()] + a.drop_first());
            assert(b =~= seq![b.first()] + b.drop_first());
        }
    } else if a.len() == 0 && b.len() == 0 {
        assert(a =~= b);
    }
}

pub proof fn lemma_precedes_transitive(a: Seq<char>, b: Seq<char>, c: Seq<char>)
    requires
        precedes(a, b),
        precedes(b, c),
    ensures
        precedes(a, c),
    decreases a.len(),
{
    if a.len() > 0 && a.first() == b.first() && b.first() == c.first() {
        lemma_precedes_transitive(a.drop_first(), b.drop_first(), c.drop_first());
    }
}

/// Whether one text comes before another.
pub fn comes_before(a: &str, b: &str) -> (r: bool)
    ensures
        r == precedes(a@, b@),
{
    let x = chars_of(a);
    let y = chars_of(b);
    let mut i: usize = 0;
    assert(x@.skip(0) =~= x@);
    assert(y@.skip(0) =~= y@);
    while i < x.len() && i < y.len()
        invariant
            i <= x@.len(),
            i <= y@.len(),
            x@ == a@,
            y@ == b@,
            precedes(x@, y@) == precedes(x@.skip(i as int), y@.skip(i as int)),
        decreases x@.len() - i,
    {
        let p = x[i];
        let q = y[i];
        assert(x@.skip(i as int).first() == p);
        assert(y@.skip(i as int).first() == q);
        if p != q {
            return p < q;
        }
        assert(x@.skip(i as int).drop_first() =~= x@.skip(i + 1));
        assert(y@.skip(i as int).drop_first() =~= y@.skip(i + 1));
        i = i + 1;
    }
    i < y.len()
}

} // verus!
