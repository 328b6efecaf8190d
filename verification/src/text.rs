//! Text handling for the line protocol: trimming, prefixes, comma-separated fields.
//!
//! Everything here works on characters, not bytes. The only fact taken on trust
//! is which characters count as white space.

use vstd::prelude::*;

verus! {

/// Whether `c` has Unicode's `White_Space` property, as `char::is_whitespace` reports it.
pub uninterp spec fn white_space(c: char) -> bool;

/// Calls `char::is_whitespace`. The contract only names its answer: the
/// set of white-space characters is Unicode's and is not spelled out here.
#[verifier::external_body]
fn is_white_space(c: char) -> (b: bool)
    ensures
        b == white_space(c),
{
    c.is_whitespace()
}

/// `s` without its leading white space.
pub open spec fn trim_start(s: Seq<char>) -> Seq<char>
    decreases s.len(),
{
    if s.len() > 0 && white_space(s.first()) {
        trim_start(s.drop_first())
    } else {
        s
    }
}

/// `s` without its trailing white space.
pub open spec fn trim_end(s: Seq<char>) -> Seq<char>
    decreases s.len(),
{
    if s.len() > 0 && white_space(s.last()) {
        trim_end(s.drop_last())
    } else {
        s
    }
}

/// `s` without the white space around it.
pub open spec fn trimmed(s: Seq<char>) -> Seq<char> {
    trim_end(trim_start(s))
}

/// The number of characters of `s` before its first comma; `s.len()` if it has none.
pub open spec fn first_comma(s: Seq<char>) -> int
    decreases s.len(),
{
    if s.len() == 0 || s.first() == ',' {
        0
    } else {
        1 + first_comma(s.drop_first())
    }
}

/// The pieces of `s` between its commas, in order. A text without a comma is
/// one field, the empty text included; `n` commas make `n + 1` fields.
pub open spec fn split_fields(s: Seq<char>) -> Seq<Seq<char>>
    decreases s.len(),
{
    let i = first_comma(s);
    if 0 <= i < s.len() {
        seq![s.take(i)] + split_fields(s.skip(i + 1))
    } else {
        seq![s]
    }
}

/// The fields joined again, with one comma between neighbours.
pub open spec fn join_fields(fields: Seq<Seq<char>>) -> Seq<char>
    decreases fields.len(),
{
    if fields.len() == 0 {
        Seq::empty()
    } else if fields.len() == 1 {
        fields.first()
    } else {
        fields.first() + seq![','] + join_fields(fields.drop_first())
    }
}

/// The texts that a sequence of strings holds.
pub open spec fn views(strings: Seq<String>) -> Seq<Seq<char>> {
    Seq::new(strings.len(), |i: int| strings[i]@)
}

proof fn lemma_trim_start(s: Seq<char>, a: int)
    requires
        0 <= a <= s.len(),
        forall|k: int| 0 <= k < a ==> white_space(s[k]),
        a < s.len() ==> !white_space(s[a]),
    ensures
        trim_start(s) == s.skip(a),
    decreases a,
{
    if a == 0 {
        assert(s.skip(0) =~= s);
    } else {
        let rest = s.drop_first();
        assert forall|k: int| 0 <= k < a - 1 implies white_space(rest[k]) by {
            assert(rest[k] == s[k + 1]);
        }
        lemma_trim_start(rest, a - 1);
        assert(rest.skip(a - 1) =~= s.skip(a));
    }
}

proof fn lemma_trim_end(s: Seq<char>, b: int)
    requires
        0 <= b <= s.len(),
        forall|k: int| b <= k < s.len() ==> white_space(s[k]),
        0 < b ==> !white_space(s[b - 1]),
    ensures
        trim_end(s) == s.take(b),
    decreases s.len() - b,
{
    if b == s.len() {
        assert(s.take(b) =~= s);
    } else {
        let rest = s.drop_last();
        lemma_trim_end(rest, b);
        assert(rest.take(b) =~= s.take(b));
    }
}

/// A range of `s` with only white space outside it and none at its two ends is
/// what trimming leaves.
proof fn lemma_trimmed_range(s: Seq<char>, a: int, b: int)
    requires
        0 <= a <= b <= s.len(),
        forall|k: int| 0 <= k < a ==> white_space(s[k]),
        forall|k: int| b <= k < s.len() ==> white_space(s[k]),
        a < b ==> !white_space(s[a]) && !white_space(s[b - 1]),
    ensures
        trimmed(s) == s.subrange(a, b),
{
    if a < b {
        lemma_trim_start(s, a);
        let tail = s.skip(a);
        assert forall|k: int| b - a <= k < tail.len() implies white_space(tail[k]) by {
            assert(tail[k] == s[k + a]);
        }
        assert(tail[b - a - 1] == s[b - 1]);
        lemma_trim_end(tail, b - a);
        assert(tail.take(b - a) =~= s.subrange(a, b));
    } else {
        lemma_trim_start(s, s.len() as int);
        assert(s.skip(s.len() as int) =~= Seq::<char>::empty());
        assert(s.subrange(a, b) =~= Seq::<char>::empty());
    }
}

proof fn lemma_first_comma(s: Seq<char>, k: int)
    requires
        0 <= k <= s.len(),
        forall|j: int| 0 <= j < k ==> s[j] != ',',
        k < s.len() ==> s[k] == ',',
    ensures
        first_comma(s) == k,
    decreases k,
{
    if k > 0 {
        let rest = s.drop_first();
        assert forall|j: int| 0 <= j < k - 1 implies rest[j] != ',' by {
            assert(rest[j] == s[j + 1]);
        }
        lemma_first_comma(rest, k - 1);
    }
}

/// The characters of `text` without the white space around them.
pub fn trim(text: &str) -> (t: &str)
    ensures
        t@ == trimmed(text@),
{
    let total = text.unicode_len();
    let mut i: usize = 0;
    let mut start: usize = 0;
    let mut end: usize = 0;
    for c in it: text.chars()
        invariant
            i == it.index(),
            it.seq() == text@,
            total == text@.len(),
            start <= end <= i,
            start < end ==> !white_space(text@[start as int]) && !white_space(
                text@[end - 1],
            ),
            start == end ==> start == 0,
            forall|k: int| 0 <= k < (if start < end { start } else { i }) ==> white_space(text@[k]),
            forall|k: int| end <= k < i ==> white_space(text@[k]),
    {
        if !is_white_space(c) {
            if start == end {
                start = i;
            }
            end = i + 1;
        }
        i = i + 1;
    }
    proof {
        lemma_trimmed_range(text@, start as int, end as int);
    }
    text.substring_char(start, end)
}

/// Whether `text` begins with the characters of `prefix`.
pub fn starts_with(text: &str, prefix: &str) -> (b: bool)
    ensures
        b == prefix@.is_prefix_of(text@),
{
    let wanted = prefix.unicode_len();
    if text.unicode_len() < wanted {
        return false;
    }
    let mut i: usize = 0;
    while i < wanted
        invariant
            i <= wanted == prefix@.len() <= text@.len(),
            forall|k: int| 0 <= k < i ==> text@[k] == prefix@[k],
        decreases wanted - i,
    {
        if text.get_char(i) != prefix.get_char(i) {
            assert(text@.subrange(0, wanted as int)[i as int] != prefix@[i as int]);
            return false;
        }
        i = i + 1;
    }
    assert(prefix@ =~= text@.subrange(0, wanted as int));
    true
}

/// The fields of a comma-separated `text`, each as a string of its own.
pub fn split(text: &str) -> (fields: Vec<String>)
    ensures
        views(fields@) == split_fields(text@),
{
    let total = text.unicode_len();
    let mut fields: Vec<String> = Vec::new();
    let mut start: usize = 0;
    let mut i: usize = 0;
    assert(views(fields@) + split_fields(text@.skip(0)) =~= split_fields(text@)) by {
        assert(text@.skip(0) =~= text@);
    }
    for c in it: text.chars()
        invariant
            i == it.index(),
            it.seq() == text@,
            total == text@.len(),
            start <= i,
            forall|k: int| start <= k < i ==> text@[k] != ',',
            split_fields(text@) == views(fields@) + split_fields(text@.skip(start as int)),
    {
        if c == ',' {
            let field = text.substring_char(start, i).to_owned();
            proof {
                let rest = text@.skip(start as int);
                assert forall|j: int| 0 <= j < i - start implies rest[j] != ',' by {
                    assert(rest[j] == text@[j + start]);
                }
                lemma_first_comma(rest, i - start);
                assert(rest.take(i - start) =~= text@.subrange(start as int, i as int));
                assert(rest.skip(i - start + 1) =~= text@.skip(i + 1));
                assert(views(fields@.push(field)) =~= views(fields@) + seq![field@]);
            }
            fields.push(field);
            start = i + 1;
        }
        i = i + 1;
    }
    let field = text.substring_char(start, total).to_owned();
    proof {
        let rest = text@.skip(start as int);
        assert forall|j: int| 0 <= j < rest.len() implies rest[j] != ',' by {
            assert(rest[j] == text@[j + start]);
        }
        lemma_first_comma(rest, rest.len() as int);
        assert(rest =~= text@.subrange(start as int, total as int));
        assert(views(fields@.push(field)) =~= views(fields@) + seq![field@]);
    }
    fields.push(field);
    fields
}

/// What trimming leaves is one range of the text: all before it and all after
/// it is white space, and it neither begins nor ends with white space. The
/// range is handed back.
pub proof fn law_trimmed_is_the_core(text: Seq<char>) -> (range: (int, int))
    ensures
        0 <= range.0 <= range.1 <= text.len(),
        trimmed(text) == text.subrange(range.0, range.1),
        forall|k: int| 0 <= k < range.0 ==> white_space(text[k]),
        forall|k: int| range.1 <= k < text.len() ==> white_space(text[k]),
        range.0 < range.1 ==> !white_space(text[range.0]) && !white_space(text[range.1 - 1]),
{
    let a = lemma_leading_space(text);
    let tail = text.skip(a);
    let b = lemma_trailing_space(tail);
    assert(tail.take(b) =~= text.subrange(a, a + b));
    assert forall|k: int| a + b <= k < text.len() implies white_space(text[k]) by {
        assert(tail[k - a] == text[k]);
    }
    if 0 < b {
        assert(tail[b - 1] == text[a + b - 1]);
    }
    (a, a + b)
}

proof fn lemma_leading_space(s: Seq<char>) -> (a: int)
    ensures
        0 <= a <= s.len(),
        trim_start(s) == s.skip(a),
        forall|k: int| 0 <= k < a ==> white_space(s[k]),
        a < s.len() ==> !white_space(s[a]),
    decreases s.len(),
{
    if s.len() > 0 && white_space(s.first()) {
        let rest = s.drop_first();
        let a = lemma_leading_space(rest);
        assert(rest.skip(a) =~= s.skip(a + 1));
        assert forall|k: int| 0 <= k < a + 1 implies white_space(s[k]) by {
            if k > 0 {
                assert(rest[k - 1] == s[k]);
            }
        }
        if a + 1 < s.len() {
            assert(rest[a] == s[a + 1]);
        }
        a + 1
    } else {
        assert(s.skip(0) =~= s);
        0
    }
}

proof fn lemma_trailing_space(s: Seq<char>) -> (b: int)
    ensures
        0 <= b <= s.len(),
        trim_end(s) == s.take(b),
        forall|k: int| b <= k < s.len() ==> white_space(s[k]),
        0 < b ==> !white_space(s[b - 1]),
    decreases s.len(),
{
    if s.len() > 0 && white_space(s.last()) {
        let rest = s.drop_last();
        let b = lemma_trailing_space(rest);
        assert(rest.take(b) =~= s.take(b));
        assert forall|k: int| b <= k < s.len() implies white_space(s[k]) by {
            if k < rest.len() {
                assert(rest[k] == s[k]);
            }
        }
        if 0 < b {
            assert(rest[b - 1] == s[b - 1]);
        }
        b
    } else {
        assert(s.take(s.len() as int) =~= s);
        s.len() as int
    }
}

/// No field holds a comma, and the fields joined by commas are the text that
/// was split.
pub proof fn law_split_fields_rejoin(text: Seq<char>)
    ensures
        split_fields(text).len() >= 1,
        forall|i: int|
            0 <= i < split_fields(text).len() ==> !(#[trigger] split_fields(text)[i]).contains(','),
        join_fields(split_fields(text)) == text,
    decreases text.len(),
{
    let at = first_comma(text);
    lemma_first_comma_bounds(text);
    if 0 <= at < text.len() {
        let head = text.take(at);
        let rest = text.skip(at + 1);
        law_split_fields_rejoin(rest);
        let fields = split_fields(text);
        assert(fields =~= seq![head] + split_fields(rest));
        assert(fields.drop_first() =~= split_fields(rest));
        assert(fields.first() == head);
        assert(!head.contains(',')) by {
            if head.contains(',') {
                let k = choose|k: int| 0 <= k < head.len() && head[k] == ',';
                assert(text[k] == ',');
            }
        }
        assert forall|i: int| 0 <= i < fields.len() implies !(#[trigger] fields[i]).contains(
            ',',
        ) by {
            if i > 0 {
                assert(fields[i] == split_fields(rest)[i - 1]);
            }
        }
        assert(head + seq![','] + rest =~= text);
    } else {
        assert(split_fields(text) =~= seq![text]);
        assert(!text.contains(',')) by {
            if text.contains(',') {
                let k = choose|k: int| 0 <= k < text.len() && text[k] == ',';
            }
        }
    }
}

proof fn lemma_first_comma_bounds(text: Seq<char>)
    ensures
        0 <= first_comma(text) <= text.len(),
        forall|k: int| 0 <= k < first_comma(text) ==> text[k] != ',',
        first_comma(text) < text.len() ==> text[first_comma(text)] == ',',
    decreases text.len(),
{
    if text.len() == 0 || text.first() == ',' {
    } else {
        let rest = text.drop_first();
        lemma_first_comma_bounds(rest);
        assert forall|k: int| 0 <= k < first_comma(text) implies text[k] != ',' by {
            if k > 0 {
                assert(text[k] == rest[k - 1]);
            }
        }
    }
}

} // verus!
