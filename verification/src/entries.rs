//! The grammar of a language list: entries separated by commas, each taken
//! without the white space around it.

use vstd::prelude::*;
use crate::text::{is_white_space, white_space};

verus! {

/// `s` without the white space that it starts with.
pub open spec fn trim_start(s: Seq<char>) -> Seq<char>
    decreases s.len(),
{
    if s.len() > 0 && white_space(s[0]) {
        trim_start(s.drop_first())
    } else {
        s
    }
}

/// `s` without the white space that it ends with.
pub open spec fn trim_end(s: Seq<char>) -> Seq<char>
    decreases s.len(),
{
    if s.len() > 0 && white_space(s.last()) {
        trim_end(s.drop_last())
    } else {
        s
    }
}

/// `s` without the white space at either end.
pub open spec fn trimmed(s: Seq<char>) -> Seq<char> {
    trim_end(trim_start(s))
}

/// The position of the first comma of `s` at or after `from`, or the length
/// of `s` where there is none.
pub open spec fn field_end(s: Seq<char>, from: int) -> int
    decreases s.len() - from,
{
    if from >= s.len() || s[from] == ',' {
        from
    } else {
        field_end(s, from + 1)
    }
}

/// The entries of the part of `s` that starts at `from`: what stands before
/// the first comma, trimmed, and then the entries of what follows that comma.
/// A part without a comma is one entry, also where it is empty.
pub open spec fn entries_from(s: Seq<char>, from: int) -> Seq<Seq<char>>
    decreases s.len() - from,
    via entries_from_decreases
{
    if from < 0 || from > s.len() {
        Seq::empty()
    } else {
        let end: int = field_end(s, from);
        if end >= s.len() {
            seq![trimmed(s.subrange(from, s.len() as int))]
        } else {
            seq![trimmed(s.subrange(from, end))] + entries_from(s, end + 1)
        }
    }
}

#[via_fn]
proof fn entries_from_decreases(s: Seq<char>, from: int) {
    if 0 <= from <= s.len() {
        lemma_field_end_bounds(s, from);
    }
}

/// The entries of a language list. The empty text lists nothing; any other
/// text with `n` commas lists `n + 1` entries, empty ones among them.
pub open spec fn listed_entries(s: Seq<char>) -> Seq<Seq<char>> {
    if s.len() == 0 {
        Seq::empty()
    } else {
        entries_from(s, 0)
    }
}

/// The number of commas of `s` at or after `from`.
pub open spec fn commas_from(s: Seq<char>, from: int) -> nat
    decreases s.len() - from,
{
    if from < 0 || from >= s.len() {
        0
    } else if s[from] == ',' {
        1 + commas_from(s, from + 1)
    } else {
        commas_from(s, from + 1)
    }
}

/// The parts of `s` that the pairs of `bounds` delimit.
pub open spec fn delimited(s: Seq<char>, bounds: Seq<(usize, usize)>) -> Seq<Seq<char>> {
    Seq::new(bounds.len(), |i: int| s.subrange(bounds[i].0 as int, bounds[i].1 as int))
}

/// Every pair of `bounds` delimits a part of a text of length `len`.
pub open spec fn within(bounds: Seq<(usize, usize)>, len: nat) -> bool {
    forall|i: int| 0 <= i < bounds.len() ==> (#[trigger] bounds[i]).0 <= bounds[i].1 <= len
}

/// A field ends at or after its start and within the text.
proof fn lemma_field_end_bounds(s: Seq<char>, from: int)
    requires
        0 <= from <= s.len(),
    ensures
        from <= field_end(s, from) <= s.len(),
    decreases s.len() - from,
{
    if from < s.len() && s[from] != ',' {
        lemma_field_end_bounds(s, from + 1);
    }
}

/// Where `s` from `from` on starts with `skip` white-space characters and then
/// ends or goes on with another character, trimming at the start drops exactly those.
proof fn lemma_trim_start_is(s: Seq<char>, skip: int)
    requires
        0 <= skip <= s.len(),
        forall|i: int| 0 <= i < skip ==> white_space(#[trigger] s[i]),
        skip < s.len() ==> !white_space(s[skip]),
    ensures
        trim_start(s) == s.subrange(skip, s.len() as int),
    decreases skip,
{
    if skip > 0 {
        let rest = s.drop_first();
        assert forall|i: int| 0 <= i < skip - 1 implies white_space(#[trigger] rest[i]) by {
            assert(rest[i] == s[i + 1]);
        }
        lemma_trim_start_is(rest, skip - 1);
        assert(rest.subrange(skip - 1, rest.len() as int) =~= s.subrange(skip, s.len() as int));
    }
}

/// Where `s` ends with white space from `keep` on and the character before
/// that, if there is one, is none, trimming at the end keeps exactly the first `keep`.
proof fn lemma_trim_end_is(s: Seq<char>, keep: int)
    requires
        0 <= keep <= s.len(),
        forall|i: int| keep <= i < s.len() ==> white_space(#[trigger] s[i]),
        keep > 0 ==> !white_space(s[keep - 1]),
    ensures
        trim_end(s) == s.subrange(0, keep),
    decreases s.len() - keep,
{
    if keep < s.len() {
        let rest = s.drop_last();
        assert forall|i: int| keep <= i < rest.len() implies white_space(#[trigger] rest[i]) by {
            assert(rest[i] == s[i]);
        }
        lemma_trim_end_is(rest, keep);
        assert(rest.subrange(0, keep) =~= s.subrange(0, keep));
    }
}

/// A field holds no comma, and what ends it, if not the text's end, is one.
proof fn lemma_field_has_no_comma(s: Seq<char>, from: int)
    requires
        0 <= from <= s.len(),
    ensures
        forall|j: int| from <= j < field_end(s, from) ==> s[j] != ',',
        field_end(s, from) < s.len() ==> s[field_end(s, from)] == ',',
        commas_from(s, from) == commas_from(s, field_end(s, from)),
    decreases s.len() - from,
{
    if from < s.len() && s[from] != ',' {
        lemma_field_has_no_comma(s, from + 1);
    }
}

/// What trimming leaves of `s` is a part of `s`, and where anything is left,
/// it neither begins nor ends with white space.
proof fn lemma_trimmed_is_bare_part(s: Seq<char>) -> (bounds: (int, int))
    ensures
        0 <= bounds.0 <= bounds.1 <= s.len(),
        trimmed(s) == s.subrange(bounds.0, bounds.1),
        bounds.0 < bounds.1 ==> !white_space(s[bounds.0]) && !white_space(s[bounds.1 - 1]),
{
    let first: int = lemma_trim_start_bound(s);
    let tail = s.subrange(first, s.len() as int);
    let kept: int = lemma_trim_end_bound(tail);
    assert(tail.subrange(0, kept) =~= s.subrange(first, first + kept));
    (first, first + kept)
}

/// What trimming at the start leaves of `s` is `s` from some position on, and
/// does not begin with white space.
proof fn lemma_trim_start_bound(s: Seq<char>) -> (skip: int)
    ensures
        0 <= skip <= s.len(),
        trim_start(s) == s.subrange(skip, s.len() as int),
        skip < s.len() ==> !white_space(s[skip]),
    decreases s.len(),
{
    if s.len() > 0 && white_space(s[0]) {
        let rest = s.drop_first();
        let skip: int = lemma_trim_start_bound(rest);
        assert(rest.subrange(skip, rest.len() as int) =~= s.subrange(skip + 1, s.len() as int));
        skip + 1
    } else {
        assert(s.subrange(0, s.len() as int) =~= s);
        0
    }
}

/// What trimming at the end leaves of `s` is `s` up to some position, and
/// does not end with white space.
proof fn lemma_trim_end_bound(s: Seq<char>) -> (keep: int)
    ensures
        0 <= keep <= s.len(),
        trim_end(s) == s.subrange(0, keep),
        keep > 0 ==> !white_space(s[keep - 1]),
    decreases s.len(),
{
    if s.len() > 0 && white_space(s.last()) {
        let rest = s.drop_last();
        let keep: int = lemma_trim_end_bound(rest);
        assert(rest.subrange(0, keep) =~= s.subrange(0, keep));
        keep
    } else {
        assert(s.subrange(0, s.len() as int) =~= s);
        s.len() as int
    }
}

/// The part of a text from `from` on lists one entry more than it has commas.
proof fn lemma_entry_count_from(s: Seq<char>, from: int)
    requires
        0 <= from <= s.len(),
    ensures
        entries_from(s, from).len() == commas_from(s, from) + 1,
    decreases s.len() - from,
{
    let end: int = field_end(s, from);
    lemma_field_end_bounds(s, from);
    lemma_field_has_no_comma(s, from);
    if end < s.len() {
        lemma_entry_count_from(s, end + 1);
    }
}

/// No entry of the part of a text from `from` on holds a comma, or begins or
/// ends with white space.
proof fn lemma_entries_from_are_bare(s: Seq<char>, from: int, i: int)
    requires
        0 <= from <= s.len(),
        0 <= i < entries_from(s, from).len(),
    ensures
        !entries_from(s, from)[i].contains(','),
        entries_from(s, from)[i].len() > 0 ==> !white_space(entries_from(s, from)[i].first())
            && !white_space(entries_from(s, from)[i].last()),
    decreases s.len() - from,
{
    let end: int = field_end(s, from);
    lemma_field_end_bounds(s, from);
    lemma_field_has_no_comma(s, from);
    if i == 0 {
        let field = s.subrange(from, end);
        let bounds: (int, int) = lemma_trimmed_is_bare_part(field);
        let entry = trimmed(field);
        assert forall|k: int| 0 <= k < entry.len() implies entry[k] != ',' by {
            assert(entry[k] == s[from + bounds.0 + k]);
        }
    } else {
        lemma_entries_from_are_bare(s, end + 1, i - 1);
    }
}

/// A text that is not empty lists one entry more than it has commas.
pub proof fn lemma_entry_count(s: Seq<char>)
    requires
        s.len() > 0,
    ensures
        listed_entries(s).len() == commas_from(s, 0) + 1,
{
    lemma_entry_count_from(s, 0);
}

/// No entry of a list holds a comma, and no entry begins or ends with white space.
pub proof fn lemma_entries_are_bare(s: Seq<char>, i: int)
    requires
        0 <= i < listed_entries(s).len(),
    ensures
        !listed_entries(s)[i].contains(','),
        listed_entries(s)[i].len() > 0 ==> !white_space(listed_entries(s)[i].first())
            && !white_space(listed_entries(s)[i].last()),
{
    lemma_entries_from_are_bare(s, 0, i);
}

/// The bounds of the part of `chars` between `start` and `end`, without the
/// white space at either end of it.
fn trim_bounds(chars: &Vec<char>, start: usize, end: usize) -> (bounds: (usize, usize))
    requires
        start <= end <= chars.len(),
    ensures
        start <= bounds.0 <= bounds.1 <= end,
        chars@.subrange(bounds.0 as int, bounds.1 as int) == trimmed(
            chars@.subrange(start as int, end as int),
        ),
{
    let ghost field = chars@.subrange(start as int, end as int);
    let mut first: usize = start;
    while first < end && is_white_space(chars[first])
        invariant
            start <= first <= end <= chars.len(),
            forall|i: int| start <= i < first ==> white_space(#[trigger] chars@[i]),
        decreases end - first,
    {
        first += 1;
    }
    let mut last: usize = end;
    while last > first && is_white_space(chars[last - 1])
        invariant
            first <= last <= end <= chars.len(),
            forall|i: int| last <= i < end ==> white_space(#[trigger] chars@[i]),
        decreases last - first,
    {
        last -= 1;
    }
    proof {
        assert forall|i: int| 0 <= i < first - start implies white_space(#[trigger] field[i]) by {
            assert(field[i] == chars@[start + i]);
        }
        lemma_trim_start_is(field, first - start);
        let tail = chars@.subrange(first as int, end as int);
        assert(field.subrange(first - start, field.len() as int) =~= tail);
        assert forall|i: int| last - first <= i < tail.len() implies white_space(
            #[trigger] tail[i],
        ) by {
            assert(tail[i] == chars@[first + i]);
        }
        lemma_trim_end_is(tail, last - first);
        assert(tail.subrange(0, last - first) =~= chars@.subrange(first as int, last as int));
    }
    (first, last)
}

/// Where each entry of the list that `chars` spell begins and ends.
pub(crate) fn entry_bounds(chars: &Vec<char>) -> (bounds: Vec<(usize, usize)>)
    ensures
        within(bounds@, chars@.len()),
        delimited(chars@, bounds@) == listed_entries(chars@),
{
    let len: usize = chars.len();
    let mut bounds: Vec<(usize, usize)> = Vec::new();
    if len == 0 {
        return bounds;
    }
    let mut start: usize = 0;
    let mut done = false;
    while !done
        invariant
            len == chars.len(),
            start <= len,
            within(bounds@, chars@.len()),
            !done ==> delimited(chars@, bounds@) + entries_from(chars@, start as int)
                == entries_from(chars@, 0),
            done ==> delimited(chars@, bounds@) == entries_from(chars@, 0),
        decreases
            if done { 0 } else { len - start + 1 },
    {
        let mut end: usize = start;
        while end < len && chars[end] != ','
            invariant
                len == chars.len(),
                start <= end <= len,
                field_end(chars@, start as int) == field_end(chars@, end as int),
            decreases len - end,
        {
            end += 1;
        }
        let entry: (usize, usize) = trim_bounds(chars, start, end);
        let ghost before = bounds@;
        bounds.push(entry);
        proof {
            assert(field_end(chars@, start as int) == end);
            assert(delimited(chars@, bounds@) =~= delimited(chars@, before) + seq![
                trimmed(chars@.subrange(start as int, end as int)),
            ]);
        }
        if end >= len {
            done = true;
        } else {
            start = end + 1;
        }
    }
    bounds
}

} // verus!
