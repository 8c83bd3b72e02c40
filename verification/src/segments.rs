//! Slash-separated text: what the parts of a resource name are, and how a list
//! of parts is written back as one string.

use vstd::prelude::*;
use vstd::string::*;
use vstd::utf8::encode_utf8_decode_utf8;

verus! {

/// The character that separates the parts of a resource name.
pub const SEPARATOR: char = '/';

/// No character of `part` is the separator.
pub open spec fn slash_free(part: Seq<char>) -> bool {
    forall|i: int| 0 <= i < part.len() ==> part[i] != SEPARATOR
}

/// Every part of `parts` is free of the separator.
pub open spec fn all_slash_free(parts: Seq<Seq<char>>) -> bool {
    forall|i: int| 0 <= i < parts.len() ==> slash_free(#[trigger] parts[i])
}

/// Position of the first separator of `text`, or its length where it has none.
pub open spec fn first_slash(text: Seq<char>) -> int
    decreases text.len(),
{
    if text.len() == 0 || text[0] == SEPARATOR {
        0
    } else {
        1 + first_slash(text.drop_first())
    }
}

/// The parts of `text` between its separators, in order. A text without a
/// separator is its own single part; the empty text is one empty part.
pub open spec fn split(text: Seq<char>) -> Seq<Seq<char>>
    decreases text.len(),
{
    let k = first_slash(text);
    if 0 <= k < text.len() {
        seq![text.take(k)] + split(text.skip(k + 1))
    } else {
        seq![text]
    }
}

/// The parts written one after the other with a separator between
/// neighbours.
pub open spec fn join(parts: Seq<Seq<char>>) -> Seq<char>
    decreases parts.len(),
{
    if parts.len() == 0 {
        Seq::empty()
    } else if parts.len() == 1 {
        parts[0]
    } else {
        join(parts.drop_last()) + seq![SEPARATOR] + parts.last()
    }
}

/// The texts that a sequence of strings holds.
pub open spec fn texts(strings: Seq<String>) -> Seq<Seq<char>> {
    strings.map_values(|s: String| s@)
}

/// The first separator lies within the text, and nothing before it is a
/// separator.
pub proof fn lemma_first_slash_bounds(text: Seq<char>)
    ensures
        0 <= first_slash(text) <= text.len(),
        forall|i: int| 0 <= i < first_slash(text) ==> text[i] != SEPARATOR,
        first_slash(text) < text.len() ==> text[first_slash(text)] == SEPARATOR,
    decreases text.len(),
{
    if text.len() == 0 || text[0] == SEPARATOR {
    } else {
        let rest = text.drop_first();
        lemma_first_slash_bounds(rest);
        assert forall|i: int| 0 <= i < first_slash(text) implies text[i] != SEPARATOR by {
            if i > 0 {
                assert(text[i] == rest[i - 1]);
            }
        }
        if first_slash(rest) < rest.len() {
            assert(rest[first_slash(rest)] == text[first_slash(rest) + 1]);
        }
    }
}

/// Where the first `k` characters hold no separator and the next one is a
/// separator (or the text ends), the first separator stands at `k`.
pub proof fn lemma_first_slash_is(text: Seq<char>, k: int)
    requires
        0 <= k <= text.len(),
        forall|i: int| 0 <= i < k ==> text[i] != SEPARATOR,
        k < text.len() ==> text[k] == SEPARATOR,
    ensures
        first_slash(text) == k,
{
    lemma_first_slash_bounds(text);
    let f = first_slash(text);
    if f < k {
        assert(text[f] == SEPARATOR);
    } else if f > k {
        assert(text[k] != SEPARATOR);
    }
}

/// A text without a separator is its own single part.
pub proof fn lemma_split_slash_free(text: Seq<char>)
    requires
        slash_free(text),
    ensures
        split(text) == seq![text],
{
    lemma_first_slash_is(text, text.len() as int);
}

/// Splitting never yields an empty list, and no part holds a separator.
pub proof fn lemma_split_parts(text: Seq<char>)
    ensures
        split(text).len() >= 1,
        all_slash_free(split(text)),
    decreases text.len(),
{
    lemma_first_slash_bounds(text);
    let k = first_slash(text);
    if k < text.len() {
        let rest = text.skip(k + 1);
        lemma_split_parts(rest);
        let parts = split(text);
        assert forall|i: int| 0 <= i < parts.len() implies slash_free(#[trigger] parts[i]) by {
            if i == 0 {
                assert(parts[0] == text.take(k));
            } else {
                assert(parts[i] == split(rest)[i - 1]);
            }
        }
    }
}

/// Joining a part in front: the part, a separator, and the rest joined.
pub proof fn lemma_join_front(first: Seq<char>, rest: Seq<Seq<char>>)
    requires
        rest.len() >= 1,
    ensures
        join(seq![first] + rest) == first + seq![SEPARATOR] + join(rest),
    decreases rest.len(),
{
    let all = seq![first] + rest;
    assert(all.drop_last() =~= seq![first] + rest.drop_last());
    assert(all.last() == rest.last());
    if rest.len() == 1 {
        assert(join(seq![first] + rest.drop_last()) == first) by {
            assert(seq![first] + rest.drop_last() =~= seq![first]);
        }
        assert(join(rest) == rest.last());
    } else {
        lemma_join_front(first, rest.drop_last());
        assert(join(all) =~= first + seq![SEPARATOR] + join(rest));
    }
}

/// Joining a part behind: what was joined so far, a separator, and the part.
pub proof fn lemma_join_push(parts: Seq<Seq<char>>, last: Seq<char>)
    requires
        parts.len() >= 1,
    ensures
        join(parts.push(last)) == join(parts) + seq![SEPARATOR] + last,
{
    assert(parts.push(last).drop_last() =~= parts);
}

/// Joining what a text was split into gives the text back.
pub proof fn lemma_join_split(text: Seq<char>)
    ensures
        join(split(text)) == text,
    decreases text.len(),
{
    lemma_first_slash_bounds(text);
    let k = first_slash(text);
    if k < text.len() {
        let rest = text.skip(k + 1);
        lemma_join_split(rest);
        lemma_split_parts(rest);
        lemma_join_front(text.take(k), split(rest));
        assert(text.take(k) + seq![SEPARATOR] + rest =~= text);
    }
}

/// A separator and a part without one, written behind a text, add that part
/// to the text's parts.
pub proof fn lemma_split_append(text: Seq<char>, last: Seq<char>)
    requires
        slash_free(last),
    ensures
        split(text + seq![SEPARATOR] + last) == split(text).push(last),
    decreases text.len(),
{
    lemma_first_slash_bounds(text);
    let whole = text + seq![SEPARATOR] + last;
    let k = first_slash(text);
    assert forall|i: int| 0 <= i < k implies whole[i] != SEPARATOR by {
        assert(whole[i] == text[i]);
    }
    if k < text.len() {
        assert(whole[k] == text[k]);
    } else {
        assert(whole[k] == SEPARATOR);
    }
    lemma_first_slash_is(whole, k);
    if k < text.len() {
        let rest = text.skip(k + 1);
        lemma_split_append(rest, last);
        assert(whole.skip(k + 1) =~= rest + seq![SEPARATOR] + last);
        assert(whole.take(k) =~= text.take(k));
        assert(split(whole) =~= split(text).push(last));
    } else {
        assert(whole.take(k) =~= text);
        assert(whole.skip(k + 1) =~= last);
        lemma_split_slash_free(last);
        assert(split(whole) =~= split(text).push(last));
    }
}

/// Splitting what was joined gives the parts back, where there is at least
/// one part and none holds a separator.
pub proof fn lemma_split_join(parts: Seq<Seq<char>>)
    requires
        parts.len() >= 1,
        all_slash_free(parts),
    ensures
        split(join(parts)) == parts,
    decreases parts.len(),
{
    if parts.len() == 1 {
        lemma_split_slash_free(parts[0]);
        assert(seq![parts[0]] =~= parts);
    } else {
        let front = parts.drop_last();
        assert(all_slash_free(front)) by {
            assert forall|i: int| 0 <= i < front.len() implies slash_free(#[trigger] front[i]) by {
                assert(front[i] == parts[i]);
            }
        }
        lemma_split_join(front);
        lemma_split_append(join(front), parts.last());
        assert(front.push(parts.last()) =~= parts);
    }
}

/// Splits `text` at every `/`.
pub fn split_on_slash(text: &str) -> (parts: Vec<String>)
    ensures
        texts(parts@) == split(text@),
{
    let mut parts: Vec<String> = Vec::new();
    let mut start: usize = 0;
    let mut at: usize = 0;
    let n = text.unicode_len();
    proof {
        assert(text@.skip(0) =~= text@);
        assert(texts(parts@) =~= Seq::<Seq<char>>::empty());
    }
    for c in it: text.chars()
        invariant
            n == text@.len(),
            it.seq() == text@,
            at == it.index(),
            start <= at <= n,
            forall|j: int| start <= j < at ==> text@[j] != SEPARATOR,
            split(text@) == texts(parts@) + split(text@.skip(start as int)),
    {
        if c == SEPARATOR {
            let part = text.substring_char(start, at).to_owned();
            proof {
                let rest = text@.skip(start as int);
                assert forall|i: int| 0 <= i < at - start implies rest[i] != SEPARATOR by {
                    assert(rest[i] == text@[start + i]);
                }
                assert(rest[at - start] == text@[at as int]);
                lemma_first_slash_is(rest, at - start);
                assert(rest.take(at - start) =~= text@.subrange(start as int, at as int));
                assert(rest.skip(at - start + 1) =~= text@.skip(at + 1));
                assert(texts(parts@.push(part)) =~= texts(parts@) + seq![part@]);
            }
            parts.push(part);
            start = at + 1;
        }
        at = at + 1;
    }
    let part = text.substring_char(start, at).to_owned();
    proof {
        let rest = text@.skip(start as int);
        assert forall|i: int| 0 <= i < rest.len() implies rest[i] != SEPARATOR by {
            assert(rest[i] == text@[start + i]);
        }
        lemma_first_slash_is(rest, rest.len() as int);
        assert(rest =~= text@.subrange(start as int, at as int));
        assert(texts(parts@.push(part)) =~= texts(parts@) + seq![part@]);
    }
    parts.push(part);
    parts
}

/// Whether two strings hold the same text.
pub fn same_text(a: &str, b: &str) -> (same: bool)
    ensures
        same == (a@ == b@),
{
    let x = a.as_bytes();
    let y = b.as_bytes();
    proof {
        encode_utf8_decode_utf8(a@);
        encode_utf8_decode_utf8(b@);
    }
    if x.len() != y.len() {
        return false;
    }
    let mut i: usize = 0;
    while i < x.len()
        invariant
            i <= x.len(),
            x.len() == y.len(),
            x@ == a.spec_bytes(),
            y@ == b.spec_bytes(),
            forall|j: int| 0 <= j < i ==> x@[j] == y@[j],
        decreases x.len() - i,
    {
        if x[i] != y[i] {
            return false;
        }
        i = i + 1;
    }
    assert(x@ =~= y@);
    true
}

} // verus!
