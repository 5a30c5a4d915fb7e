//! Colon-delimited text: the model of a spec string as a sequence of fields,
//! and the executable conversions between strings and character vectors.

use vstd::prelude::*;
use vstd::std_specs::iter::IteratorSpec;

verus! {

/// The position of the first `:` in `s`, or `s.len()` when `s` holds none.
pub open spec fn first_colon(s: Seq<char>) -> int
    decreases s.len(),
{
    if s.len() == 0 || s[0] == ':' {
        0
    } else {
        1 + first_colon(s.drop_first())
    }
}

/// `s` holds no `:`.
pub open spec fn colon_free(s: Seq<char>) -> bool {
    forall|i: int| 0 <= i < s.len() ==> s[i] != ':'
}

/// The fields of `s`: the pieces between its colons, in order. A text without
/// a colon is one field; the empty text is one empty field.
pub open spec fn fields_of(s: Seq<char>) -> Seq<Seq<char>>
    decreases s.len(),
{
    let k = first_colon(s);
    if 0 <= k < s.len() {
        seq![s.take(k)] + fields_of(s.skip(k + 1))
    } else {
        seq![s]
    }
}

/// The fields written out with a `:` between neighbours.
pub open spec fn joined(parts: Seq<Seq<char>>) -> Seq<char>
    decreases parts.len(),
{
    if parts.len() == 0 {
        Seq::empty()
    } else if parts.len() == 1 {
        parts[0]
    } else {
        parts[0] + seq![':'] + joined(parts.drop_first())
    }
}

/// Every field is free of colons.
pub open spec fn all_colon_free(parts: Seq<Seq<char>>) -> bool {
    forall|i: int| 0 <= i < parts.len() ==> colon_free(#[trigger] parts[i])
}

/// The views of a vector of strings.
pub open spec fn texts(v: Seq<String>) -> Seq<Seq<char>> {
    Seq::new(v.len(), |i: int| v[i]@)
}

/// `first_colon` is within bounds, nothing before it is a colon, and it points
/// at a colon unless it is the length.
pub proof fn lemma_first_colon(s: Seq<char>)
    ensures
        0 <= first_colon(s) <= s.len(),
        colon_free(s.take(first_colon(s))),
        first_colon(s) < s.len() ==> s[first_colon(s)] == ':',
        first_colon(s) == s.len() <==> colon_free(s),
    decreases s.len(),
{
    if s.len() != 0 && s[0] != ':' {
        let rest = s.drop_first();
        lemma_first_colon(rest);
        let k = first_colon(s);
        assert forall|j: int| 0 <= j < s.take(k).len() implies s.take(k)[j] != ':' by {
            if j > 0 {
                assert(s.take(k)[j] == rest.take(k - 1)[j - 1]);
            }
        }
        if colon_free(rest) {
            assert forall|j: int| 0 <= j < s.len() implies s[j] != ':' by {
                if j > 0 {
                    assert(s[j] == rest[j - 1]);
                }
            }
        }
        if colon_free(s) {
            assert forall|j: int| 0 <= j < rest.len() implies rest[j] != ':' by {
                assert(rest[j] == s[j + 1]);
            }
        }
    } else if s.len() != 0 {
        assert(s[0] == ':');
    }
}

/// A position with no colon before it that is the end or holds a colon is the
/// first colon.
pub proof fn lemma_first_colon_at(s: Seq<char>, k: int)
    requires
        0 <= k <= s.len(),
        forall|j: int| 0 <= j < k ==> s[j] != ':',
        k < s.len() ==> s[k] == ':',
    ensures
        first_colon(s) == k,
    decreases s.len(),
{
    if s.len() != 0 && s[0] != ':' {
        let rest = s.drop_first();
        assert forall|j: int| 0 <= j < k - 1 implies rest[j] != ':' by {
            assert(rest[j] == s[j + 1]);
        }
        lemma_first_colon_at(rest, k - 1);
    }
}

/// A text has at least one field, and no field holds a colon.
pub proof fn lemma_fields_shape(s: Seq<char>)
    ensures
        fields_of(s).len() >= 1,
        all_colon_free(fields_of(s)),
        fields_of(s)[0] == s.take(first_colon(s)),
    decreases s.len(),
{
    lemma_first_colon(s);
    let k = first_colon(s);
    if k < s.len() {
        let tail = fields_of(s.skip(k + 1));
        lemma_fields_shape(s.skip(k + 1));
        assert forall|i: int| 0 <= i < fields_of(s).len() implies colon_free(
            #[trigger] fields_of(s)[i],
        ) by {
            if i > 0 {
                assert(fields_of(s)[i] == tail[i - 1]);
            }
        }
    } else {
        assert(s.take(k) =~= s);
    }
}

/// Joining the fields of a text gives the text back.
pub proof fn lemma_join_fields(s: Seq<char>)
    ensures
        joined(fields_of(s)) == s,
    decreases s.len(),
{
    lemma_first_colon(s);
    let k = first_colon(s);
    if k < s.len() {
        let tail = fields_of(s.skip(k + 1));
        lemma_fields_shape(s.skip(k + 1));
        lemma_join_fields(s.skip(k + 1));
        let all = fields_of(s);
        assert(all.drop_first() =~= tail);
        assert(s.take(k) + seq![':'] + s.skip(k + 1) =~= s);
    }
}

/// Colon-free fields, at least one of them, are the fields of their join.
pub proof fn lemma_fields_of_joined(parts: Seq<Seq<char>>)
    requires
        parts.len() >= 1,
        all_colon_free(parts),
    ensures
        fields_of(joined(parts)) == parts,
    decreases parts.len(),
{
    let head = parts[0];
    assert(colon_free(head));
    if parts.len() == 1 {
        lemma_first_colon(head);
        assert(fields_of(head) =~= parts);
    } else {
        let rest = parts.drop_first();
        assert forall|i: int| 0 <= i < rest.len() implies colon_free(#[trigger] rest[i]) by {
            assert(rest[i] == parts[i + 1]);
        }
        lemma_fields_of_joined(rest);
        let s = joined(parts);
        let k = head.len() as int;
        assert(s == head + seq![':'] + joined(rest));
        assert forall|j: int| 0 <= j < k implies s[j] != ':' by {
            assert(s[j] == head[j]);
        }
        assert(s[k] == ':');
        lemma_first_colon_at(s, k);
        assert(s.take(k) =~= head);
        assert(s.skip(k + 1) =~= joined(rest));
        assert(fields_of(s) =~= parts);
    }
}

/// Writing one more field after a non-empty list adds a colon and the field.
pub proof fn lemma_joined_push(parts: Seq<Seq<char>>, last: Seq<char>)
    requires
        parts.len() >= 1,
    ensures
        joined(parts.push(last)) == joined(parts) + seq![':'] + last,
    decreases parts.len(),
{
    let all = parts.push(last);
    if parts.len() == 1 {
        assert(all.drop_first() =~= seq![last]);
        assert(joined(all.drop_first()) == last);
    } else {
        let rest = parts.drop_first();
        lemma_joined_push(rest, last);
        assert(all.drop_first() =~= rest.push(last));
        assert(joined(all) =~= joined(parts) + seq![':'] + last);
    }
}

/// `String::push` appends one character to the end of the string.
pub assume_specification[ String::push ](s: &mut String, c: char)
    ensures
        final(s)@ == old(s)@.push(c),
;

/// The characters of a string, in order.
pub fn chars_of(s: &str) -> (v: Vec<char>)
    ensures
        v@ == s@,
{
    let mut it = s.chars();
    let mut v: Vec<char> = Vec::new();
    loop
        invariant
            v@ + it.remaining() == s@,
            it.obeys_prophetic_iter_laws(),
            it.decrease() is Some,
        ensures
            v@ == s@,
        decreases it.decrease()->0,
    {
        match it.next() {
            Some(c) => {
                assert(v@.push(c) + it.remaining() =~= s@);
                v.push(c);
            },
            None => {
                assert(v@ =~= s@);
                break ;
            },
        }
    }
    v
}

/// The string made of the characters `chars[from..to]`.
pub fn string_of(chars: &Vec<char>, from: usize, to: usize) -> (s: String)
    requires
        from <= to <= chars.len(),
    ensures
        s@ == chars@.subrange(from as int, to as int),
{
    let mut s = String::new();
    let mut i: usize = from;
    while i < to
        invariant
            from <= i <= to <= chars.len(),
            s@ == chars@.subrange(from as int, i as int),
        decreases to - i,
    {
        s.push(chars[i]);
        assert(chars@.subrange(from as int, i as int).push(chars@[i as int])
            =~= chars@.subrange(from as int, i + 1));
        i += 1;
    }
    s
}

/// The position of the first `:` at or after `start`, or the length.
pub fn find_colon(chars: &Vec<char>, start: usize) -> (k: usize)
    requires
        start <= chars.len(),
    ensures
        start <= k <= chars.len(),
        k - start == first_colon(chars@.skip(start as int)),
{
    let mut k: usize = start;
    while k < chars.len() && chars[k] != ':'
        invariant
            start <= k <= chars.len(),
            forall|j: int| start <= j < k ==> chars@[j] != ':',
        decreases chars.len() - k,
    {
        k += 1;
    }
    proof {
        lemma_first_colon_at(chars@.skip(start as int), k - start);
    }
    k
}

/// Splits a text on `:` into its fields.
pub fn split_fields(s: &str) -> (fields: Vec<String>)
    ensures
        texts(fields@) == fields_of(s@),
{
    let chars = chars_of(s);
    let mut fields: Vec<String> = Vec::new();
    let mut start: usize = 0;
    proof {
        assert(chars@.skip(0) =~= s@);
        assert(texts(fields@) + fields_of(s@) =~= fields_of(s@));
    }
    loop
        invariant_except_break
            fields_of(s@) == texts(fields@) + fields_of(chars@.skip(start as int)),
        invariant
            chars@ == s@,
            start <= chars.len(),
        ensures
            texts(fields@) == fields_of(s@),
        decreases chars.len() - start,
    {
        let k = find_colon(&chars, start);
        let field = string_of(&chars, start, k);
        let ghost before = texts(fields@);
        let ghost rest = chars@.skip(start as int);
        proof {
            assert(rest.take(k - start) =~= field@);
        }
        fields.push(field);
        assert(texts(fields@) =~= before.push(field@));
        if k < chars.len() {
            proof {
                assert(rest.skip(k - start + 1) =~= chars@.skip(k + 1));
                assert(before + (seq![field@] + fields_of(chars@.skip(k + 1))) =~= before.push(
                    field@,
                ) + fields_of(chars@.skip(k + 1)));
            }
            start = k + 1;
        } else {
            proof {
                assert(rest =~= field@);
                assert(before + seq![rest] =~= before.push(field@));
            }
            break ;
        }
    }
    fields
}

} // verus!
