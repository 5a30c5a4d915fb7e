//! The field-wise merge of a trusted template with an untrusted override
//! value, which yields the spec string of the right-hand peer.

use crate::text::{
    colon_free, fields_of, first_colon, joined, lemma_fields_of_joined,
    lemma_fields_shape, lemma_first_colon, lemma_first_colon_at, lemma_join_fields,
    lemma_joined_push, split_fields, texts,
};
use vstd::prelude::*;
use vstd::string::StringExecFns;

verus! {

/// Field by field, the given value where there is one, else the default.
/// Given fields beyond the defaults are kept.
pub open spec fn overlaid(defaults: Seq<Seq<char>>, given: Seq<Seq<char>>) -> Seq<Seq<char>> {
    Seq::new(
        if defaults.len() >= given.len() {
            defaults.len()
        } else {
            given.len()
        },
        |i: int|
            if i < given.len() {
                given[i]
            } else {
                defaults[i]
            },
    )
}

/// The merged spec string. An empty template lets the override through
/// untouched. Otherwise the first field of the template is the type, which is
/// kept, and the override's fields replace the template's remaining fields
/// position by position.
pub open spec fn merged(template: Seq<char>, override_value: Seq<char>) -> Seq<char> {
    if template.len() == 0 {
        override_value
    } else {
        let fields = fields_of(template);
        fields[0] + seq![':'] + joined(overlaid(fields.drop_first(), fields_of(override_value)))
    }
}

/// Merges `template` with `override_value`.
pub fn merge(template: &str, override_value: &str) -> (merged_spec: String)
    ensures
        merged_spec@ == merged(template@, override_value@),
{
    if template.is_empty() {
        return String::from_str(override_value);
    }
    let defaults = split_fields(template);
    let given = split_fields(override_value);
    proof {
        lemma_fields_shape(template@);
        lemma_fields_shape(override_value@);
    }
    let ghost parts = overlaid(fields_of(template@).drop_first(), fields_of(override_value@));
    let count: usize = if defaults.len() - 1 >= given.len() {
        defaults.len() - 1
    } else {
        given.len()
    };
    let mut out = String::new();
    out.append(defaults[0].as_str());
    out.push(':');
    let ghost head = out@;
    assert(head =~= fields_of(template@)[0] + seq![':']) by {
        assert(texts(defaults@)[0] == defaults@[0]@);
    }
    let mut i: usize = 0;
    while i < count
        invariant
            i <= count == parts.len(),
            texts(defaults@) == fields_of(template@),
            texts(given@) == fields_of(override_value@),
            defaults.len() >= 1,
            parts == overlaid(fields_of(template@).drop_first(), fields_of(override_value@)),
            out@ == head + joined(parts.take(i as int)),
        decreases count - i,
    {
        if i > 0 {
            out.push(':');
        }
        let field: &String = if i < given.len() {
            &given[i]
        } else {
            &defaults[i + 1]
        };
        proof {
            if i < given.len() {
                assert(texts(given@)[i as int] == given@[i as int]@);
            } else {
                assert(texts(defaults@)[i + 1] == defaults@[i + 1]@);
            }
            assert(field@ == parts[i as int]);
            assert(parts.take(i as int).push(parts[i as int]) =~= parts.take(i + 1));
            if i > 0 {
                lemma_joined_push(parts.take(i as int), parts[i as int]);
                assert(head + joined(parts.take(i as int)) + seq![':'] + field@ =~= head + (joined(
                    parts.take(i as int),
                ) + seq![':'] + field@));
            } else {
                assert(joined(parts.take(0)) =~= Seq::<char>::empty());
                assert(joined(parts.take(1)) == parts[0]);
                assert(head + Seq::<char>::empty() + field@ =~= head + field@);
            }
        }
        out.append(field.as_str());
        i += 1;
    }
    proof {
        assert(parts.take(count as int) =~= parts);
        assert(head + joined(parts) =~= merged(template@, override_value@));
    }
    out
}

/// With an empty template the merged spec is the override value itself.
pub proof fn lemma_empty_template(override_value: Seq<char>)
    ensures
        merged(Seq::<char>::empty(), override_value) == override_value,
{
}

/// The fields of a merged spec, for a template that is not empty: the
/// template's type first, then at each position the override's field where
/// the override has one and the template's field where it has none. The
/// override can neither change the type nor add a colon to a field.
pub proof fn lemma_merged_fields(template: Seq<char>, override_value: Seq<char>)
    requires
        template.len() > 0,
    ensures
        fields_of(merged(template, override_value)) == seq![fields_of(template)[0]] + overlaid(
            fields_of(template).drop_first(),
            fields_of(override_value),
        ),
        fields_of(merged(template, override_value))[0] == fields_of(template)[0],
        first_colon(merged(template, override_value)) == first_colon(template),
        first_colon(merged(template, override_value)) < merged(template, override_value).len(),
{
    let t = fields_of(template);
    let g = fields_of(override_value);
    lemma_fields_shape(template);
    lemma_fields_shape(override_value);
    let parts = overlaid(t.drop_first(), g);
    let all = seq![t[0]] + parts;
    assert forall|i: int| 0 <= i < all.len() implies colon_free(#[trigger] all[i]) by {
        if i == 0 {
            assert(all[0] == t[0]);
        } else if i - 1 < g.len() {
            assert(all[i] == g[i - 1]);
        } else {
            assert(all[i] == t.drop_first()[i - 1]);
            assert(all[i] == t[i]);
        }
    }
    assert(all.drop_first() =~= parts);
    assert(joined(all) == t[0] + seq![':'] + joined(parts));
    lemma_fields_of_joined(all);
    let m = merged(template, override_value);
    lemma_first_colon(template);
    let k = first_colon(template);
    assert(t[0] == template.take(k));
    assert(colon_free(t[0]));
    assert forall|j: int| 0 <= j < k implies m[j] != ':' by {
        assert(m[j] == t[0][j]);
    }
    assert(m[k] == ':');
    lemma_first_colon_at(m, k);
}

/// A template that is only a type, written with or without its colon, takes
/// the whole override as its argument.
pub proof fn lemma_bare_type_template(kind: Seq<char>, override_value: Seq<char>)
    requires
        kind.len() > 0,
        colon_free(kind),
    ensures
        merged(kind, override_value) == kind + seq![':'] + override_value,
        merged(kind + seq![':'], override_value) == kind + seq![':'] + override_value,
{
    let g = fields_of(override_value);
    lemma_fields_shape(override_value);
    lemma_join_fields(override_value);
    lemma_first_colon(kind);
    assert(fields_of(kind) =~= seq![kind]);
    assert(overlaid(fields_of(kind).drop_first(), g) =~= g);
    let with_colon = kind + seq![':'];
    let k = kind.len() as int;
    assert forall|j: int| 0 <= j < k implies with_colon[j] != ':' by {
        assert(with_colon[j] == kind[j]);
    }
    lemma_first_colon_at(with_colon, k);
    assert(with_colon.take(k) =~= kind);
    assert(with_colon.skip(k + 1) =~= Seq::<char>::empty());
    assert(fields_of(Seq::<char>::empty()) =~= seq![Seq::<char>::empty()]);
    assert(fields_of(with_colon) =~= seq![kind, Seq::<char>::empty()]);
    assert(overlaid(fields_of(with_colon).drop_first(), g) =~= g);
}

/// Merging the merged spec with the same override once more changes nothing,
/// for a template that is not empty.
pub proof fn lemma_merge_idempotent(template: Seq<char>, override_value: Seq<char>)
    requires
        template.len() > 0,
    ensures
        merged(merged(template, override_value), override_value) == merged(
            template,
            override_value,
        ),
{
    let t = fields_of(template);
    let g = fields_of(override_value);
    let once = merged(template, override_value);
    lemma_merged_fields(template, override_value);
    let parts = overlaid(t.drop_first(), g);
    assert(fields_of(once).drop_first() =~= parts);
    assert(overlaid(parts, g) =~= parts);
}

} // verus!
