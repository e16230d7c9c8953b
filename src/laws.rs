use vstd::prelude::*;

use crate::instance::{PartialSchema, Value, checks, converts_to, merges_to};
use crate::instance::{field_checks, field_converts_to, field_merges_to};

verus! {

/// No active wrapped nested field of `p`, at any depth, is absent.
pub open spec fn no_absent_optional_nested(s: PartialSchema, p: Seq<Value>) -> bool
    decreases s,
{
    forall|i: int|
        0 <= i < s.fields.len() && (#[trigger] s.fields@[i]).active ==> {
            let f = s.fields@[i];
            let v = p[s.slot(i)];
            match (f.class.wrapped, f.class.nested) {
                (true, true) => match v {
                    Value::Absent => false,
                    Value::Present(x) => match (f.nested, *x) {
                        (Some(n), Value::Record(r)) => no_absent_optional_nested(*n, r@),
                        _ => true,
                    },
                    _ => true,
                },
                (false, true) => match (f.nested, v) {
                    (Some(n), Value::Record(r)) => no_absent_optional_nested(*n, r@),
                    _ => true,
                },
                _ => true,
            }
        }
}

/// A complete partial instance converts, unless some wrapped nested field in it
/// is absent: completeness accepts such a field and the conversion's pre-check
/// does not.
pub proof fn lemma_complete_converts(s: PartialSchema, p: Seq<Value>)
    requires
        checks(s, p, false),
        no_absent_optional_nested(s, p),
    ensures
        checks(s, p, true),
    decreases s,
{
    assert forall|i: int|
        0 <= i < s.fields.len() && (#[trigger] s.fields@[i]).active implies field_checks(
            s.fields@[i],
            p[s.slot(i)],
            true,
        ) by {
        let f = s.fields@[i];
        let v = p[s.slot(i)];
        assert(field_checks(f, v, false));
        if f.class.nested {
            let inner = if f.class.wrapped { *v->Present_0 } else { v };
            if let (Some(n), Value::Record(r)) = (f.nested, inner) {
                lemma_complete_converts(*n, r@);
            }
        }
    }
}

/// Whatever passes the conversion's pre-check is complete; so an incomplete
/// partial instance never converts, and the conversion hands it back unchanged.
pub proof fn lemma_incomplete_fails(s: PartialSchema, p: Seq<Value>)
    requires
        !checks(s, p, false),
    ensures
        !checks(s, p, true),
{
    if checks(s, p, true) {
        lemma_strict_checks_complete(s, p);
    }
}

proof fn lemma_strict_checks_complete(s: PartialSchema, p: Seq<Value>)
    requires
        checks(s, p, true),
    ensures
        checks(s, p, false),
    decreases s,
{
    assert forall|i: int|
        0 <= i < s.fields.len() && (#[trigger] s.fields@[i]).active implies field_checks(
            s.fields@[i],
            p[s.slot(i)],
            false,
        ) by {
        let f = s.fields@[i];
        let v = p[s.slot(i)];
        assert(field_checks(f, v, true));
        if f.class.nested {
            let inner = if f.class.wrapped { *v->Present_0 } else { v };
            if let (Some(n), Value::Record(r)) = (f.nested, inner) {
                lemma_strict_checks_complete(*n, r@);
            }
        }
    }
}

/// A partial instance whose nested field holds a nested value that is itself
/// incomplete is incomplete.
pub proof fn lemma_incomplete_nested(s: PartialSchema, p: Seq<Value>, i: int)
    requires
        0 <= i < s.fields.len(),
        s.fields@[i].active,
        s.fields@[i].class.nested,
        s.fields@[i].nested is Some,
        s.fields@[i].class.wrapped ==> p[s.slot(i)] is Present,
        ({
            let v = p[s.slot(i)];
            let inner = if s.fields@[i].class.wrapped { *v->Present_0 } else { v };
            inner is Record && !checks(*s.fields@[i].nested->Some_0, inner->Record_0@, false)
        }),
    ensures
        !checks(s, p, false),
{
    assert(!field_checks(s.fields@[i], p[s.slot(i)], false));
}

proof fn lemma_slot_onto(s: PartialSchema, n: int, k: int)
    requires
        0 <= n <= s.fields.len(),
        0 <= k < s.slot(n),
    ensures
        exists|i: int| 0 <= i < n && (#[trigger] s.fields@[i]).active && s.slot(i) == k,
    decreases n,
{
    if k < s.slot(n - 1) {
        lemma_slot_onto(s, n - 1, k);
        let i = choose|i: int| 0 <= i < n - 1 && (#[trigger] s.fields@[i]).active && s.slot(i) == k;
        assert(0 <= i < n && s.fields@[i].active && s.slot(i) == k);
    } else {
        assert(s.fields@[n - 1].active && s.slot(n - 1) == k);
    }
}

/// Merging the same partial instance twice gives what merging it once gave,
/// when no active field is nested (every field is overwritten or left alone).
pub proof fn lemma_overwrite_merge_idempotent(
    s: PartialSchema,
    p: Seq<Value>,
    b0: Seq<Value>,
    b1: Seq<Value>,
    b2: Seq<Value>,
)
    requires
        forall|i: int|
            0 <= i < s.fields.len() && (#[trigger] s.fields@[i]).active ==> !s.fields@[i].class.nested,
        b0.len() == s.width(),
        merges_to(s, p, b0, b1),
        merges_to(s, p, b1, b2),
    ensures
        b2 == b1,
{
    assert forall|k: int| 0 <= k < b1.len() implies b2[k] == b1[k] by {
        lemma_slot_onto(s, s.fields.len() as int, k);
        let i = choose|i: int|
            0 <= i < s.fields.len() && (#[trigger] s.fields@[i]).active && s.slot(i) == k;
        assert(field_merges_to(s.fields@[i], p[k], b0[k], b1[k]));
        assert(field_merges_to(s.fields@[i], p[k], b1[k], b2[k]));
    }
    assert(b2 =~= b1);
}

/// A base instance `b`, lifted field by field into a fully populated partial
/// instance `p` (wrapped fields made present), converts back to exactly `b`,
/// for a schema without nested fields.
pub proof fn lemma_round_trip(s: PartialSchema, b: Seq<Value>, p: Seq<Value>, out: Seq<Value>)
    requires
        forall|i: int| 0 <= i < s.fields.len() ==> !(#[trigger] s.fields@[i]).class.nested,
        b.len() == s.width(),
        p.len() == s.width(),
        forall|i: int|
            0 <= i < s.fields.len() && (#[trigger] s.fields@[i]).active ==> p[s.slot(i)] == (if s.fields@[i].class.wrapped {
                Value::Present(Box::new(b[s.slot(i)]))
            } else {
                b[s.slot(i)]
            }),
    ensures
        checks(s, p, true),
        converts_to(s, p, out) ==> out == b,
{
    assert forall|i: int|
        0 <= i < s.fields.len() && (#[trigger] s.fields@[i]).active implies field_checks(
            s.fields@[i],
            p[s.slot(i)],
            true,
        ) by {}
    if converts_to(s, p, out) {
        assert forall|k: int| 0 <= k < b.len() implies out[k] == b[k] by {
            lemma_slot_onto(s, s.fields.len() as int, k);
            let i = choose|i: int|
                0 <= i < s.fields.len() && (#[trigger] s.fields@[i]).active && s.slot(i) == k;
            assert(field_converts_to(s.fields@[i], p[k], out[k]));
        }
        assert(out =~= b);
    }
}

proof fn lemma_same_slots(s1: PartialSchema, s2: PartialSchema, i: int, j: int)
    requires
        s1.fields.len() == s2.fields.len(),
        0 <= i < s1.fields.len(),
        !s1.fields@[i].active,
        !s2.fields@[i].active,
        forall|m: int| 0 <= m < s1.fields.len() && m != i ==> s1.fields@[m] == s2.fields@[m],
        0 <= j <= s1.fields.len(),
    ensures
        s1.slot(j) == s2.slot(j),
    decreases j,
{
    if j > 0 {
        lemma_same_slots(s1, s2, i, j - 1);
    }
}

/// A field whose guard is inactive takes no part in the completeness predicate,
/// the conversion or the merge: whatever its rule says, the outcomes are those
/// of a schema that differs from `s1` only in that field's rule.
pub proof fn lemma_inactive_field_ignored(
    s1: PartialSchema,
    s2: PartialSchema,
    i: int,
    p: Seq<Value>,
    out: Seq<Value>,
    old: Seq<Value>,
    new: Seq<Value>,
    strict: bool,
)
    requires
        s1.fields.len() == s2.fields.len(),
        0 <= i < s1.fields.len(),
        !s1.fields@[i].active,
        !s2.fields@[i].active,
        forall|m: int| 0 <= m < s1.fields.len() && m != i ==> s1.fields@[m] == s2.fields@[m],
    ensures
        checks(s1, p, strict) == checks(s2, p, strict),
        converts_to(s1, p, out) == converts_to(s2, p, out),
        merges_to(s1, p, old, new) == merges_to(s2, p, old, new),
{
    assert forall|j: int| 0 <= j <= s1.fields.len() implies s1.slot(j) == s2.slot(j) by {
        lemma_same_slots(s1, s2, i, j);
    }
    assert forall|j: int| 0 <= j < s1.fields.len() && j != i implies s1.fields@[j] == s2.fields@[j] by {}
}

} // verus!
