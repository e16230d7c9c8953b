use vstd::prelude::*;

use crate::classify::{FieldClass, CompletenessRule, ConversionRule, MergeRule};

verus! {

broadcast use vstd::std_specs::vec::group_vec_axioms;

/// A field value of a base or partial instance.
#[derive(Debug, PartialEq)]
pub enum Value {
    Int(i64),
    Text(String),
    /// An optional value that is absent.
    Absent,
    /// An optional value that is present.
    Present(Box<Value>),
    /// An instance of a nested record, one value per compiled field.
    Record(Vec<Value>),
}

/// How the generated operations treat one field of a partial schema.
#[derive(Debug)]
pub struct FieldRule {
    pub class: FieldClass,
    /// Whether the field's guard, if any, is active, so that the field is compiled in.
    pub active: bool,
    /// The nested partial schema of a nested field.
    pub nested: Option<Box<PartialSchema>>,
}

/// A partial schema as the generated operations see it. An instance holds one
/// value for each active field, in declaration order.
#[derive(Debug)]
pub struct PartialSchema {
    pub fields: Vec<FieldRule>,
}

impl PartialSchema {
    /// The number of active fields among the first `i`: the position, in an
    /// instance, of the value of field `i`.
    pub open spec fn slot(self, i: int) -> int
        decreases i,
    {
        if i <= 0 {
            0
        } else {
            self.slot(i - 1) + if self.fields@[i - 1].active { 1int } else { 0 }
        }
    }

    /// The number of values in an instance.
    pub open spec fn width(self) -> int {
        self.slot(self.fields.len() as int)
    }
}

/// Whether partial instance `p` passes the checks of schema `s`. With `strict`
/// false this is the completeness predicate: an absent wrapped nested field is
/// accepted. With `strict` true it is the conversion's pre-check: that field
/// must be present, and nested values must themselves convert.
pub open spec fn checks(s: PartialSchema, p: Seq<Value>, strict: bool) -> bool
    decreases s,
{
    &&& p.len() == s.width()
    &&& forall|i: int|
        0 <= i < s.fields.len() && (#[trigger] s.fields@[i]).active ==> field_checks(
            s.fields@[i],
            p[s.slot(i)],
            strict,
        )
}

/// Whether value `v` of a field with rule `f` passes the checks.
pub open spec fn field_checks(f: FieldRule, v: Value, strict: bool) -> bool
    decreases f,
{
    match f.class.completeness_spec() {
        CompletenessRule::Present => v is Present,
        CompletenessRule::AbsentOrComplete => match v {
            Value::Absent => !strict,
            Value::Present(inner) => nested_checks(f.nested, *inner, strict),
            _ => false,
        },
        CompletenessRule::Complete => nested_checks(f.nested, v, strict),
        CompletenessRule::Always => true,
    }
}

/// Whether `v` is a record that passes the checks of nested schema `n`.
pub open spec fn nested_checks(n: Option<Box<PartialSchema>>, v: Value, strict: bool) -> bool
    decreases n,
{
    match (n, v) {
        (Some(n), Value::Record(r)) => checks(*n, r@, strict),
        _ => false,
    }
}

/// Whether `out` is the base instance that converting partial instance `p` of `s` yields.
pub open spec fn converts_to(s: PartialSchema, p: Seq<Value>, out: Seq<Value>) -> bool
    decreases s,
{
    &&& out.len() == s.width()
    &&& forall|i: int|
        0 <= i < s.fields.len() && (#[trigger] s.fields@[i]).active ==> field_converts_to(
            s.fields@[i],
            p[s.slot(i)],
            out[s.slot(i)],
        )
}

pub open spec fn field_converts_to(f: FieldRule, v: Value, o: Value) -> bool
    decreases f,
{
    match f.class.conversion_spec() {
        ConversionRule::AsIs => o == v,
        ConversionRule::Unwrap => v is Present && *v->Present_0 == o,
        ConversionRule::UnwrapConvert => v is Present && nested_converts_to(f.nested, *v->Present_0, o),
        ConversionRule::Convert => nested_converts_to(f.nested, v, o),
    }
}

pub open spec fn nested_converts_to(n: Option<Box<PartialSchema>>, v: Value, o: Value) -> bool
    decreases n,
{
    match (n, v, o) {
        (Some(n), Value::Record(r), Value::Record(q)) => converts_to(*n, r@, q@),
        _ => false,
    }
}

/// Whether merging partial instance `p` of `s` onto base instance `old` gives `new`.
pub open spec fn merges_to(s: PartialSchema, p: Seq<Value>, old: Seq<Value>, new: Seq<Value>) -> bool
    decreases s,
{
    &&& new.len() == old.len()
    &&& forall|i: int|
        0 <= i < s.fields.len() && (#[trigger] s.fields@[i]).active ==> field_merges_to(
            s.fields@[i],
            p[s.slot(i)],
            old[s.slot(i)],
            new[s.slot(i)],
        )
}

pub open spec fn field_merges_to(f: FieldRule, v: Value, a: Value, b: Value) -> bool
    decreases f,
{
    match f.class.merge_spec() {
        MergeRule::Overwrite => b == v,
        MergeRule::OverwriteIfPresent => if v is Present { b == v } else { b == a },
        MergeRule::OverwriteWithInnerIfPresent => if v is Present { b == *v->Present_0 } else { b == a },
        MergeRule::Merge => nested_merges_to(f.nested, v, a, b),
        MergeRule::MergeInnerIfPresent => if v is Present {
            nested_merges_to(f.nested, *v->Present_0, a, b)
        } else {
            b == a
        },
        MergeRule::ConvertOrMerge => match (v, a) {
            (Value::Present(x), Value::Absent) => match (f.nested, *x) {
                (Some(n), Value::Record(r)) => if checks(*n, r@, true) {
                    b is Present && match *b->Present_0 {
                        Value::Record(q) => converts_to(*n, r@, q@),
                        _ => false,
                    }
                } else {
                    b == a
                },
                _ => b == a,
            },
            (Value::Present(x), Value::Present(y)) => b is Present && nested_merges_to(f.nested, *x, *y, *b->Present_0),
            _ => b == a,
        },
    }
}

/// Merging nested record `v` onto nested record `a`; any other pair of values,
/// or records of the wrong width, leave `a` as it is.
pub open spec fn nested_merges_to(n: Option<Box<PartialSchema>>, v: Value, a: Value, b: Value) -> bool
    decreases n,
{
    match (n, v, a) {
        (Some(n), Value::Record(r), Value::Record(o)) => if r.len() == n.width() && o.len() == n.width() {
            b is Record && merges_to(*n, r@, o@, b->Record_0@)
        } else {
            b == a
        },
        _ => b == a,
    }
}

proof fn lemma_slot_bounds(s: PartialSchema, i: int)
    requires
        0 <= i,
    ensures
        0 <= s.slot(i) <= i,
    decreases i,
{
    if i > 0 {
        lemma_slot_bounds(s, i - 1);
    }
}

proof fn lemma_slot_monotone(s: PartialSchema, i: int, j: int)
    requires
        0 <= i <= j <= s.fields.len(),
    ensures
        0 <= s.slot(i) <= s.slot(j),
        s.slot(j) - s.slot(i) <= j - i,
    decreases j - i,
{
    lemma_slot_bounds(s, i);
    if i < j {
        lemma_slot_monotone(s, i, j - 1);
    }
}

proof fn lemma_slot_step(s: PartialSchema, i: int)
    requires
        0 <= i < s.fields.len(),
        s.fields@[i].active,
    ensures
        s.slot(i) < s.width(),
{
    lemma_slot_monotone(s, i + 1, s.fields.len() as int);
}

impl PartialSchema {
    /// Runs the checks of `checks` on `p`.
    fn run_checks(&self, p: &Vec<Value>, strict: bool) -> (r: bool)
        ensures
            r == checks(*self, p@, strict),
        decreases self,
    {
        let n = self.fields.len();
        let mut i: usize = 0;
        let mut k: usize = 0;
        while i < n
            invariant
                n == self.fields.len(),
                i <= n,
                k == self.slot(i as int),
                k <= p.len(),
                forall|j: int|
                    0 <= j < i && (#[trigger] self.fields@[j]).active ==> field_checks(
                        self.fields@[j],
                        p@[self.slot(j)],
                        strict,
                    ),
            decreases n - i,
        {
            let f = &self.fields[i];
            if f.active {
                if k >= p.len() {
                    proof {
                        lemma_slot_step(*self, i as int);
                    }
                    return false;
                }
                let ok = match f.class.completeness() {
                    CompletenessRule::Present => match &p[k] {
                        Value::Present(_) => true,
                        _ => false,
                    },
                    CompletenessRule::AbsentOrComplete => match &p[k] {
                        Value::Absent => !strict,
                        Value::Present(inner) => run_nested_checks(&f.nested, inner, strict),
                        _ => false,
                    },
                    CompletenessRule::Complete => run_nested_checks(&f.nested, &p[k], strict),
                    CompletenessRule::Always => true,
                };
                if !ok {
                    proof {
                        assert(!field_checks(self.fields@[i as int], p@[self.slot(i as int)], strict));
                    }
                    return false;
                }
                k = k + 1;
            }
            i = i + 1;
        }
        k == p.len()
    }

    /// The completeness predicate: whether `p` holds enough to rebuild a base instance.
    pub fn is_complete(&self, p: &Vec<Value>) -> (r: bool)
        ensures
            r == checks(*self, p@, false),
    {
        self.run_checks(p, false)
    }
}

fn run_nested_checks(n: &Option<Box<PartialSchema>>, v: &Value, strict: bool) -> (r: bool)
    ensures
        r == nested_checks(*n, *v, strict),
    decreases n,
{
    match (n, v) {
        (Some(n), Value::Record(r)) => n.run_checks(r, strict),
        _ => false,
    }
}

impl PartialSchema {
    /// The number of values in an instance of this schema.
    pub fn instance_width(&self) -> (w: usize)
        ensures
            w == self.width(),
    {
        let n = self.fields.len();
        let mut i: usize = 0;
        let mut k: usize = 0;
        while i < n
            invariant
                n == self.fields.len(),
                i <= n,
                k == self.slot(i as int),
                k <= i,
            decreases n - i,
        {
            if self.fields[i].active {
                k = k + 1;
            }
            i = i + 1;
        }
        k
    }

    /// Builds the base instance from `p`, which passes the conversion's pre-check.
    fn extract(&self, p: Vec<Value>) -> (out: Vec<Value>)
        requires
            checks(*self, p@, true),
        ensures
            converts_to(*self, p@, out@),
        decreases self,
    {
        let ghost p0 = p@;
        let mut rest = p;
        let mut out: Vec<Value> = Vec::new();
        let n = self.fields.len();
        let mut i: usize = 0;
        while i < n
            invariant
                n == self.fields.len(),
                i <= n,
                checks(*self, p0, true),
                out.len() == self.slot(i as int),
                rest@ == p0.subrange(self.slot(i as int), p0.len() as int),
                forall|j: int|
                    0 <= j < i && (#[trigger] self.fields@[j]).active ==> field_converts_to(
                        self.fields@[j],
                        p0[self.slot(j)],
                        out@[self.slot(j)],
                    ),
            decreases n - i,
        {
            let f = &self.fields[i];
            if f.active {
                proof {
                    lemma_slot_step(*self, i as int);
                    assert(field_checks(self.fields@[i as int], p0[self.slot(i as int)], true));
                }
                let v = rest.remove(0);
                proof {
                    assert(v == p0[self.slot(i as int)]);
                }
                let o = extract_field(f, v);
                out.push(o);
                proof {
                    assert(rest@ =~= p0.subrange(self.slot(i as int + 1), p0.len() as int));
                    assert forall|j: int|
                        0 <= j < i + 1 && (#[trigger] self.fields@[j]).active implies field_converts_to(
                            self.fields@[j],
                            p0[self.slot(j)],
                            out@[self.slot(j)],
                        ) by {
                        if j < i {
                            lemma_slot_monotone(*self, j, i as int);
                            lemma_slot_monotone(*self, j + 1, i as int);
                            assert(self.slot(j + 1) == self.slot(j) + 1);
                        }
                    }
                }
            }
            i = i + 1;
        }
        out
    }

    /// The fallible conversion from partial to base: every pre-check runs first,
    /// in field order; on failure `p` comes back untouched.
    pub fn try_convert(&self, p: Vec<Value>) -> (r: Result<Vec<Value>, Vec<Value>>)
        ensures
            r is Ok <==> checks(*self, p@, true),
            r is Ok ==> converts_to(*self, p@, r->Ok_0@),
            r is Err ==> r->Err_0 == p,
    {
        if !self.run_checks(&p, true) {
            return Err(p);
        }
        Ok(self.extract(p))
    }

    /// The merge operation: applies `p` onto `base` in place, field by field.
    pub fn apply_to(&self, p: Vec<Value>, base: &mut Vec<Value>)
        requires
            p.len() == self.width(),
            old(base).len() == self.width(),
        ensures
            merges_to(*self, p@, old(base)@, final(base)@),
        decreases self,
    {
        let ghost p0 = p@;
        let ghost b0 = base@;
        let mut rest = p;
        let n = self.fields.len();
        let mut i: usize = 0;
        let mut k: usize = 0;
        while i < n
            invariant
                n == self.fields.len(),
                i <= n,
                k == self.slot(i as int),
                p0.len() == self.width(),
                b0.len() == self.width(),
                base.len() == b0.len(),
                rest@ == p0.subrange(k as int, p0.len() as int),
                forall|j: int| k <= j < b0.len() ==> base@[j] == b0[j],
                forall|j: int|
                    0 <= j < i && (#[trigger] self.fields@[j]).active ==> field_merges_to(
                        self.fields@[j],
                        p0[self.slot(j)],
                        b0[self.slot(j)],
                        base@[self.slot(j)],
                    ),
            decreases n - i,
        {
            let f = &self.fields[i];
            if f.active {
                proof {
                    lemma_slot_step(*self, i as int);
                }
                let ghost before = base@;
                let v = rest.remove(0);
                let a = base.remove(k);
                proof {
                    assert(v == p0[k as int]);
                    assert(a == b0[k as int]);
                }
                let b = merge_field(f, v, a);
                base.insert(k, b);
                proof {
                    assert(base@ =~= before.update(k as int, b));
                    assert(rest@ =~= p0.subrange(k + 1, p0.len() as int));
                    assert forall|j: int|
                        0 <= j < i + 1 && (#[trigger] self.fields@[j]).active implies field_merges_to(
                            self.fields@[j],
                            p0[self.slot(j)],
                            b0[self.slot(j)],
                            base@[self.slot(j)],
                        ) by {
                        if j < i {
                            lemma_slot_monotone(*self, j, i as int);
                            lemma_slot_monotone(*self, j + 1, i as int);
                            assert(self.slot(j + 1) == self.slot(j) + 1);
                            assert(base@[self.slot(j)] == before[self.slot(j)]);
                        } else {
                            assert(j == i);
                            assert(base@[k as int] == b);
                        }
                    }
                }
                k = k + 1;
            }
            i = i + 1;
        }
        proof {
            assert forall|j: int|
                0 <= j < n && (#[trigger] self.fields@[j]).active implies field_merges_to(
                    self.fields@[j],
                    p0[self.slot(j)],
                    b0[self.slot(j)],
                    base@[self.slot(j)],
                ) by {}
        }
    }
}

fn extract_field(f: &FieldRule, v: Value) -> (o: Value)
    requires
        field_checks(*f, v, true),
    ensures
        field_converts_to(*f, v, o),
    decreases f,
{
    match f.class.conversion() {
        ConversionRule::AsIs => v,
        ConversionRule::Unwrap => match v {
            Value::Present(x) => *x,
            other => other,
        },
        ConversionRule::UnwrapConvert => match v {
            Value::Present(x) => extract_nested(&f.nested, *x),
            other => other,
        },
        ConversionRule::Convert => extract_nested(&f.nested, v),
    }
}

fn extract_nested(n: &Option<Box<PartialSchema>>, v: Value) -> (o: Value)
    requires
        nested_checks(*n, v, true),
    ensures
        nested_converts_to(*n, v, o),
    decreases n,
{
    match n {
        Some(s) => match v {
            Value::Record(r) => Value::Record(s.extract(r)),
            other => other,
        },
        None => v,
    }
}

fn merge_field(f: &FieldRule, v: Value, a: Value) -> (b: Value)
    ensures
        field_merges_to(*f, v, a, b),
    decreases f,
{
    match f.class.merge() {
        MergeRule::Overwrite => v,
        MergeRule::OverwriteIfPresent => match v {
            Value::Present(x) => Value::Present(x),
            _ => a,
        },
        MergeRule::OverwriteWithInnerIfPresent => match v {
            Value::Present(x) => *x,
            _ => a,
        },
        MergeRule::Merge => merge_nested(&f.nested, v, a),
        MergeRule::MergeInnerIfPresent => match v {
            Value::Present(x) => merge_nested(&f.nested, *x, a),
            _ => a,
        },
        MergeRule::ConvertOrMerge => match v {
            Value::Present(x) => match a {
                Value::Absent => match &f.nested {
                    Some(n) => match *x {
                        Value::Record(r) => match n.try_convert(r) {
                            Ok(q) => Value::Present(Box::new(Value::Record(q))),
                            Err(_) => Value::Absent,
                        },
                        _ => Value::Absent,
                    },
                    None => Value::Absent,
                },
                Value::Present(y) => Value::Present(Box::new(merge_nested(&f.nested, *x, *y))),
                other => other,
            },
            _ => a,
        },
    }
}

fn merge_nested(n: &Option<Box<PartialSchema>>, v: Value, a: Value) -> (b: Value)
    ensures
        nested_merges_to(*n, v, a, b),
    decreases n,
{
    match n {
        Some(s) => match v {
            Value::Record(r) => match a {
                Value::Record(o) => {
                    let w = s.instance_width();
                    if r.len() == w && o.len() == w {
                        let mut o = o;
                        s.apply_to(r, &mut o);
                        Value::Record(o)
                    } else {
                        Value::Record(o)
                    }
                },
                other => other,
            },
            _ => a,
        },
        None => a,
    }
}

} // verus!
