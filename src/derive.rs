use vstd::prelude::*;

use crate::schema::{DeriveError, FieldDescriptor, Parameters, RecordKind, RecordSchema};
use crate::classify::{FieldOptions, classify_field, field_error, options_of};
use crate::instance::{FieldRule, PartialSchema};

verus! {

/// Options that hold for a whole derivation.
#[derive(Clone, Debug, PartialEq)]
pub struct GlobalOptions {
    pub new_struct_name: String,
    /// Capabilities that the partial schema should derive.
    pub extra_derive: Vec<String>,
    pub default_wrapping: bool,
    pub make_fields_public: bool,
}

/// The result of a derivation: the partial schema's name, the capabilities to
/// attach to it, and the decisions for each field in declaration order.
#[derive(Clone, Debug, PartialEq)]
pub struct Derivation {
    pub partial_name: String,
    pub derives: Vec<String>,
    pub fields: Vec<FieldOptions>,
}

pub open spec fn strings_view(v: Seq<String>) -> Seq<Seq<char>> {
    v.map_values(|s: String| s@)
}

/// Equality comparison, default construction, duplication and debug representation.
pub open spec fn default_capabilities() -> Seq<Seq<char>> {
    seq![
        seq!['C', 'l', 'o', 'n', 'e'],
        seq!['P', 'a', 'r', 't', 'i', 'a', 'l', 'E', 'q'],
        seq!['D', 'e', 'f', 'a', 'u', 'l', 't'],
        seq!['D', 'e', 'b', 'u', 'g'],
    ]
}

/// The name that the partial schema of `s` gets when the parameters give none.
pub open spec fn default_partial_name(s: Seq<char>) -> Seq<char> {
    seq!['O', 'p', 't', 'i', 'o', 'n', 'a', 'l'] + s
}

/// The members of `wanted`, in order, that `present` does not hold.
pub open spec fn missing_from(wanted: Seq<Seq<char>>, present: Seq<Seq<char>>) -> Seq<Seq<char>>
    decreases wanted.len(),
{
    if wanted.len() == 0 {
        Seq::empty()
    } else if present.contains(wanted.last()) {
        missing_from(wanted.drop_last(), present)
    } else {
        missing_from(wanted.drop_last(), present).push(wanted.last())
    }
}

/// The first field error among the first `n` fields, in declaration order.
pub open spec fn first_field_error(fields: Seq<FieldDescriptor>, n: int) -> Option<DeriveError>
    decreases n,
{
    if n <= 0 {
        None
    } else {
        match first_field_error(fields, n - 1) {
            Some(e) => Some(e),
            None => field_error(fields[n - 1], n - 1),
        }
    }
}

/// The error that deriving from `s` gives, if any.
pub open spec fn derivation_error(s: RecordSchema) -> Option<DeriveError> {
    match s.kind {
        RecordKind::Enum | RecordKind::Union => Some(DeriveError::NotARecord),
        RecordKind::Unit => Some(DeriveError::UnitRecord),
        RecordKind::Struct => first_field_error(s.fields@, s.fields.len() as int),
    }
}

/// `d` is the derivation of base schema `s` with parameters `p`.
pub open spec fn derives_to(s: RecordSchema, p: Parameters, d: Derivation) -> bool {
    &&& d.partial_name@ == (match p.new_name {
        Some(n) => n@,
        None => default_partial_name(s.name@),
    })
    &&& strings_view(d.derives@) == missing_from(
        default_capabilities(),
        strings_view(s.capabilities@),
    )
    &&& d.fields.len() == s.fields.len()
    &&& forall|i: int|
        0 <= i < s.fields.len() ==> options_of(
            #[trigger] s.fields@[i],
            i,
            p.default_wrapping,
            true,
            d.fields@[i],
        )
}

impl GlobalOptions {
    /// The options of a derivation from `schema` with parameters `params`.
    pub fn new(params: &Parameters, schema: &RecordSchema) -> (r: GlobalOptions)
        ensures
            r.new_struct_name@ == (match params.new_name {
                Some(n) => n@,
                None => default_partial_name(schema.name@),
            }),
            strings_view(r.extra_derive@) == default_capabilities(),
            r.default_wrapping == params.default_wrapping,
            r.make_fields_public,
    {
        let new_struct_name = match &params.new_name {
            Some(n) => n.clone(),
            None => String::from_str("Optional").concat(schema.name.as_str()),
        };
        proof {
            reveal_strlit("Optional");
            reveal_strlit("Clone");
            reveal_strlit("PartialEq");
            reveal_strlit("Default");
            reveal_strlit("Debug");
        }
        let extra_derive = vec![
            String::from_str("Clone"),
            String::from_str("PartialEq"),
            String::from_str("Default"),
            String::from_str("Debug"),
        ];
        proof {
            assert(extra_derive@[0]@ =~= default_capabilities()[0]);
            assert(extra_derive@[1]@ =~= default_capabilities()[1]);
            assert(extra_derive@[2]@ =~= default_capabilities()[2]);
            assert(extra_derive@[3]@ =~= default_capabilities()[3]);
            assert(strings_view(extra_derive@) =~= default_capabilities());
        }
        GlobalOptions {
            new_struct_name,
            extra_derive,
            default_wrapping: params.default_wrapping,
            make_fields_public: true,
        }
    }

    /// The capabilities to attach: those wanted that `present` does not already hold.
    pub fn derives_to_add(&self, present: &Vec<String>) -> (r: Vec<String>)
        ensures
            strings_view(r@) == missing_from(strings_view(self.extra_derive@), strings_view(present@)),
    {
        let ghost pv = strings_view(present@);
        let ghost wv = strings_view(self.extra_derive@);
        let mut out: Vec<String> = Vec::new();
        let mut i: usize = 0;
        while i < self.extra_derive.len()
            invariant
                i <= self.extra_derive.len(),
                pv == strings_view(present@),
                wv == strings_view(self.extra_derive@),
                strings_view(out@) == missing_from(wv.take(i as int), pv),
            decreases self.extra_derive.len() - i,
        {
            let mut found = false;
            let mut j: usize = 0;
            while j < present.len()
                invariant
                    i < self.extra_derive.len(),
                    j <= present.len(),
                    pv == strings_view(present@),
                    wv == strings_view(self.extra_derive@),
                    found == exists|k: int| 0 <= k < j && pv[k] == wv[i as int],
                decreases present.len() - j,
            {
                proof {
                    assert(pv[j as int] == present@[j as int]@);
                    assert(wv[i as int] == self.extra_derive@[i as int]@);
                }
                if present[j] == self.extra_derive[i] {
                    found = true;
                }
                j = j + 1;
            }
            proof {
                assert(wv.take(i + 1).drop_last() =~= wv.take(i as int));
                assert(wv.take(i + 1).last() == wv[i as int]);
                if found {
                    let k = choose|k: int| 0 <= k < present.len() && pv[k] == wv[i as int];
                    assert(pv.contains(wv[i as int]));
                } else {
                    assert(!pv.contains(wv[i as int]));
                }
            }
            if !found {
                out.push(self.extra_derive[i].clone());
                proof {
                    assert(strings_view(out@) =~= missing_from(wv.take(i as int), pv).push(wv[i as int]));
                }
            }
            i = i + 1;
        }
        proof {
            assert(wv.take(self.extra_derive.len() as int) =~= wv);
        }
        out
    }
}

/// Derives the partial schema of `schema`: classifies every field in declaration
/// order (the first failing field aborts the derivation), names the partial
/// schema and lists the capabilities to attach.
pub fn derive_partial(schema: &RecordSchema, params: &Parameters) -> (r: Result<Derivation, DeriveError>)
    ensures
        match derivation_error(*schema) {
            Some(e) => r == Err::<Derivation, DeriveError>(e),
            None => r is Ok && derives_to(*schema, *params, r->Ok_0),
        },
{
    match schema.kind {
        RecordKind::Enum | RecordKind::Union => return Err(DeriveError::NotARecord),
        RecordKind::Unit => return Err(DeriveError::UnitRecord),
        RecordKind::Struct => {},
    }
    let options = GlobalOptions::new(params, schema);
    let mut fields: Vec<FieldOptions> = Vec::new();
    let n = schema.fields.len();
    let mut i: usize = 0;
    while i < n
        invariant
            n == schema.fields.len(),
            i <= n,
            schema.kind == RecordKind::Struct,
            options.default_wrapping == params.default_wrapping,
            options.make_fields_public,
            first_field_error(schema.fields@, i as int) is None,
            fields.len() == i,
            forall|k: int|
                0 <= k < i ==> options_of(
                    #[trigger] schema.fields@[k],
                    k,
                    params.default_wrapping,
                    true,
                    fields@[k],
                ),
        decreases n - i,
    {
        match classify_field(&schema.fields[i], i, options.default_wrapping, options.make_fields_public) {
            Ok(o) => {
                fields.push(o);
            },
            Err(e) => {
                proof {
                    lemma_first_error_stays(schema.fields@, i as int + 1, n as int);
                }
                return Err(e);
            },
        }
        i = i + 1;
    }
    let derives = options.derives_to_add(&schema.capabilities);
    Ok(Derivation { partial_name: options.new_struct_name, derives, fields })
}

/// Once a field error is found among the first `m` fields, it stays the first one.
proof fn lemma_first_error_stays(fields: Seq<FieldDescriptor>, m: int, n: int)
    requires
        0 <= m <= n,
        first_field_error(fields, m) is Some,
    ensures
        first_field_error(fields, n) == first_field_error(fields, m),
    decreases n - m,
{
    if m < n {
        lemma_first_error_stays(fields, m, n - 1);
    }
}

/// Deriving twice from the same base schema with the same parameters gives the
/// same partial schema and the same per-field decisions.
pub proof fn lemma_derivation_deterministic(
    s: RecordSchema,
    p: Parameters,
    d1: Derivation,
    d2: Derivation,
)
    requires
        derives_to(s, p, d1),
        derives_to(s, p, d2),
    ensures
        d1.partial_name@ == d2.partial_name@,
        strings_view(d1.derives@) == strings_view(d2.derives@),
        d1.fields.len() == d2.fields.len(),
        forall|i: int|
            0 <= i < d1.fields.len() ==> {
                let (a, b) = (#[trigger] d1.fields@[i], d2.fields@[i]);
                &&& a.field_ref == b.field_ref
                &&& a.class == b.class
                &&& a.guard == b.guard
                &&& a.substitute == b.substitute
                &&& a.kept_attrs@ == b.kept_attrs@
                &&& a.public == b.public
            },
{
    assert forall|i: int| 0 <= i < d1.fields.len() implies {
        let (a, b) = (#[trigger] d1.fields@[i], d2.fields@[i]);
        &&& a.field_ref == b.field_ref
        &&& a.class == b.class
        &&& a.guard == b.guard
        &&& a.substitute == b.substitute
        &&& a.kept_attrs@ == b.kept_attrs@
        &&& a.public == b.public
    } by {
        assert(options_of(s.fields@[i], i, p.default_wrapping, true, d1.fields@[i]));
        assert(options_of(s.fields@[i], i, p.default_wrapping, true, d2.fields@[i]));
    }
}

impl Derivation {
    /// The partial schema that the generated operations work on, given for each
    /// field whether its guard is active (read only for guarded fields) and the
    /// nested partial schema of each nested field.
    pub fn operations(&self, active: &Vec<bool>, nested: Vec<Option<Box<PartialSchema>>>) -> (r: PartialSchema)
        requires
            active.len() == self.fields.len(),
            nested.len() == self.fields.len(),
        ensures
            r.fields.len() == self.fields.len(),
            forall|i: int|
                0 <= i < self.fields.len() ==> {
                    &&& (#[trigger] r.fields@[i]).class == self.fields@[i].class
                    &&& r.fields@[i].active == (self.fields@[i].guard is None || active@[i])
                    &&& r.fields@[i].nested == nested@[i]
                },
    {
        let ghost n0 = nested@;
        let mut rest = nested;
        let mut fields: Vec<FieldRule> = Vec::new();
        let n = self.fields.len();
        let mut i: usize = 0;
        while i < n
            invariant
                n == self.fields.len(),
                n == active.len(),
                n0.len() == n,
                i <= n,
                rest@ == n0.subrange(i as int, n as int),
                fields.len() == i,
                forall|j: int|
                    0 <= j < i ==> {
                        &&& (#[trigger] fields@[j]).class == self.fields@[j].class
                        &&& fields@[j].active == (self.fields@[j].guard is None || active@[j])
                        &&& fields@[j].nested == n0[j]
                    },
            decreases n - i,
        {
            let o = &self.fields[i];
            let on = o.guard.is_none() || active[i];
            let sub = rest.remove(0);
            fields.push(FieldRule { class: o.class, active: on, nested: sub });
            proof {
                assert(rest@ =~= n0.subrange(i + 1, n as int));
            }
            i = i + 1;
        }
        PartialSchema { fields }
    }
}

} // verus!
