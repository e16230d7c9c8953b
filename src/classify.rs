use vstd::prelude::*;

use crate::schema::{FieldAttr, FieldDescriptor, DeriveError, is_type_option};
use crate::schema::{shape_supported, shape_is_option};

verus! {

/// How generated code addresses a field.
#[derive(Clone, Copy, Debug, PartialEq, Eq, Structural)]
pub enum FieldRef {
    /// By the field's declared name.
    Named,
    /// By its position in a tuple-like record.
    Index(usize),
}

/// The classification triple of a field.
#[derive(Clone, Copy, Debug, PartialEq, Eq, Structural)]
pub struct FieldClass {
    /// The declared type is already optional.
    pub base_optional: bool,
    /// The partial field wraps its type in an optional.
    pub wrapped: bool,
    /// The partial field uses a substitute (nested partial) type.
    pub nested: bool,
}

/// What a field contributes to the completeness predicate.
#[derive(Clone, Copy, Debug, PartialEq, Eq, Structural)]
pub enum CompletenessRule {
    /// The field holds a present value.
    Present,
    /// The field is absent, or present with a complete inner value.
    AbsentOrComplete,
    /// The field's own completeness predicate holds.
    Complete,
    /// Always satisfied.
    Always,
}

/// The pre-check and the value extraction of a field in the fallible conversion.
#[derive(Clone, Copy, Debug, PartialEq, Eq, Structural)]
pub enum ConversionRule {
    /// No check; the value is used as it is.
    AsIs,
    /// The field must be present; its value is unwrapped.
    Unwrap,
    /// The field must be present and its inner value complete; it is unwrapped and converted.
    UnwrapConvert,
    /// The field must be complete; it is converted.
    Convert,
}

/// How a partial field is applied onto the base field by the merge operation.
#[derive(Clone, Copy, Debug, PartialEq, Eq, Structural)]
pub enum MergeRule {
    /// Optional base, nested partial: convert into an absent base field (a failed
    /// conversion is ignored), merge into a present one, nothing when the partial is absent.
    ConvertOrMerge,
    /// Optional base, unwrapped: overwrite when the partial value is present.
    OverwriteIfPresent,
    /// Mandatory nested field: always merge.
    Merge,
    /// Mandatory plain field: always overwrite.
    Overwrite,
    /// Wrapped nested field: merge the inner value when present.
    MergeInnerIfPresent,
    /// Wrapped plain field: overwrite with the inner value when present.
    OverwriteWithInnerIfPresent,
}

/// The type of a partial field.
#[derive(Clone, Copy, Debug, PartialEq, Eq, Structural)]
pub enum PartialType {
    /// The declared type, unchanged.
    Declared,
    /// The type of the rename annotation at this position.
    Substitute(usize),
    /// The declared type, made optional.
    OptionalDeclared,
    /// The type of the rename annotation at this position, made optional.
    OptionalSubstitute(usize),
}

impl FieldClass {
    pub open spec fn completeness_spec(self) -> CompletenessRule {
        match (self.wrapped, self.nested) {
            (true, false) => CompletenessRule::Present,
            (true, true) => CompletenessRule::AbsentOrComplete,
            (false, true) => CompletenessRule::Complete,
            (false, false) => CompletenessRule::Always,
        }
    }

    pub open spec fn conversion_spec(self) -> ConversionRule {
        match (self.wrapped, self.nested) {
            (true, false) => ConversionRule::Unwrap,
            (true, true) => ConversionRule::UnwrapConvert,
            (false, true) => ConversionRule::Convert,
            (false, false) => ConversionRule::AsIs,
        }
    }

    pub open spec fn merge_spec(self) -> MergeRule {
        match (self.base_optional, self.wrapped, self.nested) {
            (true, false, true) => MergeRule::ConvertOrMerge,
            (true, false, false) => MergeRule::OverwriteIfPresent,
            (false, false, true) => MergeRule::Merge,
            (false, false, false) => MergeRule::Overwrite,
            (_, true, true) => MergeRule::MergeInnerIfPresent,
            (_, true, false) => MergeRule::OverwriteWithInnerIfPresent,
        }
    }

    /// The field's contribution to the completeness predicate.
    pub fn completeness(&self) -> (r: CompletenessRule)
        ensures
            r == self.completeness_spec(),
    {
        match (self.wrapped, self.nested) {
            (true, false) => CompletenessRule::Present,
            (true, true) => CompletenessRule::AbsentOrComplete,
            (false, true) => CompletenessRule::Complete,
            (false, false) => CompletenessRule::Always,
        }
    }

    /// The field's check and extraction in the fallible conversion.
    pub fn conversion(&self) -> (r: ConversionRule)
        ensures
            r == self.conversion_spec(),
    {
        match (self.wrapped, self.nested) {
            (true, false) => ConversionRule::Unwrap,
            (true, true) => ConversionRule::UnwrapConvert,
            (false, true) => ConversionRule::Convert,
            (false, false) => ConversionRule::AsIs,
        }
    }

    /// The field's behaviour in the merge operation.
    pub fn merge(&self) -> (r: MergeRule)
        ensures
            r == self.merge_spec(),
    {
        match (self.base_optional, self.wrapped, self.nested) {
            (true, false, true) => MergeRule::ConvertOrMerge,
            (true, false, false) => MergeRule::OverwriteIfPresent,
            (false, false, true) => MergeRule::Merge,
            (false, false, false) => MergeRule::Overwrite,
            (_, true, true) => MergeRule::MergeInnerIfPresent,
            (_, true, false) => MergeRule::OverwriteWithInnerIfPresent,
        }
    }
}

/// Everything a derivation decides about one field.
#[derive(Clone, Debug, PartialEq)]
pub struct FieldOptions {
    pub field_ref: FieldRef,
    pub class: FieldClass,
    /// Position of the guard annotation that gates every fragment of this field.
    pub guard: Option<usize>,
    /// Position of the rename annotation that gives the substitute type.
    pub substitute: Option<usize>,
    /// Positions of the annotations that remain once helper annotations are stripped.
    pub kept_attrs: Vec<usize>,
    /// Whether the partial field is made public (else it keeps its visibility).
    pub public: bool,
}

/// Whether an annotation is one of the helpers that are stripped from the output.
pub open spec fn is_helper(a: FieldAttr) -> bool {
    a is Rename || a is SkipWrap || a is Wrap
}

/// The wrapping decision after the first `n` annotations, starting from `initial`:
/// the last rename, skip-wrap or wrap annotation decides.
pub open spec fn wrap_after(attrs: Seq<FieldAttr>, n: int, initial: bool) -> bool
    decreases n,
{
    if n <= 0 {
        initial
    } else {
        match attrs[n - 1] {
            FieldAttr::Rename { .. } | FieldAttr::SkipWrap => false,
            FieldAttr::Wrap => true,
            _ => wrap_after(attrs, n - 1, initial),
        }
    }
}

/// Position of the last rename annotation among the first `n`.
pub open spec fn last_rename(attrs: Seq<FieldAttr>, n: int) -> Option<usize>
    decreases n,
{
    if n <= 0 {
        None
    } else if attrs[n - 1] is Rename {
        Some((n - 1) as usize)
    } else {
        last_rename(attrs, n - 1)
    }
}

/// Position of the last guard annotation among the first `n`.
pub open spec fn last_guard(attrs: Seq<FieldAttr>, n: int) -> Option<usize>
    decreases n,
{
    if n <= 0 {
        None
    } else if attrs[n - 1] is Cfg {
        Some((n - 1) as usize)
    } else {
        last_guard(attrs, n - 1)
    }
}

/// Positions, in order, of the annotations among the first `n` that are not helpers.
pub open spec fn kept_after(attrs: Seq<FieldAttr>, n: int) -> Seq<usize>
    decreases n,
{
    if n <= 0 {
        Seq::empty()
    } else if is_helper(attrs[n - 1]) {
        kept_after(attrs, n - 1)
    } else {
        kept_after(attrs, n - 1).push((n - 1) as usize)
    }
}

pub open spec fn has_malformed_rename(attrs: Seq<FieldAttr>) -> bool {
    exists|i: int| 0 <= i < attrs.len() && attrs[i] == (FieldAttr::Rename { well_formed: false })
}

/// The error that classifying the field at `index` gives, if any.
pub open spec fn field_error(f: FieldDescriptor, index: int) -> Option<DeriveError> {
    if !shape_supported(f.ty) {
        Some(DeriveError::UnsupportedFieldType { field: index as usize })
    } else if has_malformed_rename(f.attrs@) {
        Some(DeriveError::MalformedRename { field: index as usize })
    } else {
        None
    }
}

/// The classification of a field, with `default_wrapping` as the default-wrap policy.
pub open spec fn class_of(f: FieldDescriptor, default_wrapping: bool) -> FieldClass {
    let base_optional = shape_is_option(f.ty);
    FieldClass {
        base_optional,
        wrapped: wrap_after(f.attrs@, f.attrs.len() as int, !base_optional && default_wrapping),
        nested: last_rename(f.attrs@, f.attrs.len() as int) is Some,
    }
}

/// `o` is what a derivation decides for field `f` at position `index`.
pub open spec fn options_of(
    f: FieldDescriptor,
    index: int,
    default_wrapping: bool,
    public: bool,
    o: FieldOptions,
) -> bool {
    let n = f.attrs.len() as int;
    &&& o.field_ref == (if f.named { FieldRef::Named } else { FieldRef::Index(index as usize) })
    &&& o.class == class_of(f, default_wrapping)
    &&& o.guard == last_guard(f.attrs@, n)
    &&& o.substitute == last_rename(f.attrs@, n)
    &&& o.kept_attrs@ == kept_after(f.attrs@, n)
    &&& o.public == public
}

impl FieldOptions {
    pub open spec fn partial_type_spec(self) -> PartialType {
        match (self.substitute, self.class.wrapped) {
            (None, false) => PartialType::Declared,
            (Some(i), false) => PartialType::Substitute(i),
            (None, true) => PartialType::OptionalDeclared,
            (Some(i), true) => PartialType::OptionalSubstitute(i),
        }
    }

    /// The partial field's type: the substitute type if there is one, else the
    /// declared type, made optional when the field is wrapped.
    pub fn partial_type(&self) -> (r: PartialType)
        ensures
            r == self.partial_type_spec(),
    {
        match (self.substitute, self.class.wrapped) {
            (None, false) => PartialType::Declared,
            (Some(i), false) => PartialType::Substitute(i),
            (None, true) => PartialType::OptionalDeclared,
            (Some(i), true) => PartialType::OptionalSubstitute(i),
        }
    }
}

/// Classifies the field at position `index`: reads its type shape, then its
/// annotations in order, the last of them winning.
pub fn classify_field(
    f: &FieldDescriptor,
    index: usize,
    default_wrapping: bool,
    public: bool,
) -> (r: Result<FieldOptions, DeriveError>)
    ensures
        match field_error(*f, index as int) {
            Some(e) => r == Err::<FieldOptions, DeriveError>(e),
            None => r is Ok && options_of(*f, index as int, default_wrapping, public, r->Ok_0),
        },
{
    let base_optional = match is_type_option(&f.ty) {
        Some(b) => b,
        None => return Err(DeriveError::UnsupportedFieldType { field: index }),
    };
    let initial = !base_optional && default_wrapping;
    let mut wrapping = initial;
    let mut guard: Option<usize> = None;
    let mut substitute: Option<usize> = None;
    let mut kept: Vec<usize> = Vec::new();
    let n = f.attrs.len();
    let mut i: usize = 0;
    while i < n
        invariant
            n == f.attrs.len(),
            i <= n,
            shape_supported(f.ty),
            base_optional == shape_is_option(f.ty),
            initial == (!base_optional && default_wrapping),
            wrapping == wrap_after(f.attrs@, i as int, initial),
            guard == last_guard(f.attrs@, i as int),
            substitute == last_rename(f.attrs@, i as int),
            kept@ == kept_after(f.attrs@, i as int),
            forall|j: int| 0 <= j < i ==> f.attrs@[j] != (FieldAttr::Rename { well_formed: false }),
        decreases n - i,
    {
        match f.attrs[i] {
            FieldAttr::Rename { well_formed } => {
                if !well_formed {
                    assert(f.attrs@[i as int] == (FieldAttr::Rename { well_formed: false }));
                    return Err(DeriveError::MalformedRename { field: index });
                }
                substitute = Some(i);
                wrapping = false;
            },
            FieldAttr::SkipWrap => {
                wrapping = false;
            },
            FieldAttr::Wrap => {
                wrapping = true;
            },
            FieldAttr::Cfg => {
                guard = Some(i);
                kept.push(i);
            },
            FieldAttr::Other => {
                kept.push(i);
            },
        }
        i = i + 1;
    }
    let field_ref = if f.named {
        FieldRef::Named
    } else {
        FieldRef::Index(index)
    };
    let class = FieldClass { base_optional, wrapped: wrapping, nested: substitute.is_some() };
    Ok(FieldOptions { field_ref, class, guard, substitute, kept_attrs: kept, public })
}

} // verus!
