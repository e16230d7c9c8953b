use vstd::prelude::*;

verus! {

/// The syntactic shape of a field's declared type, as far as classification reads it.
#[derive(Debug, PartialEq)]
pub enum TypeShape {
    /// A path type; holds the identifier of its last segment, if the path has one.
    Path(Option<String>),
    Array,
    Tuple,
    Paren(Box<TypeShape>),
    ImplTrait,
    TraitObject,
    Infer,
    Macro,
    Reference,
    Never,
    Slice,
    Pointer,
    BareFn,
    Verbatim,
    Group,
    Other,
}

/// A field annotation, already recognised by the front end.
#[derive(Clone, Copy, Debug, PartialEq, Eq, Structural)]
pub enum FieldAttr {
    /// Substitute a nested partial type; `well_formed` is false when the
    /// annotation does not carry exactly one argument.
    Rename { well_formed: bool },
    SkipWrap,
    Wrap,
    /// A conditional-compilation guard, kept verbatim.
    Cfg,
    /// Any other annotation, passed through untouched.
    Other,
}

/// One field of a record description.
#[derive(Debug, PartialEq)]
pub struct FieldDescriptor {
    /// Whether the field has a name (false for the positional fields of a tuple-like record).
    pub named: bool,
    pub ty: TypeShape,
    pub attrs: Vec<FieldAttr>,
}

#[derive(Clone, Copy, Debug, PartialEq, Eq, Structural)]
pub enum RecordKind {
    /// A record with named or positional fields.
    Struct,
    /// A record without any field list.
    Unit,
    Enum,
    Union,
}

/// The description of a base schema.
#[derive(Debug, PartialEq)]
pub struct RecordSchema {
    pub name: String,
    pub kind: RecordKind,
    pub fields: Vec<FieldDescriptor>,
    /// Capabilities already derived on the record, as written in its derive lists.
    pub capabilities: Vec<String>,
}

/// Why a derivation was refused.
#[derive(Clone, Copy, Debug, PartialEq, Eq, Structural)]
pub enum DeriveError {
    /// The invocation parameters do not follow `[Name [, bool]]`.
    MalformedParameters,
    /// The input is an enum or a union.
    NotARecord,
    /// The input has no field list at all.
    UnitRecord,
    /// The field at this position has a type shape that cannot be classified.
    UnsupportedFieldType { field: usize },
    /// The field at this position carries a rename annotation without exactly one argument.
    MalformedRename { field: usize },
}

pub open spec fn option_ident() -> Seq<char> {
    seq!['O', 'p', 't', 'i', 'o', 'n']
}

/// Whether classification can tell if a type of this shape is optional.
pub open spec fn shape_supported(t: TypeShape) -> bool
    decreases t,
{
    match t {
        TypeShape::Path(_) | TypeShape::Array | TypeShape::Tuple => true,
        TypeShape::Paren(inner) => shape_supported(*inner),
        _ => false,
    }
}

/// Whether the outer shape of a type is the optional-value shape: a path whose
/// last segment is named `Option`, possibly in parentheses.
pub open spec fn shape_is_option(t: TypeShape) -> bool
    decreases t,
{
    match t {
        TypeShape::Path(last) => last is Some && last->Some_0@ == option_ident(),
        TypeShape::Paren(inner) => shape_is_option(*inner),
        _ => false,
    }
}

/// Tells whether a type of shape `t` is already optional, or `None` when the
/// shape cannot be classified.
pub fn is_type_option(t: &TypeShape) -> (r: Option<bool>)
    ensures
        r == (if shape_supported(*t) { Some(shape_is_option(*t)) } else { None::<bool> }),
    decreases t,
{
    match t {
        TypeShape::Path(last) => match last {
            Some(ident) => {
                proof {
                    reveal_strlit("Option");
                    assert("Option"@ =~= option_ident());
                }
                let option = String::from_str("Option");
                Some(*ident == option)
            },
            None => Some(false),
        },
        TypeShape::Array | TypeShape::Tuple => Some(false),
        TypeShape::Paren(inner) => is_type_option(inner),
        _ => None,
    }
}

/// One token of the derivation's invocation parameters.
#[derive(Clone, Debug, PartialEq)]
pub enum ParamToken {
    /// An identifier that is not a keyword.
    Ident(String),
    Comma,
    /// The literal `true` or `false`.
    Bool(bool),
    Other,
}

/// The invocation parameters: an optional name for the partial schema and the
/// default-wrap policy.
#[derive(Clone, Debug, PartialEq)]
pub struct Parameters {
    pub new_name: Option<String>,
    pub default_wrapping: bool,
}

/// The parameters that a token list denotes: empty, `Name`, `Name ,` or
/// `Name , bool`; any other list is malformed.
pub open spec fn parameters_of(t: Seq<ParamToken>) -> Option<(Option<Seq<char>>, bool)> {
    if t.len() == 0 {
        Some((None, true))
    } else if !(t[0] is Ident) {
        None
    } else if t.len() == 1 || (t.len() == 2 && t[1] is Comma) {
        Some((Some(t[0]->Ident_0@), true))
    } else if t.len() == 3 && t[1] is Comma && t[2] is Bool {
        Some((Some(t[0]->Ident_0@), t[2]->Bool_0))
    } else {
        None
    }
}

impl Parameters {
    /// Parses the invocation parameters.
    pub fn parse(tokens: &Vec<ParamToken>) -> (r: Result<Parameters, DeriveError>)
        ensures
            match parameters_of(tokens@) {
                None => r == Err::<Parameters, DeriveError>(DeriveError::MalformedParameters),
                Some((name, wrap)) => r is Ok && r->Ok_0.default_wrapping == wrap && match name {
                    None => r->Ok_0.new_name is None,
                    Some(n) => r->Ok_0.new_name is Some && r->Ok_0.new_name->Some_0@ == n,
                },
            },
    {
        let n = tokens.len();
        if n == 0 {
            return Ok(Parameters { new_name: None, default_wrapping: true });
        }
        let name = match &tokens[0] {
            ParamToken::Ident(s) => s.clone(),
            _ => return Err(DeriveError::MalformedParameters),
        };
        if n == 1 {
            return Ok(Parameters { new_name: Some(name), default_wrapping: true });
        }
        match &tokens[1] {
            ParamToken::Comma => {},
            _ => return Err(DeriveError::MalformedParameters),
        }
        if n == 2 {
            return Ok(Parameters { new_name: Some(name), default_wrapping: true });
        }
        if n > 3 {
            return Err(DeriveError::MalformedParameters);
        }
        match &tokens[2] {
            ParamToken::Bool(b) => Ok(Parameters { new_name: Some(name), default_wrapping: *b }),
            _ => Err(DeriveError::MalformedParameters),
        }
    }
}

} // verus!
