//! The rules by which a declared type is accepted as `Castable`.
//!
//! A tool that certifies a type of its user looks at the declaration and at
//! its layout. The declaration has to be a struct without generic parameters
//! that names a fixed representation. The layout has to have no padding, and
//! every field has to be certified itself. The rules are stated here over
//! plain descriptions of a declaration, so that they can be held against
//! whatever reads the source.

use vstd::prelude::*;

verus! {

/// A token of source text, as far as the rules look at it.
pub enum Token {
    /// Tokens between brackets.
    Group(Vec<Token>),
    /// An identifier.
    Ident(String),
    /// Any other token.
    Other,
}

/// An attribute on a declaration, as far as the rules look at it.
pub struct Attribute {
    /// Whether the attribute stands before the item, not inside it.
    pub outer: bool,
    /// The name of the attribute, if it is a single identifier.
    pub path: Option<String>,
    /// The tokens that follow the name.
    pub tokens: Vec<Token>,
}

/// What kind of type a declaration declares.
#[derive(Debug, Clone, Copy, PartialEq, Eq, Structural)]
pub enum Shape {
    /// A struct.
    Struct,
    /// An enum.
    Enum,
    /// A union.
    Union,
}

/// A field of a struct, as far as the rules look at it.
#[derive(Debug, Clone, Copy, PartialEq, Eq, Structural)]
pub struct Field {
    /// The size of the field's type in bytes.
    pub size: usize,
    /// Whether the field's type is certified.
    pub castable: bool,
}

/// A declaration and its layout.
pub struct Declaration {
    /// The attributes on the declaration, in source order.
    pub attributes: Vec<Attribute>,
    /// The number of generic parameters.
    pub generics: usize,
    /// The kind of type.
    pub shape: Shape,
    /// The size of the type in bytes.
    pub size: usize,
    /// The fields, in source order.
    pub fields: Vec<Field>,
}

/// The rule that a declaration breaks.
#[derive(Debug, Clone, Copy, PartialEq, Eq, Structural)]
pub enum DeriveError {
    /// No accepted representation is named.
    Representation,
    /// The type has generic parameters.
    Generics,
    /// The type is not a struct.
    NotAStruct,
    /// The size of the type is not the sum of the sizes of its fields.
    Padding,
    /// A field's type is not certified.
    FieldNotCastable,
}

/// The identifier that `tokens` begin with, looking into brackets: the
/// first token if it is an identifier, and if it is a group, the identifier
/// that the group begins with.
pub open spec fn first_ident(tokens: Seq<Token>) -> Option<Seq<char>>
    decreases tokens,
{
    if tokens.len() == 0 {
        None
    } else {
        match tokens[0] {
            Token::Group(inner) => first_ident(inner@),
            Token::Ident(name) => Some(name@),
            Token::Other => None,
        }
    }
}

/// Whether `attribute` is an outer attribute named `name` whose tokens begin
/// with an identifier.
pub open spec fn names(attribute: Attribute, name: Seq<char>) -> bool {
    attribute.outer && attribute.path is Some && first_ident(attribute.tokens@) is Some
        && attribute.path->0@ == name
}

/// The identifier that the tokens of the first attribute among `attributes`
/// that `names` the name begin with, if there is such an attribute.
pub open spec fn find_attr(attributes: Seq<Attribute>, name: Seq<char>) -> Option<Seq<char>>
    decreases attributes.len(),
{
    if attributes.len() == 0 {
        None
    } else if names(attributes[0], name) {
        first_ident(attributes[0].tokens@)
    } else {
        find_attr(attributes.drop_first(), name)
    }
}

/// Whether `repr` is one of the representations with a fixed layout.
pub open spec fn accepted_repr(repr: Seq<char>) -> bool {
    repr == "C"@ || repr == "transparent"@ || repr == "packed"@ || repr == "align"@
}

/// Whether `attributes` name an accepted representation.
pub open spec fn has_accepted_repr(attributes: Seq<Attribute>) -> bool {
    match find_attr(attributes, "repr"@) {
        Some(repr) => accepted_repr(repr),
        None => false,
    }
}

/// The sum of the sizes of `fields`.
pub open spec fn fields_size(fields: Seq<Field>) -> nat
    decreases fields.len(),
{
    if fields.len() == 0 {
        0
    } else {
        fields_size(fields.drop_last()) + fields.last().size as nat
    }
}

/// Whether every one of `fields` is certified.
pub open spec fn all_castable(fields: Seq<Field>) -> bool {
    forall|i: int| 0 <= i < fields.len() ==> (#[trigger] fields[i]).castable
}

/// What the rules say of the kind of type and its generic parameters.
pub open spec fn members_verdict(generics: usize, shape: Shape) -> Result<(), DeriveError> {
    if generics != 0 {
        Err(DeriveError::Generics)
    } else if shape != Shape::Struct {
        Err(DeriveError::NotAStruct)
    } else {
        Ok(())
    }
}

/// What the rules say of a layout: the padding is looked at first.
pub open spec fn layout_verdict(size: usize, fields: Seq<Field>) -> Result<(), DeriveError> {
    if fields_size(fields) != size {
        Err(DeriveError::Padding)
    } else if !all_castable(fields) {
        Err(DeriveError::FieldNotCastable)
    } else {
        Ok(())
    }
}

/// What the rules say of a declaration: the first rule that it breaks, in
/// the order representation, generic parameters, kind of type, padding,
/// fields; or that it breaks none.
pub open spec fn verdict(declaration: Declaration) -> Result<(), DeriveError> {
    if !has_accepted_repr(declaration.attributes@) {
        Err(DeriveError::Representation)
    } else if members_verdict(declaration.generics, declaration.shape) is Err {
        members_verdict(declaration.generics, declaration.shape)
    } else {
        layout_verdict(declaration.size, declaration.fields@)
    }
}

/// A type with padding is refused, and so is a type with a generic
/// parameter: no declaration whose size is more than its fields add up to,
/// and none with generic parameters, breaks no rule.
pub proof fn lemma_padding_and_generics_refused(declaration: Declaration)
    ensures
        declaration.size > fields_size(declaration.fields@) ==> verdict(declaration) is Err,
        declaration.generics > 0 ==> verdict(declaration) is Err,
        verdict(declaration) is Ok ==> has_accepted_repr(declaration.attributes@)
            && declaration.generics == 0 && declaration.shape == Shape::Struct && fields_size(
            declaration.fields@,
        ) == declaration.size && all_castable(declaration.fields@),
{
}

/// Whether `ident` is the name `name`.
fn is_name(ident: &String, name: &str) -> (same: bool)
    ensures
        same == (ident@ == name@),
{
    let name: String = name.to_owned();
    *ident == name
}

/// The identifier that `tokens` begin with, looking into brackets.
pub fn get_ident_from_stream(tokens: &Vec<Token>) -> (r: Option<&String>)
    ensures
        match r {
            Some(name) => first_ident(tokens@) == Some(name@),
            None => first_ident(tokens@) is None,
        },
    decreases tokens,
{
    if tokens.len() == 0 {
        return None;
    }
    match &tokens[0] {
        Token::Group(inner) => get_ident_from_stream(inner),
        Token::Ident(name) => Some(name),
        Token::Other => None,
    }
}

/// The identifier that the tokens of the first outer attribute named
/// `attr_name` begin with, among those attributes whose tokens begin with
/// one.
pub fn get_attr<'a>(attributes: &'a [Attribute], attr_name: &str) -> (r: Option<&'a String>)
    ensures
        match r {
            Some(argument) => find_attr(attributes@, attr_name@) == Some(argument@),
            None => find_attr(attributes@, attr_name@) is None,
        },
{
    let mut i: usize = 0;
    assert(attributes@.subrange(0, attributes@.len() as int) =~= attributes@);
    while i < attributes.len()
        invariant
            i <= attributes@.len(),
            find_attr(attributes@, attr_name@) == find_attr(
                attributes@.subrange(i as int, attributes@.len() as int),
                attr_name@,
            ),
        decreases attributes@.len() - i,
    {
        let attribute = &attributes[i];
        let ghost rest = attributes@.subrange(i as int, attributes@.len() as int);
        proof {
            assert(rest[0] == attributes@[i as int]);
            assert(rest.drop_first() =~= attributes@.subrange(i + 1, attributes@.len() as int));
        }
        if attribute.outer {
            match (&attribute.path, get_ident_from_stream(&attribute.tokens)) {
                (Some(path), Some(argument)) => {
                    if is_name(path, attr_name) {
                        return Some(argument);
                    }
                },
                _ => {},
            }
        }
        i += 1;
    }
    None
}

/// Checks that the attributes name a representation with a fixed layout.
pub fn verify_attributes(attributes: &[Attribute]) -> (r: Result<(), DeriveError>)
    ensures
        r == if has_accepted_repr(attributes@) {
            Ok::<(), DeriveError>(())
        } else {
            Err::<(), DeriveError>(DeriveError::Representation)
        },
{
    match get_attr(attributes, "repr") {
        Some(repr) => {
            if is_name(repr, "C") || is_name(repr, "transparent") || is_name(repr, "packed")
                || is_name(repr, "align") {
                Ok(())
            } else {
                Err(DeriveError::Representation)
            }
        },
        None => Err(DeriveError::Representation),
    }
}

/// Checks that the type has no generic parameters and is a struct.
pub fn verify_struct_members(generics: usize, shape: Shape) -> (r: Result<(), DeriveError>)
    ensures
        r == members_verdict(generics, shape),
{
    if generics != 0 {
        return Err(DeriveError::Generics);
    }
    match shape {
        Shape::Struct => Ok(()),
        _ => Err(DeriveError::NotAStruct),
    }
}

/// Checks that the fields fill the type without padding.
pub fn verify_no_padding(size: usize, fields: &[Field]) -> (r: Result<(), DeriveError>)
    ensures
        r == if fields_size(fields@) == size {
            Ok::<(), DeriveError>(())
        } else {
            Err::<(), DeriveError>(DeriveError::Padding)
        },
{
    let mut sum: usize = 0;
    let mut i: usize = 0;
    while i < fields.len()
        invariant
            i <= fields@.len(),
            sum == fields_size(fields@.subrange(0, i as int)),
            sum <= size,
        decreases fields@.len() - i,
    {
        proof {
            assert(fields@.subrange(0, i + 1).drop_last() =~= fields@.subrange(0, i as int));
            lemma_fields_size_grows(fields@, i + 1);
        }
        let field_size: usize = fields[i].size;
        if field_size > size - sum {
            return Err(DeriveError::Padding);
        }
        sum += field_size;
        i += 1;
    }
    assert(fields@.subrange(0, i as int) =~= fields@);
    if sum == size {
        Ok(())
    } else {
        Err(DeriveError::Padding)
    }
}

/// The sizes of more fields add up to no less.
proof fn lemma_fields_size_grows(fields: Seq<Field>, upto: int)
    requires
        0 <= upto <= fields.len(),
    ensures
        fields_size(fields.subrange(0, upto)) <= fields_size(fields),
    decreases fields.len() - upto,
{
    if upto < fields.len() {
        lemma_fields_size_grows(fields, upto + 1);
        assert(fields.subrange(0, upto + 1).drop_last() =~= fields.subrange(0, upto));
    } else {
        assert(fields.subrange(0, upto) =~= fields);
    }
}

/// Checks that every field's type is certified.
pub fn verify_castable(fields: &[Field]) -> (r: Result<(), DeriveError>)
    ensures
        r == if all_castable(fields@) {
            Ok::<(), DeriveError>(())
        } else {
            Err::<(), DeriveError>(DeriveError::FieldNotCastable)
        },
{
    let mut i: usize = 0;
    while i < fields.len()
        invariant
            i <= fields@.len(),
            forall|j: int| 0 <= j < i ==> (#[trigger] fields@[j]).castable,
        decreases fields@.len() - i,
    {
        if !fields[i].castable {
            return Err(DeriveError::FieldNotCastable);
        }
        i += 1;
    }
    Ok(())
}

/// Checks a layout: no padding, and every field certified.
pub fn verify_layout(size: usize, fields: &[Field]) -> (r: Result<(), DeriveError>)
    ensures
        r == layout_verdict(size, fields@),
{
    verify_no_padding(size, fields)?;
    verify_castable(fields)
}

/// Checks a declaration against all the rules.
///
/// Returns the first rule that it breaks, in the order representation,
/// generic parameters, kind of type, padding, fields.
pub fn derive_castable_verify(declaration: &Declaration) -> (r: Result<(), DeriveError>)
    ensures
        r == verdict(*declaration),
{
    verify_attributes(declaration.attributes.as_slice())?;
    verify_struct_members(declaration.generics, declaration.shape)?;
    verify_layout(declaration.size, declaration.fields.as_slice())
}

impl DeriveError {
    /// The diagnostic that goes with the rule.
    pub fn message(&self) -> (text: &'static str)
        ensures
            text@ == match *self {
                DeriveError::Representation =>
                "Castable requires #[repr(C)], #[repr(transparent), #[repr(packed)] or #[repr(align)]"@,
                DeriveError::Generics =>
                "Castable cannot be derived for structures with generic parameters"@,
                DeriveError::NotAStruct => "deriving this trait is only supported for structs"@,
                DeriveError::Padding => "Castable cannot be derived for structures with padding"@,
                DeriveError::FieldNotCastable =>
                "Castable requires every field of the structure to be Castable"@,
            },
    {
        match self {
            DeriveError::Representation => {
                "Castable requires #[repr(C)], #[repr(transparent), #[repr(packed)] or #[repr(align)]"
            },
            DeriveError::Generics => {
                "Castable cannot be derived for structures with generic parameters"
            },
            DeriveError::NotAStruct => "deriving this trait is only supported for structs",
            DeriveError::Padding => "Castable cannot be derived for structures with padding",
            DeriveError::FieldNotCastable => {
                "Castable requires every field of the structure to be Castable"
            },
        }
    }
}

} // verus!
