use pkbuffer::certify::{
    derive_castable_verify, get_attr, get_ident_from_stream, verify_attributes, verify_castable,
    verify_layout, verify_no_padding, verify_struct_members, Attribute, Declaration, DeriveError,
    Field, Shape, Token,
};

// The tokens of `(argument)`.
fn argument(name: &str) -> Vec<Token> {
    vec![Token::Group(vec![Token::Ident(name.to_string())])]
}

fn attribute(path: &str, name: &str) -> Attribute {
    Attribute { outer: true, path: Some(path.to_string()), tokens: argument(name) }
}

fn field(size: usize) -> Field {
    Field { size, castable: true }
}

fn packed_record() -> Declaration {
    Declaration {
        attributes: vec![attribute("derive", "Copy"), attribute("repr", "packed")],
        generics: 0,
        shape: Shape::Struct,
        size: 7,
        fields: vec![field(1), field(2), field(4)],
    }
}

#[test]
fn a_packed_record_is_accepted() {
    assert_eq!(derive_castable_verify(&packed_record()), Ok(()));
}

#[test]
fn padding_is_refused() {
    let mut declaration = packed_record();
    declaration.attributes = vec![attribute("repr", "C")];
    declaration.size = 8;
    assert_eq!(derive_castable_verify(&declaration), Err(DeriveError::Padding));
    assert_eq!(verify_no_padding(8, &[field(1), field(2), field(4)]), Err(DeriveError::Padding));
    assert_eq!(verify_no_padding(7, &[field(1), field(2), field(4)]), Ok(()));
    assert_eq!(verify_no_padding(6, &[field(1), field(2), field(4)]), Err(DeriveError::Padding));
    assert_eq!(verify_no_padding(0, &[]), Ok(()));
    assert_eq!(verify_no_padding(1, &[]), Err(DeriveError::Padding));
    assert_eq!(
        verify_no_padding(usize::MAX, &[field(usize::MAX), field(usize::MAX)]),
        Err(DeriveError::Padding)
    );
}

#[test]
fn generic_parameters_are_refused() {
    let mut declaration = packed_record();
    declaration.generics = 1;
    assert_eq!(derive_castable_verify(&declaration), Err(DeriveError::Generics));
    assert_eq!(verify_struct_members(2, Shape::Struct), Err(DeriveError::Generics));
    assert_eq!(verify_struct_members(1, Shape::Enum), Err(DeriveError::Generics));
    assert_eq!(verify_struct_members(0, Shape::Struct), Ok(()));
}

#[test]
fn only_structs_are_accepted() {
    let mut declaration = packed_record();
    declaration.shape = Shape::Enum;
    assert_eq!(derive_castable_verify(&declaration), Err(DeriveError::NotAStruct));
    assert_eq!(verify_struct_members(0, Shape::Union), Err(DeriveError::NotAStruct));
}

#[test]
fn every_field_has_to_be_certified() {
    let mut declaration = packed_record();
    declaration.fields[1].castable = false;
    assert_eq!(derive_castable_verify(&declaration), Err(DeriveError::FieldNotCastable));
    assert_eq!(verify_castable(&declaration.fields), Err(DeriveError::FieldNotCastable));
    assert_eq!(verify_castable(&[]), Ok(()));
    assert_eq!(verify_layout(7, &declaration.fields), Err(DeriveError::FieldNotCastable));
    assert_eq!(verify_layout(8, &declaration.fields), Err(DeriveError::Padding));
}

#[test]
fn a_fixed_representation_is_asked_for() {
    for accepted in ["C", "transparent", "packed", "align"] {
        assert_eq!(verify_attributes(&[attribute("repr", accepted)]), Ok(()));
    }
    for refused in ["Rust", "u8", "c", "Packed", ""] {
        assert_eq!(
            verify_attributes(&[attribute("repr", refused)]),
            Err(DeriveError::Representation)
        );
    }
    assert_eq!(verify_attributes(&[]), Err(DeriveError::Representation));
    assert_eq!(
        verify_attributes(&[attribute("derive", "Clone")]),
        Err(DeriveError::Representation)
    );
    let mut declaration = packed_record();
    declaration.attributes.clear();
    declaration.generics = 3;
    assert_eq!(derive_castable_verify(&declaration), Err(DeriveError::Representation));
}

#[test]
fn the_first_matching_attribute_counts() {
    let attributes = vec![
        Attribute { outer: false, path: Some("repr".to_string()), tokens: argument("C") },
        Attribute { outer: true, path: None, tokens: argument("C") },
        Attribute { outer: true, path: Some("repr".to_string()), tokens: vec![] },
        Attribute { outer: true, path: Some("repr".to_string()), tokens: vec![Token::Other] },
        attribute("repr", "u8"),
        attribute("repr", "C"),
    ];
    assert_eq!(get_attr(&attributes, "repr"), Some(&"u8".to_string()));
    assert_eq!(get_attr(&attributes[..4], "repr"), None);
    assert_eq!(get_attr(&attributes, "derive"), None);
    assert_eq!(verify_attributes(&attributes), Err(DeriveError::Representation));
    assert_eq!(verify_attributes(&attributes[5..]), Ok(()));
}

#[test]
fn the_first_identifier_is_looked_for_inside_brackets() {
    let name = "packed".to_string();
    assert_eq!(get_ident_from_stream(&vec![]), None);
    assert_eq!(get_ident_from_stream(&vec![Token::Other, Token::Ident(name.clone())]), None);
    assert_eq!(
        get_ident_from_stream(&vec![Token::Ident(name.clone()), Token::Other]),
        Some(&name)
    );
    assert_eq!(
        get_ident_from_stream(&vec![Token::Group(vec![Token::Group(vec![Token::Ident(
            name.clone()
        )])])]),
        Some(&name)
    );
    assert_eq!(
        get_ident_from_stream(&vec![Token::Group(vec![]), Token::Ident(name.clone())]),
        None
    );
    assert_eq!(
        get_ident_from_stream(&vec![Token::Group(vec![Token::Other, Token::Ident(name.clone())])]),
        None
    );
}

#[test]
fn every_rule_has_its_diagnostic() {
    assert_eq!(
        DeriveError::Representation.message(),
        "Castable requires #[repr(C)], #[repr(transparent), #[repr(packed)] or #[repr(align)]"
    );
    assert_eq!(
        DeriveError::Generics.message(),
        "Castable cannot be derived for structures with generic parameters"
    );
    assert_eq!(
        DeriveError::NotAStruct.message(),
        "deriving this trait is only supported for structs"
    );
    assert_eq!(
        DeriveError::Padding.message(),
        "Castable cannot be derived for structures with padding"
    );
    assert_eq!(
        DeriveError::FieldNotCastable.message(),
        "Castable requires every field of the structure to be Castable"
    );
}
