use std::str::FromStr;

use pbrt4::{Error, Param, ParamList, ParamType, Spectrum, Token};

#[test]
fn parse_param_type() {
    assert_eq!(ParamType::from_str("bool").ok(), Some(ParamType::Boolean));

    assert_eq!(ParamType::from_str("float").ok(), Some(ParamType::Float));
    assert_eq!(
        ParamType::from_str("integer").ok(),
        Some(ParamType::Integer)
    );

    assert_eq!(ParamType::from_str("point2").ok(), Some(ParamType::Point2));
    assert_eq!(ParamType::from_str("point3").ok(), Some(ParamType::Point3));

    assert_eq!(ParamType::from_str("rgb").ok(), Some(ParamType::Rgb));
}

#[test]
fn add_dup_param() {
    let mut list = ParamList::default();

    let param = Param::new("bool dup_name").unwrap();

    list.add(param.clone()).unwrap();

    assert!(matches!(list.add(param), Err(Error::DuplicatedParamName)));
}

#[test]
fn as_ints() {
    let mut param = Param::new("integer test").unwrap();
    param.add_token(Token::new("-1")).unwrap();
    param.add_token(Token::new("0")).unwrap();
    param.add_token(Token::new("1")).unwrap();

    assert_eq!(param.as_integers(), Some([-1, 0, 1].as_slice()));
    assert_eq!(param.as_floats(), None);
}

#[test]
fn parse_blackbody() {
    let mut param = Param::new("blackbody I").unwrap();
    param.add_token(Token::new("5500")).unwrap();

    let i = param.as_spectrum().unwrap();

    assert!(matches!(i, Spectrum::Blackbody(5500)));
}

#[test]
fn parse_rgb() {
    let mut param = Param::new("rgb L").unwrap();
    param.add_token(Token::new("7")).unwrap();
    param.add_token(Token::new("0")).unwrap();
    param.add_token(Token::new("7")).unwrap();

    let i = param.as_spectrum().unwrap();

    assert!(matches!(i, Spectrum::Rgb(..)));
}

#[test]
fn parse_texture() {
    let mut param = Param::new("texture test").unwrap();
    param
        .add_token(Token::new("\"float:textures/Fabric - Chaise longue\""))
        .unwrap();

    let value = param.as_strings().unwrap().first().unwrap().to_owned();
    assert_eq!(value, "float:textures/Fabric - Chaise longue");
}

// Float values are stored as the parsed value's exact bit pattern: a
// wrapper that handed the text back unchanged could not produce these.
#[test]
fn float_values_are_bit_patterns() {
    let mut param = Param::new("float x").unwrap();
    param.add_token(Token::new("1.5")).unwrap();
    param.add_token(Token::new("-0.25")).unwrap();

    let floats = param.as_floats().unwrap();
    assert_eq!(floats, [1.5f32.to_bits(), (-0.25f32).to_bits()].as_slice());
    assert_eq!(f32::from_bits(floats[0]), 1.5);
}

#[test]
fn rgb_values() {
    let mut param = Param::new("rgb L").unwrap();
    param.add_token(Token::new("0.25")).unwrap();
    param.add_token(Token::new("0.5")).unwrap();
    param.add_token(Token::new("1")).unwrap();

    assert_eq!(
        param.as_rgb(),
        Some((
            0.25f32.to_bits(),
            0.5f32.to_bits(),
            1.0f32.to_bits()
        ))
    );
}

#[test]
fn bad_tokens_per_type() {
    let mut f = Param::new("float x").unwrap();
    assert_eq!(f.add_token(Token::new("abc")), Err(Error::ParseFloat));

    let mut i = Param::new("integer x").unwrap();
    assert_eq!(i.add_token(Token::new("1.5")), Err(Error::ParseInt));
    assert_eq!(i.add_token(Token::new("2147483648")), Err(Error::ParseInt));

    let mut b = Param::new("bool x").unwrap();
    assert_eq!(b.add_token(Token::new("maybe")), Err(Error::ParseBool));

    let mut s = Param::new("string x").unwrap();
    assert_eq!(s.add_token(Token::new("bare")), Err(Error::InvalidToken));
}

#[test]
fn integer_edges() {
    let mut p = Param::new("integer x").unwrap();
    p.add_token(Token::new("2147483647")).unwrap();
    p.add_token(Token::new("-2147483648")).unwrap();
    p.add_token(Token::new("+5")).unwrap();
    p.add_token(Token::new("00042")).unwrap();

    assert_eq!(
        p.as_integers(),
        Some([i32::MAX, i32::MIN, 5, 42].as_slice())
    );
}

#[test]
fn header_errors() {
    assert_eq!(Param::new("   ").err(), Some(Error::InvalidParamName));
    assert_eq!(Param::new("float").err(), Some(Error::InvalidParamName));
    assert_eq!(Param::new("floot x").err(), Some(Error::InvalidParamType));
}

#[test]
fn boolean_values() {
    let mut p = Param::new("bool x").unwrap();
    p.add_token(Token::new("true")).unwrap();
    p.add_token(Token::new("false")).unwrap();

    assert_eq!(p.as_booleans(), Some([true, false].as_slice()));
}

#[test]
fn list_accessors() {
    let mut list = ParamList::default();

    let mut radius = Param::new("float radius").unwrap();
    radius.add_token(Token::new("2.5")).unwrap();
    list.add(radius).unwrap();

    let mut name = Param::new("string name").unwrap();
    name.add_token(Token::new("\"left\"")).unwrap();
    list.add(name).unwrap();

    assert_eq!(list.len(), 2);
    assert!(!list.is_empty());
    assert_eq!(list.float("radius", 0), 2.5f32.to_bits());
    assert_eq!(list.float("missing", 7), 7);
    assert_eq!(list.integer("radius", -3), -3);
    assert_eq!(list.string("name"), Some("left"));
    assert_eq!(list.boolean("name", true), true);
    assert!(list.get("radius").is_some());
    assert!(list.get("other").is_none());
}

// The inherited table's entries win when two tables are merged.
#[test]
fn extend_overwrites() {
    let mut base = ParamList::default();
    let mut a = Param::new("float radius").unwrap();
    a.add_token(Token::new("1")).unwrap();
    base.add(a).unwrap();

    let mut inherited = ParamList::default();
    let mut b = Param::new("float radius").unwrap();
    b.add_token(Token::new("2")).unwrap();
    inherited.add(b).unwrap();
    let mut c = Param::new("integer n").unwrap();
    c.add_token(Token::new("3")).unwrap();
    inherited.add(c).unwrap();

    base.extend(&inherited);

    assert_eq!(base.len(), 2);
    assert_eq!(base.float("radius", 0), 2.0f32.to_bits());
    assert_eq!(base.integer("n", 0), 3);
}
