use pbrt4::{Element, Error, Param, ParamType, Parser, Token};

#[test]
fn parse_includes() {
    let mut parser = Parser::new(
        "
Include \"geometry/car.pbrt\"
Import \"geometry/bigcar.pbrt.gz\"
        ",
    );

    let element = parser.parse_next().unwrap();
    assert!(matches!(element, Element::Include(ref p) if p == "geometry/car.pbrt"));

    let element = parser.parse_next().unwrap();
    assert!(matches!(element, Element::Import(ref p) if p == "geometry/bigcar.pbrt.gz"));
}

#[test]
fn parse_scale_and_rotate() {
    let mut parser = Parser::new(
        "
Scale -1 1 1
Rotate 1 0 0 1
        ",
    );

    assert!(matches!(
        parser.parse_next().unwrap(),
        Element::Scale { .. }
    ));

    assert!(matches!(
        parser.parse_next().unwrap(),
        Element::Rotate { .. }
    ));
}

#[test]
fn parse_look_at() {
    let mut parser = Parser::new(
        "
        LookAt 0.322839 0.0534825 0.504299
        -0.140808 -0.162727 -0.354936
        0.0355799 0.964444 -0.261882
        ",
    );

    let element = parser.parse_next().unwrap();
    assert!(matches!(element, Element::LookAt { .. }));
}

#[test]
fn parse_option() {
    let mut parser = Parser::new(
        "
Option \"string filename\" [\"foo.exr\"]
Option \"string filename\" \"foo.exr\"
        ",
    );

    let mut expected = Param::new("string filename").unwrap();
    expected.add_token(Token::new("\"foo.exr\"")).unwrap();

    assert_eq!(
        parser.parse_next().unwrap(),
        Element::Option(expected.clone())
    );

    assert_eq!(parser.parse_next().unwrap(), Element::Option(expected));
}

#[test]
fn parse_film() {
    let mut parser = Parser::new(
        "
Film \"rgb\"
    \"string filename\" [ \"crown.exr\" ]
    \"integer yresolution\" [ 1400 ]
    \"integer xresolution\" [ 1000 ]
    \"float iso\" 150
    \"string sensor\" \"canon_eos_5d_mkiv\"
        ",
    );

    let elem = parser.parse_next().unwrap();

    match elem {
        Element::Film { ty, params } => {
            assert_eq!(ty, "rgb");
            assert_eq!(params.len(), 5);

            let param = params.get("filename").unwrap();
            assert_eq!(param.name, "filename");
            assert_eq!(param.ty, ParamType::String);

            let param = params.get("iso").unwrap();
            assert_eq!(param.name, "iso");
            assert_eq!(param.ty, ParamType::Float)
        }
        _ => panic!("Unexpected element type"),
    }
}

#[test]
fn parse_film_no_params() {
    let mut parser = Parser::new(
        "
Film \"rgb\"
LookAt 0 5.5 24 0 11 -10 0 1 0
        ",
    );

    assert!(matches!(
        parser.parse_next().unwrap(),
        Element::Film { ref ty, .. } if ty == "rgb"
    ));

    assert!(matches!(
        parser.parse_next().unwrap(),
        Element::LookAt { .. }
    ));
}

#[test]
fn parse_transform() {
    let mut parser = Parser::new("Transform [ 1 0 0 0 0 1 0 0 0 0 1 0 3 1 -4 1 ]");
    let next = parser.parse_next().unwrap();

    assert!(matches!(next, Element::Transform { .. }));
}

#[test]
fn parse_concat_transform() {
    let mut parser = Parser::new("ConcatTransform [ 1 0 0 0 0 1 0 0 0 0 1 0 3 1 -4 1 ]");
    let next = parser.parse_next().unwrap();

    assert!(matches!(next, Element::ConcatTransform { .. }));
}

#[test]
fn parsed_translate_values() {
    let mut parser = Parser::new("Translate 1 -2 0.5");
    let next = parser.parse_next().unwrap();

    assert_eq!(
        next,
        Element::Translate {
            v: (1.0f32.to_bits(), (-2.0f32).to_bits(), 0.5f32.to_bits())
        }
    );
}

#[test]
fn parse_errors() {
    // An empty buffer is the end-of-file sentinel.
    assert_eq!(Parser::new("").parse_next(), Err(Error::EndOfFile));

    // A leading keyword outside the vocabulary.
    assert_eq!(Parser::new("Bogus 1 2").parse_next(), Err(Error::UnknownDirective));

    // A required token absent.
    assert_eq!(Parser::new("Translate 1 2").parse_next(), Err(Error::NoToken));

    // A float argument that does not parse.
    assert_eq!(Parser::new("Translate a 0 0").parse_next(), Err(Error::ParseFloat));

    // A quoted string was required.
    assert_eq!(Parser::new("Include abc").parse_next(), Err(Error::InvalidString));

    // A matrix must be bracketed.
    assert_eq!(
        Parser::new("Transform 1 0 0 0 0 1 0 0 0 0 1 0 0 0 0 1").parse_next(),
        Err(Error::UnexpectedToken)
    );

    // A directive keyword inside a bracketed value list.
    assert_eq!(
        Parser::new("Shape \"s\" \"float r\" [ 1 Shape ]").parse_next(),
        Err(Error::UnexpectedToken)
    );

    // A parameter type keyword outside the vocabulary.
    assert_eq!(
        Parser::new("Shape \"s\" \"floot r\" [ 1 ]").parse_next(),
        Err(Error::InvalidParamType)
    );
}

// Two parameters sharing a name in one directive's list.
#[test]
fn duplicate_param_in_list() {
    let mut parser = Parser::new("Shape \"s\" \"float a\" [1] \"float a\" [2]");
    assert_eq!(parser.parse_next(), Err(Error::DuplicatedParamName));
}

// Comments between directives are skipped by the parser.
#[test]
fn parse_with_comments() {
    let mut parser = Parser::new("# header\nScale 1 1 1 # trailing\nIdentity");
    assert!(matches!(parser.parse_next().unwrap(), Element::Scale { .. }));
    assert!(matches!(parser.parse_next().unwrap(), Element::Identity));
    assert_eq!(parser.parse_next(), Err(Error::EndOfFile));
}
