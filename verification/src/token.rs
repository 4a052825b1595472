//! Lexical tokens: a classified piece of buffer text, plus the
//! well-formedness checks and coercions of token text.
use vstd::prelude::*;
use vstd::string::StrSliceExecFns;

use crate::num::{float_bits_of, parse_bool_str, parse_float_bits, parse_i32_str, spec_parse_bool,
    spec_parse_i32};
use crate::text::str_eq;

verus! {

/// One token of the scene language, owning its text.
#[derive(Debug, PartialEq, Eq, Clone)]
pub struct Token {
    text: String,
}

impl View for Token {
    type V = Seq<char>;

    closed spec fn view(&self) -> Seq<char> {
        self.text@
    }
}

/// The closed vocabulary of directive keywords.
#[derive(Debug, PartialEq, Eq, Structural, Clone, Copy)]
pub enum Directive {
    Include,
    Import,
    Option,
    Film,
    ColorSpace,
    Camera,
    Sampler,
    Integrator,
    Accelerator,
    CoordinateSystem,
    CoordSysTransform,
    PixelFilter,
    Identity,
    Translate,
    Scale,
    Rotate,
    LookAt,
    Transform,
    ConcatTransform,
    TransformTimes,
    ActiveTransform,
    ReverseOrientation,
    WorldBegin,
    AttributeBegin,
    AttributeEnd,
    Attribute,
    LightSource,
    AreaLightSource,
    Material,
    MakeNamedMaterial,
    NamedMaterial,
    Texture,
    Shape,
    ObjectBegin,
    ObjectEnd,
    ObjectInstance,
    MakeNamedMedium,
    MediumInterface,
}

/// The directive keyword denoted by a token's text, if any.
pub open spec fn spec_directive_of(s: Seq<char>) -> Option<Directive> {
    if s == "Include"@ {
        Some(Directive::Include)
    } else if s == "Import"@ {
        Some(Directive::Import)
    } else if s == "Option"@ {
        Some(Directive::Option)
    } else if s == "Film"@ {
        Some(Directive::Film)
    } else if s == "ColorSpace"@ {
        Some(Directive::ColorSpace)
    } else if s == "Camera"@ {
        Some(Directive::Camera)
    } else if s == "Sampler"@ {
        Some(Directive::Sampler)
    } else if s == "Integrator"@ {
        Some(Directive::Integrator)
    } else if s == "Accelerator"@ {
        Some(Directive::Accelerator)
    } else if s == "CoordinateSystem"@ {
        Some(Directive::CoordinateSystem)
    } else if s == "CoordSysTransform"@ {
        Some(Directive::CoordSysTransform)
    } else if s == "PixelFilter"@ {
        Some(Directive::PixelFilter)
    } else if s == "Identity"@ {
        Some(Directive::Identity)
    } else if s == "Translate"@ {
        Some(Directive::Translate)
    } else if s == "Scale"@ {
        Some(Directive::Scale)
    } else if s == "Rotate"@ {
        Some(Directive::Rotate)
    } else if s == "LookAt"@ {
        Some(Directive::LookAt)
    } else if s == "Transform"@ {
        Some(Directive::Transform)
    } else if s == "ConcatTransform"@ {
        Some(Directive::ConcatTransform)
    } else if s == "TransformTimes"@ {
        Some(Directive::TransformTimes)
    } else if s == "ActiveTransform"@ {
        Some(Directive::ActiveTransform)
    } else if s == "ReverseOrientation"@ {
        Some(Directive::ReverseOrientation)
    } else if s == "WorldBegin"@ {
        Some(Directive::WorldBegin)
    } else if s == "AttributeBegin"@ {
        Some(Directive::AttributeBegin)
    } else if s == "AttributeEnd"@ {
        Some(Directive::AttributeEnd)
    } else if s == "Attribute"@ {
        Some(Directive::Attribute)
    } else if s == "LightSource"@ {
        Some(Directive::LightSource)
    } else if s == "AreaLightSource"@ {
        Some(Directive::AreaLightSource)
    } else if s == "Material"@ {
        Some(Directive::Material)
    } else if s == "MakeNamedMaterial"@ {
        Some(Directive::MakeNamedMaterial)
    } else if s == "NamedMaterial"@ {
        Some(Directive::NamedMaterial)
    } else if s == "Texture"@ {
        Some(Directive::Texture)
    } else if s == "Shape"@ {
        Some(Directive::Shape)
    } else if s == "ObjectBegin"@ {
        Some(Directive::ObjectBegin)
    } else if s == "ObjectEnd"@ {
        Some(Directive::ObjectEnd)
    } else if s == "ObjectInstance"@ {
        Some(Directive::ObjectInstance)
    } else if s == "MakeNamedMedium"@ {
        Some(Directive::MakeNamedMedium)
    } else if s == "MediumInterface"@ {
        Some(Directive::MediumInterface)
    } else {
        None
    }
}

/// A token is well formed when it is non-empty, a token that starts or
/// ends with a quote does both and has length at least two, and an
/// unquoted token holds no space.
pub open spec fn spec_valid_token(s: Seq<char>) -> bool {
    &&& s.len() > 0
    &&& ((s[0] == '"' || s[s.len() - 1] == '"') ==> (s[0] == '"' && s[s.len() - 1] == '"'
        && s.len() >= 2))
    &&& (s[0] != '"' ==> forall|i: int| 0 <= i < s.len() ==> #[trigger] s[i] != ' ')
}

/// The text inside the quotes, when the token is a quoted string.
pub open spec fn spec_unquote(s: Seq<char>) -> Option<Seq<char>> {
    if s.len() >= 2 && s[0] == '"' && s[s.len() - 1] == '"' {
        Some(s.subrange(1, s.len() - 1))
    } else {
        None
    }
}

impl Token {
    /// Wrap a piece of text as a token.
    pub fn new(s: &str) -> (t: Token)
        ensures
            t@ == s@,
    {
        Token { text: s.to_owned() }
    }

    /// The token's text.
    pub fn value(&self) -> (r: &str)
        ensures
            r@ == self@,
    {
        self.text.as_str()
    }

    pub fn is_open_brace(&self) -> (r: bool)
        ensures
            r == (self@ =~= "["@),
    {
        str_eq(self.text.as_str(), "[")
    }

    pub fn is_close_brace(&self) -> (r: bool)
        ensures
            r == (self@ =~= "]"@),
    {
        str_eq(self.text.as_str(), "]")
    }

    /// Whether the token starts with a quote, so that it opens a
    /// parameter declaration.
    pub fn is_quote(&self) -> (r: bool)
        ensures
            r == (self@.len() > 0 && self@[0] == '"'),
    {
        if self.text.as_str().unicode_len() == 0 {
            false
        } else {
            self.text.as_str().get_char(0) == '"'
        }
    }

    /// Whether the token's text is one of the directive keywords.
    pub fn is_directive(&self) -> (r: bool)
        ensures
            r == (spec_directive_of(self@) is Some),
    {
        self.directive().is_some()
    }

    /// Look the token's text up in the directive vocabulary.
    pub fn directive(&self) -> (r: Option<Directive>)
        ensures
            r == spec_directive_of(self@),
    {
        let s = self.text.as_str();
        if str_eq(s, "Include") {
            Some(Directive::Include)
        } else if str_eq(s, "Import") {
            Some(Directive::Import)
        } else if str_eq(s, "Option") {
            Some(Directive::Option)
        } else if str_eq(s, "Film") {
            Some(Directive::Film)
        } else if str_eq(s, "ColorSpace") {
            Some(Directive::ColorSpace)
        } else if str_eq(s, "Camera") {
            Some(Directive::Camera)
        } else if str_eq(s, "Sampler") {
            Some(Directive::Sampler)
        } else if str_eq(s, "Integrator") {
            Some(Directive::Integrator)
        } else if str_eq(s, "Accelerator") {
            Some(Directive::Accelerator)
        } else if str_eq(s, "CoordinateSystem") {
            Some(Directive::CoordinateSystem)
        } else if str_eq(s, "CoordSysTransform") {
            Some(Directive::CoordSysTransform)
        } else if str_eq(s, "PixelFilter") {
            Some(Directive::PixelFilter)
        } else if str_eq(s, "Identity") {
            Some(Directive::Identity)
        } else if str_eq(s, "Translate") {
            Some(Directive::Translate)
        } else if str_eq(s, "Scale") {
            Some(Directive::Scale)
        } else if str_eq(s, "Rotate") {
            Some(Directive::Rotate)
        } else if str_eq(s, "LookAt") {
            Some(Directive::LookAt)
        } else if str_eq(s, "Transform") {
            Some(Directive::Transform)
        } else if str_eq(s, "ConcatTransform") {
            Some(Directive::ConcatTransform)
        } else if str_eq(s, "TransformTimes") {
            Some(Directive::TransformTimes)
        } else if str_eq(s, "ActiveTransform") {
            Some(Directive::ActiveTransform)
        } else if str_eq(s, "ReverseOrientation") {
            Some(Directive::ReverseOrientation)
        } else if str_eq(s, "WorldBegin") {
            Some(Directive::WorldBegin)
        } else if str_eq(s, "AttributeBegin") {
            Some(Directive::AttributeBegin)
        } else if str_eq(s, "AttributeEnd") {
            Some(Directive::AttributeEnd)
        } else if str_eq(s, "Attribute") {
            Some(Directive::Attribute)
        } else if str_eq(s, "LightSource") {
            Some(Directive::LightSource)
        } else if str_eq(s, "AreaLightSource") {
            Some(Directive::AreaLightSource)
        } else if str_eq(s, "Material") {
            Some(Directive::Material)
        } else if str_eq(s, "MakeNamedMaterial") {
            Some(Directive::MakeNamedMaterial)
        } else if str_eq(s, "NamedMaterial") {
            Some(Directive::NamedMaterial)
        } else if str_eq(s, "Texture") {
            Some(Directive::Texture)
        } else if str_eq(s, "Shape") {
            Some(Directive::Shape)
        } else if str_eq(s, "ObjectBegin") {
            Some(Directive::ObjectBegin)
        } else if str_eq(s, "ObjectEnd") {
            Some(Directive::ObjectEnd)
        } else if str_eq(s, "ObjectInstance") {
            Some(Directive::ObjectInstance)
        } else if str_eq(s, "MakeNamedMedium") {
            Some(Directive::MakeNamedMedium)
        } else if str_eq(s, "MediumInterface") {
            Some(Directive::MediumInterface)
        } else {
            None
        }
    }

    /// The basic well-formedness checks on a token's shape.
    pub fn is_valid(&self) -> (r: bool)
        ensures
            r == spec_valid_token(self@),
    {
        let s = self.text.as_str();
        let n = s.unicode_len();
        if n == 0 {
            return false;
        }
        let first = s.get_char(0);
        let last = s.get_char(n - 1);
        if first == '"' || last == '"' {
            return first == '"' && last == '"' && n >= 2;
        }
        let mut i: usize = 0;
        while i < n
            invariant
                i <= n,
                n == s@.len(),
                n > 0,
                s@ == self@,
                s@[0] != '"' && s@[n - 1] != '"',
                forall|j: int| 0 <= j < i ==> #[trigger] s@[j] != ' ',
            decreases n - i,
        {
            if s.get_char(i) == ' ' {
                return false;
            }
            i = i + 1;
        }
        true
    }

    /// Strip exactly the leading and trailing quote; `None` when the
    /// token is not a quoted string.
    pub fn unquote(&self) -> (r: Option<String>)
        ensures
            (r is Some) == (spec_unquote(self@) is Some),
            r matches Some(t) ==> Some(t@) == spec_unquote(self@),
    {
        let s = self.text.as_str();
        let n = s.unicode_len();
        if n >= 2 && s.get_char(0) == '"' && s.get_char(n - 1) == '"' {
            Some(s.substring_char(1, n - 1).to_owned())
        } else {
            None
        }
    }

    /// The token's text read as a decimal integer.
    pub fn parse_int(&self) -> (r: Option<i32>)
        ensures
            r == spec_parse_i32(self@),
    {
        parse_i32_str(self.text.as_str())
    }

    /// The token's text read as a boolean literal.
    pub fn parse_bool(&self) -> (r: Option<bool>)
        ensures
            r == spec_parse_bool(self@),
    {
        parse_bool_str(self.text.as_str())
    }

    /// The token's text read as a decimal float, as its bit pattern.
    pub fn parse_float(&self) -> (r: Option<u32>)
        ensures
            r == float_bits_of(self@),
    {
        parse_float_bits(self.text.as_str())
    }
}

} // verus!
