//! The directive parser: consumes the token stream and emits one
//! structured directive record per recognized directive, consuming
//! exactly the tokens that directive's grammar requires.
use vstd::prelude::*;

use crate::error::Error;
use crate::mat::Matrix;
use crate::num::float_bits_of;
use crate::param::{spec_add_value, spec_param_new, Param, ParamList, ParamView};
use crate::token::{spec_directive_of, spec_unquote, spec_valid_token, Directive, Token};
use crate::tokenizer::Tokenizer;

verus! {

/// The token stream with its first `n` tokens consumed; total in `n`, so
/// that consumed counts compose without side conditions.
pub open spec fn drop_n(ts: Seq<Seq<char>>, n: int) -> Seq<Seq<char>> {
    if n <= 0 {
        ts
    } else if n <= ts.len() {
        ts.skip(n)
    } else {
        Seq::empty()
    }
}

pub proof fn lemma_drop_n_add(ts: Seq<Seq<char>>, a: int, b: int)
    requires
        0 <= a,
        0 <= b,
    ensures
        drop_n(drop_n(ts, a), b) == drop_n(ts, a + b),
{
    if a == 0 || b == 0 {
        assert(drop_n(drop_n(ts, a), b) =~= drop_n(ts, a + b));
    } else if a <= ts.len() {
        if b <= ts.len() - a {
            assert(drop_n(drop_n(ts, a), b) =~= drop_n(ts, a + b));
        } else {
            assert(drop_n(ts, a).len() == ts.len() - a);
            assert(drop_n(drop_n(ts, a), b) =~= Seq::<Seq<char>>::empty());
            assert(drop_n(ts, a + b) =~= Seq::<Seq<char>>::empty());
        }
    } else {
        assert(drop_n(ts, a) =~= Seq::<Seq<char>>::empty());
        assert(drop_n(drop_n(ts, a), b) =~= Seq::<Seq<char>>::empty());
        assert(drop_n(ts, a + b) =~= Seq::<Seq<char>>::empty());
    }
}

/// Parsed directive.
#[derive(Debug, PartialEq)]
pub enum Element {
    Include(String),
    Import(String),
    Option(Param),
    Film { ty: String, params: ParamList },
    ColorSpace { ty: String },
    Camera { ty: String, params: ParamList },
    Sampler { ty: String, params: ParamList },
    Integrator { ty: String, params: ParamList },
    Accelerator { ty: String, params: ParamList },
    CoordinateSystem { name: String },
    CoordSysTransform { name: String },
    PixelFilter { name: String },
    Identity,
    /// `Translate x y z`
    Translate { v: (u32, u32, u32) },
    /// `Scale x y z`
    Scale { v: (u32, u32, u32) },
    /// `Rotate angle x y z`. The wire format writes the angle in
    /// degrees; the loader hands angle and axis to the rotation
    /// construction exactly as written, with no degree-to-radian
    /// conversion and no axis normalization.
    Rotate { angle: u32, v: (u32, u32, u32) },
    /// `LookAt eye_x eye_y eye_z look_x look_y look_z up_x up_y up_z`
    LookAt { eye: (u32, u32, u32), look_at: (u32, u32, u32), up: (u32, u32, u32) },
    /// `Transform m00 ... m33`
    Transform { m: Matrix },
    /// `ConcatTransform m00 .. m33`
    ConcatTransform { m: Matrix },
    /// `TransformTimes start end`
    TransformTimes { start: u32, end: u32 },
    ActiveTransform { ty: String },
    /// `ReverseOrientation`
    ReverseOrientation,
    /// `WorldBegin`
    WorldBegin,
    /// `AttributeBegin`
    AttributeBegin,
    /// `AttributeEnd`
    AttributeEnd,
    /// `Attribute "target" parameter-list`
    Attribute { target: String, params: ParamList },
    LightSource { ty: String, params: ParamList },
    AreaLightSource { ty: String, params: ParamList },
    Material { ty: String, params: ParamList },
    MakeNamedMaterial { name: String, params: ParamList },
    NamedMaterial { name: String },
    /// `Texture "name" "type" "class" parameter-list`
    Texture { name: String, ty: String, class: String, params: ParamList },
    /// `Shape "name" parameter-list`
    Shape { name: String, params: ParamList },
    ObjectBegin { name: String },
    ObjectEnd,
    ObjectInstance { name: String },
    MakeNamedMedium { name: String, params: ParamList },
    MediumInterface { interior: String, exterior: String },
}

/// The mathematical content of a directive record.
pub enum ElemView {
    Include(Seq<char>),
    Import(Seq<char>),
    Option(ParamView),
    Film { ty: Seq<char>, params: Map<Seq<char>, ParamView> },
    ColorSpace { ty: Seq<char> },
    Camera { ty: Seq<char>, params: Map<Seq<char>, ParamView> },
    Sampler { ty: Seq<char>, params: Map<Seq<char>, ParamView> },
    Integrator { ty: Seq<char>, params: Map<Seq<char>, ParamView> },
    Accelerator { ty: Seq<char>, params: Map<Seq<char>, ParamView> },
    CoordinateSystem { name: Seq<char> },
    CoordSysTransform { name: Seq<char> },
    PixelFilter { name: Seq<char> },
    Identity,
    Translate { v: (u32, u32, u32) },
    Scale { v: (u32, u32, u32) },
    Rotate { angle: u32, v: (u32, u32, u32) },
    LookAt { eye: (u32, u32, u32), look_at: (u32, u32, u32), up: (u32, u32, u32) },
    Transform { m: Seq<u32> },
    ConcatTransform { m: Seq<u32> },
    TransformTimes { start: u32, end: u32 },
    ActiveTransform { ty: Seq<char> },
    ReverseOrientation,
    WorldBegin,
    AttributeBegin,
    AttributeEnd,
    Attribute { target: Seq<char>, params: Map<Seq<char>, ParamView> },
    LightSource { ty: Seq<char>, params: Map<Seq<char>, ParamView> },
    AreaLightSource { ty: Seq<char>, params: Map<Seq<char>, ParamView> },
    Material { ty: Seq<char>, params: Map<Seq<char>, ParamView> },
    MakeNamedMaterial { name: Seq<char>, params: Map<Seq<char>, ParamView> },
    NamedMaterial { name: Seq<char> },
    Texture {
        name: Seq<char>,
        ty: Seq<char>,
        class: Seq<char>,
        params: Map<Seq<char>, ParamView>,
    },
    Shape { name: Seq<char>, params: Map<Seq<char>, ParamView> },
    ObjectBegin { name: Seq<char> },
    ObjectEnd,
    ObjectInstance { name: Seq<char> },
    MakeNamedMedium { name: Seq<char>, params: Map<Seq<char>, ParamView> },
    MediumInterface { interior: Seq<char>, exterior: Seq<char> },
}

impl View for Element {
    type V = ElemView;

    open spec fn view(&self) -> ElemView {
        match self {
            Element::Include(p) => ElemView::Include(p@),
            Element::Import(p) => ElemView::Import(p@),
            Element::Option(p) => ElemView::Option(p@),
            Element::Film { ty, params } => ElemView::Film { ty: ty@, params: params@ },
            Element::ColorSpace { ty } => ElemView::ColorSpace { ty: ty@ },
            Element::Camera { ty, params } => ElemView::Camera { ty: ty@, params: params@ },
            Element::Sampler { ty, params } => ElemView::Sampler { ty: ty@, params: params@ },
            Element::Integrator { ty, params } => ElemView::Integrator {
                ty: ty@,
                params: params@,
            },
            Element::Accelerator { ty, params } => ElemView::Accelerator {
                ty: ty@,
                params: params@,
            },
            Element::CoordinateSystem { name } => ElemView::CoordinateSystem { name: name@ },
            Element::CoordSysTransform { name } => ElemView::CoordSysTransform { name: name@ },
            Element::PixelFilter { name } => ElemView::PixelFilter { name: name@ },
            Element::Identity => ElemView::Identity,
            Element::Translate { v } => ElemView::Translate { v: *v },
            Element::Scale { v } => ElemView::Scale { v: *v },
            Element::Rotate { angle, v } => ElemView::Rotate { angle: *angle, v: *v },
            Element::LookAt { eye, look_at, up } => ElemView::LookAt {
                eye: *eye,
                look_at: *look_at,
                up: *up,
            },
            Element::Transform { m } => ElemView::Transform { m: m@ },
            Element::ConcatTransform { m } => ElemView::ConcatTransform { m: m@ },
            Element::TransformTimes { start, end } => ElemView::TransformTimes {
                start: *start,
                end: *end,
            },
            Element::ActiveTransform { ty } => ElemView::ActiveTransform { ty: ty@ },
            Element::ReverseOrientation => ElemView::ReverseOrientation,
            Element::WorldBegin => ElemView::WorldBegin,
            Element::AttributeBegin => ElemView::AttributeBegin,
            Element::AttributeEnd => ElemView::AttributeEnd,
            Element::Attribute { target, params } => ElemView::Attribute {
                target: target@,
                params: params@,
            },
            Element::LightSource { ty, params } => ElemView::LightSource {
                ty: ty@,
                params: params@,
            },
            Element::AreaLightSource { ty, params } => ElemView::AreaLightSource {
                ty: ty@,
                params: params@,
            },
            Element::Material { ty, params } => ElemView::Material { ty: ty@, params: params@ },
            Element::MakeNamedMaterial { name, params } => ElemView::MakeNamedMaterial {
                name: name@,
                params: params@,
            },
            Element::NamedMaterial { name } => ElemView::NamedMaterial { name: name@ },
            Element::Texture { name, ty, class, params } => ElemView::Texture {
                name: name@,
                ty: ty@,
                class: class@,
                params: params@,
            },
            Element::Shape { name, params } => ElemView::Shape { name: name@, params: params@ },
            Element::ObjectBegin { name } => ElemView::ObjectBegin { name: name@ },
            Element::ObjectEnd => ElemView::ObjectEnd,
            Element::ObjectInstance { name } => ElemView::ObjectInstance { name: name@ },
            Element::MakeNamedMedium { name, params } => ElemView::MakeNamedMedium {
                name: name@,
                params: params@,
            },
            Element::MediumInterface { interior, exterior } => ElemView::MediumInterface {
                interior: interior@,
                exterior: exterior@,
            },
        }
    }
}

/// The parameter tables a directive record carries are well formed.
pub open spec fn elem_wf(e: &Element) -> bool {
    match e {
        Element::Film { params, .. } => params.wf(),
        Element::Camera { params, .. } => params.wf(),
        Element::Sampler { params, .. } => params.wf(),
        Element::Integrator { params, .. } => params.wf(),
        Element::Accelerator { params, .. } => params.wf(),
        Element::Attribute { params, .. } => params.wf(),
        Element::LightSource { params, .. } => params.wf(),
        Element::AreaLightSource { params, .. } => params.wf(),
        Element::Material { params, .. } => params.wf(),
        Element::MakeNamedMaterial { params, .. } => params.wf(),
        Element::Texture { params, .. } => params.wf(),
        Element::Shape { params, .. } => params.wf(),
        Element::MakeNamedMedium { params, .. } => params.wf(),
        Element::Transform { m } => m.wf(),
        Element::ConcatTransform { m } => m.wf(),
        _ => true,
    }
}

/// Reading one token that must pass the well-formedness checks.
pub open spec fn spec_read_token(ts: Seq<Seq<char>>) -> Result<Seq<char>, Error> {
    if ts.len() == 0 {
        Err(Error::NoToken)
    } else if !spec_valid_token(ts[0]) {
        Err(Error::InvalidToken)
    } else {
        Ok(ts[0])
    }
}

/// Reading one token as a float (one token consumed).
pub open spec fn spec_read_float(ts: Seq<Seq<char>>) -> Result<u32, Error> {
    match spec_read_token(ts) {
        Err(e) => Err(e),
        Ok(t) => match float_bits_of(t) {
            Some(b) => Ok(b),
            None => Err(Error::ParseFloat),
        },
    }
}

/// Reading one quoted-string token, unquoted (one token consumed).
pub open spec fn spec_read_str(ts: Seq<Seq<char>>) -> Result<Seq<char>, Error> {
    match spec_read_token(ts) {
        Err(e) => Err(e),
        Ok(t) => match spec_unquote(t) {
            Some(q) => Ok(q),
            None => Err(Error::InvalidString),
        },
    }
}

/// Reading one bracket token, either opening or closing (one token
/// consumed).
pub open spec fn spec_skip_brace(ts: Seq<Seq<char>>) -> Result<(), Error> {
    if ts.len() == 0 {
        Err(Error::UnexpectedToken)
    } else if ts[0] == "["@ || ts[0] == "]"@ {
        Ok(())
    } else {
        Err(Error::UnexpectedToken)
    }
}

/// Reading three floats (three tokens consumed).
pub open spec fn spec_read_point(ts: Seq<Seq<char>>) -> Result<(u32, u32, u32), Error> {
    match spec_read_float(ts) {
        Err(e) => Err(e),
        Ok(x) => match spec_read_float(drop_n(ts, 1)) {
            Err(e) => Err(e),
            Ok(y) => match spec_read_float(drop_n(ts, 2)) {
                Err(e) => Err(e),
                Ok(z) => Ok((x, y, z)),
            },
        },
    }
}

/// Reading `n` floats (`n` tokens consumed).
pub open spec fn spec_read_floats(ts: Seq<Seq<char>>, n: nat) -> Result<Seq<u32>, Error>
    decreases n,
{
    if n == 0 {
        Ok(Seq::empty())
    } else {
        match spec_read_float(ts) {
            Err(e) => Err(e),
            Ok(b) => match spec_read_floats(drop_n(ts, 1), (n - 1) as nat) {
                Err(e) => Err(e),
                Ok(s) => Ok(seq![b] + s),
            },
        }
    }
}

/// Reading value tokens up to and past the closing bracket, adding each
/// to the parameter. A directive keyword before the closing bracket is
/// an error. On success the count includes the closing bracket.
pub open spec fn spec_param_values(p: ParamView, ts: Seq<Seq<char>>) -> Result<
    (ParamView, int),
    Error,
>
    decreases ts.len(),
{
    match spec_read_token(ts) {
        Err(e) => Err(e),
        Ok(t) => if t == "]"@ {
            Ok((p, 1))
        } else if spec_directive_of(t) is Some {
            Err(Error::UnexpectedToken)
        } else {
            match spec_add_value(p.values, t) {
                Err(e) => Err(e),
                Ok(vals) => match spec_param_values(
                    ParamView { values: vals, ..p },
                    drop_n(ts, 1),
                ) {
                    Err(e) => Err(e),
                    Ok((q, k)) => Ok((q, k + 1)),
                },
            }
        },
    }
}

/// Reading one whole parameter: a quoted `"type name"` header, then
/// either a single bare value or a bracketed value list. On success the
/// count is the number of tokens consumed.
pub open spec fn spec_read_param(ts: Seq<Seq<char>>) -> Result<(ParamView, int), Error> {
    match spec_read_str(ts) {
        Err(e) => Err(e),
        Ok(header) => match spec_param_new(header) {
            Err(e) => Err(e),
            Ok(p0) => {
                let rest = drop_n(ts, 1);
                match spec_read_token(rest) {
                    Err(e) => Err(e),
                    Ok(v) => if v == "["@ {
                        match spec_param_values(p0, drop_n(rest, 1)) {
                            Err(e) => Err(e),
                            Ok((p, k)) => Ok((p, 2 + k)),
                        }
                    } else {
                        match spec_add_value(p0.values, v) {
                            Err(e) => Err(e),
                            Ok(vals) => Ok((ParamView { values: vals, ..p0 }, 2)),
                        }
                    },
                }
            },
        },
    }
}

pub proof fn lemma_spec_param_values_consumed(p: ParamView, ts: Seq<Seq<char>>)
    ensures
        spec_param_values(p, ts) matches Ok((q, k)) ==> 1 <= k <= ts.len(),
    decreases ts.len(),
{
    if ts.len() > 0 && spec_valid_token(ts[0]) && ts[0] != "]"@ && spec_directive_of(ts[0]) is None {
        match spec_add_value(p.values, ts[0]) {
            Ok(vals) => {
                lemma_spec_param_values_consumed(ParamView { values: vals, ..p }, drop_n(ts, 1));
            },
            Err(_) => {},
        }
    }
}

pub proof fn lemma_spec_read_param_consumed(ts: Seq<Seq<char>>)
    ensures
        spec_read_param(ts) matches Ok((p, k)) ==> 2 <= k <= ts.len(),
{
    if spec_read_param(ts) is Ok {
        match spec_read_str(ts) {
            Ok(header) => match spec_param_new(header) {
                Ok(p0) => {
                    lemma_spec_param_values_consumed(p0, drop_n(drop_n(ts, 1), 1));
                    assert(drop_n(drop_n(ts, 1), 1).len() == ts.len() - 2);
                },
                Err(_) => {},
            },
            Err(_) => {},
        }
    }
}

/// Whether a token opens a parameter declaration.
pub open spec fn is_quote_tok(t: Seq<char>) -> bool {
    t.len() > 0 && t[0] == '"'
}

pub proof fn lemma_spec_read_param_list_acc_consumed(
    ts: Seq<Seq<char>>,
    acc: Map<Seq<char>, ParamView>,
)
    ensures
        spec_read_param_list_acc(ts, acc) matches Ok((m, k)) ==> 0 <= k <= ts.len(),
    decreases ts.len(),
{
    if !(ts.len() == 0 || !is_quote_tok(ts[0])) {
        match spec_read_param(ts) {
            Ok((p, k)) => {
                lemma_spec_read_param_consumed(ts);
                if !acc.contains_key(p.name) {
                    lemma_spec_read_param_list_acc_consumed(drop_n(ts, k), acc.insert(p.name, p));
                }
            },
            Err(_) => {},
        }
    }
}

/// The consumed count of a trailing parameter list is non-negative and
/// bounded, so that a resource directive's total count composes.
proof fn lemma_resource_arm(ts: Seq<Seq<char>>)
    ensures
        spec_read_param_list(drop_n(drop_n(ts, 1), 1)) matches Ok((m, k)) ==> 0 <= k <= drop_n(
            drop_n(ts, 1),
            1,
        ).len(),
{
    lemma_spec_read_param_list_acc_consumed(
        drop_n(drop_n(ts, 1), 1),
        Map::<Seq<char>, ParamView>::empty(),
    );
}

/// Reading a trailing parameter list greedily: as long as the next token
/// begins with a quote, one more parameter is read and added; a
/// repeated name is the duplicate-parameter error.
pub open spec fn spec_read_param_list_acc(ts: Seq<Seq<char>>, acc: Map<Seq<char>, ParamView>) -> Result<
    (Map<Seq<char>, ParamView>, int),
    Error,
>
    decreases ts.len(),
{
    if ts.len() == 0 || !is_quote_tok(ts[0]) {
        Ok((acc, 0))
    } else {
        match spec_read_param(ts) {
            Err(e) => Err(e),
            Ok((p, k)) => if acc.contains_key(p.name) {
                Err(Error::DuplicatedParamName)
            } else {
                proof {
                    lemma_spec_read_param_consumed(ts);
                }
                match spec_read_param_list_acc(drop_n(ts, k), acc.insert(p.name, p)) {
                    Err(e) => Err(e),
                    Ok((m, k2)) => Ok((m, k + k2)),
                }
            },
        }
    }
}

pub open spec fn spec_read_param_list(ts: Seq<Seq<char>>) -> Result<
    (Map<Seq<char>, ParamView>, int),
    Error,
> {
    spec_read_param_list_acc(ts, Map::empty())
}

/// What parsing the next directive from the token stream yields: the
/// directive record and the number of tokens consumed, or the error. An
/// empty stream is the end-of-file sentinel.
pub open spec fn spec_parse_next(ts: Seq<Seq<char>>) -> Result<(ElemView, int), Error> {
    if ts.len() == 0 {
        Err(Error::EndOfFile)
    } else {
        match spec_directive_of(ts[0]) {
            None => Err(Error::UnknownDirective),
            Some(d) => {
                let ts1 = drop_n(ts, 1);
                match d {
                    Directive::Include => match spec_read_str(ts1) {
                        Err(e) => Err(e),
                        Ok(p) => Ok((ElemView::Include(p), 2)),
                    },
                    Directive::Import => match spec_read_str(ts1) {
                        Err(e) => Err(e),
                        Ok(p) => Ok((ElemView::Import(p), 2)),
                    },
                    Directive::Option => match spec_read_param(ts1) {
                        Err(e) => Err(e),
                        Ok((p, k)) => Ok((ElemView::Option(p), 1 + k)),
                    },
                    Directive::Film => match spec_read_str(ts1) {
                        Err(e) => Err(e),
                        Ok(ty) => match spec_read_param_list(drop_n(ts1, 1)) {
                            Err(e) => Err(e),
                            Ok((m, k)) => Ok((ElemView::Film { ty, params: m }, 2 + k)),
                        },
                    },
                    Directive::ColorSpace => match spec_read_str(ts1) {
                        Err(e) => Err(e),
                        Ok(ty) => Ok((ElemView::ColorSpace { ty }, 2)),
                    },
                    Directive::Camera => match spec_read_str(ts1) {
                        Err(e) => Err(e),
                        Ok(ty) => match spec_read_param_list(drop_n(ts1, 1)) {
                            Err(e) => Err(e),
                            Ok((m, k)) => Ok((ElemView::Camera { ty, params: m }, 2 + k)),
                        },
                    },
                    Directive::Sampler => match spec_read_str(ts1) {
                        Err(e) => Err(e),
                        Ok(ty) => match spec_read_param_list(drop_n(ts1, 1)) {
                            Err(e) => Err(e),
                            Ok((m, k)) => Ok((ElemView::Sampler { ty, params: m }, 2 + k)),
                        },
                    },
                    Directive::Integrator => match spec_read_str(ts1) {
                        Err(e) => Err(e),
                        Ok(ty) => match spec_read_param_list(drop_n(ts1, 1)) {
                            Err(e) => Err(e),
                            Ok((m, k)) => Ok((ElemView::Integrator { ty, params: m }, 2 + k)),
                        },
                    },
                    Directive::Accelerator => match spec_read_str(ts1) {
                        Err(e) => Err(e),
                        Ok(ty) => match spec_read_param_list(drop_n(ts1, 1)) {
                            Err(e) => Err(e),
                            Ok((m, k)) => Ok((ElemView::Accelerator { ty, params: m }, 2 + k)),
                        },
                    },
                    Directive::CoordinateSystem => match spec_read_str(ts1) {
                        Err(e) => Err(e),
                        Ok(name) => Ok((ElemView::CoordinateSystem { name }, 2)),
                    },
                    Directive::CoordSysTransform => match spec_read_str(ts1) {
                        Err(e) => Err(e),
                        Ok(name) => Ok((ElemView::CoordSysTransform { name }, 2)),
                    },
                    Directive::PixelFilter => match spec_read_str(ts1) {
                        Err(e) => Err(e),
                        Ok(name) => Ok((ElemView::PixelFilter { name }, 2)),
                    },
                    Directive::Identity => Ok((ElemView::Identity, 1)),
                    Directive::Translate => match spec_read_point(ts1) {
                        Err(e) => Err(e),
                        Ok(v) => Ok((ElemView::Translate { v }, 4)),
                    },
                    Directive::Scale => match spec_read_point(ts1) {
                        Err(e) => Err(e),
                        Ok(v) => Ok((ElemView::Scale { v }, 4)),
                    },
                    Directive::Rotate => match spec_read_float(ts1) {
                        Err(e) => Err(e),
                        Ok(angle) => match spec_read_point(drop_n(ts1, 1)) {
                            Err(e) => Err(e),
                            Ok(v) => Ok((ElemView::Rotate { angle, v }, 5)),
                        },
                    },
                    Directive::LookAt => match spec_read_point(ts1) {
                        Err(e) => Err(e),
                        Ok(eye) => match spec_read_point(drop_n(ts1, 3)) {
                            Err(e) => Err(e),
                            Ok(look_at) => match spec_read_point(drop_n(ts1, 6)) {
                                Err(e) => Err(e),
                                Ok(up) => Ok((ElemView::LookAt { eye, look_at, up }, 10)),
                            },
                        },
                    },
                    Directive::Transform => match spec_skip_brace(ts1) {
                        Err(e) => Err(e),
                        Ok(_) => match spec_read_floats(drop_n(ts1, 1), 16) {
                            Err(e) => Err(e),
                            Ok(m) => match spec_skip_brace(drop_n(ts1, 17)) {
                                Err(e) => Err(e),
                                Ok(_) => Ok((ElemView::Transform { m }, 19)),
                            },
                        },
                    },
                    Directive::ConcatTransform => match spec_skip_brace(ts1) {
                        Err(e) => Err(e),
                        Ok(_) => match spec_read_floats(drop_n(ts1, 1), 16) {
                            Err(e) => Err(e),
                            Ok(m) => match spec_skip_brace(drop_n(ts1, 17)) {
                                Err(e) => Err(e),
                                Ok(_) => Ok((ElemView::ConcatTransform { m }, 19)),
                            },
                        },
                    },
                    Directive::TransformTimes => match spec_read_float(ts1) {
                        Err(e) => Err(e),
                        Ok(start) => match spec_read_float(drop_n(ts1, 1)) {
                            Err(e) => Err(e),
                            Ok(end) => Ok((ElemView::TransformTimes { start, end }, 3)),
                        },
                    },
                    Directive::ActiveTransform => match spec_read_str(ts1) {
                        Err(e) => Err(e),
                        Ok(ty) => Ok((ElemView::ActiveTransform { ty }, 2)),
                    },
                    Directive::ReverseOrientation => Ok((ElemView::ReverseOrientation, 1)),
                    Directive::WorldBegin => Ok((ElemView::WorldBegin, 1)),
                    Directive::AttributeBegin => Ok((ElemView::AttributeBegin, 1)),
                    Directive::AttributeEnd => Ok((ElemView::AttributeEnd, 1)),
                    Directive::Attribute => match spec_read_str(ts1) {
                        Err(e) => Err(e),
                        Ok(target) => match spec_read_param_list(drop_n(ts1, 1)) {
                            Err(e) => Err(e),
                            Ok((m, k)) => Ok((ElemView::Attribute { target, params: m }, 2 + k)),
                        },
                    },
                    Directive::LightSource => match spec_read_str(ts1) {
                        Err(e) => Err(e),
                        Ok(ty) => match spec_read_param_list(drop_n(ts1, 1)) {
                            Err(e) => Err(e),
                            Ok((m, k)) => Ok((ElemView::LightSource { ty, params: m }, 2 + k)),
                        },
                    },
                    Directive::AreaLightSource => match spec_read_str(ts1) {
                        Err(e) => Err(e),
                        Ok(ty) => match spec_read_param_list(drop_n(ts1, 1)) {
                            Err(e) => Err(e),
                            Ok((m, k)) => Ok((
                                ElemView::AreaLightSource { ty, params: m },
                                2 + k,
                            )),
                        },
                    },
                    Directive::Material => match spec_read_str(ts1) {
                        Err(e) => Err(e),
                        Ok(ty) => match spec_read_param_list(drop_n(ts1, 1)) {
                            Err(e) => Err(e),
                            Ok((m, k)) => Ok((ElemView::Material { ty, params: m }, 2 + k)),
                        },
                    },
                    Directive::MakeNamedMaterial => match spec_read_str(ts1) {
                        Err(e) => Err(e),
                        Ok(name) => match spec_read_param_list(drop_n(ts1, 1)) {
                            Err(e) => Err(e),
                            Ok((m, k)) => Ok((
                                ElemView::MakeNamedMaterial { name, params: m },
                                2 + k,
                            )),
                        },
                    },
                    Directive::NamedMaterial => match spec_read_str(ts1) {
                        Err(e) => Err(e),
                        Ok(name) => Ok((ElemView::NamedMaterial { name }, 2)),
                    },
                    Directive::Texture => match spec_read_str(ts1) {
                        Err(e) => Err(e),
                        Ok(name) => match spec_read_str(drop_n(ts1, 1)) {
                            Err(e) => Err(e),
                            Ok(ty) => match spec_read_str(drop_n(ts1, 2)) {
                                Err(e) => Err(e),
                                Ok(class) => match spec_read_param_list(drop_n(ts1, 3)) {
                                    Err(e) => Err(e),
                                    Ok((m, k)) => Ok((
                                        ElemView::Texture { name, ty, class, params: m },
                                        4 + k,
                                    )),
                                },
                            },
                        },
                    },
                    Directive::Shape => match spec_read_str(ts1) {
                        Err(e) => Err(e),
                        Ok(name) => match spec_read_param_list(drop_n(ts1, 1)) {
                            Err(e) => Err(e),
                            Ok((m, k)) => Ok((ElemView::Shape { name, params: m }, 2 + k)),
                        },
                    },
                    Directive::ObjectBegin => match spec_read_str(ts1) {
                        Err(e) => Err(e),
                        Ok(name) => Ok((ElemView::ObjectBegin { name }, 2)),
                    },
                    Directive::ObjectEnd => Ok((ElemView::ObjectEnd, 1)),
                    Directive::ObjectInstance => match spec_read_str(ts1) {
                        Err(e) => Err(e),
                        Ok(name) => Ok((ElemView::ObjectInstance { name }, 2)),
                    },
                    Directive::MakeNamedMedium => match spec_read_str(ts1) {
                        Err(e) => Err(e),
                        Ok(name) => match spec_read_param_list(drop_n(ts1, 1)) {
                            Err(e) => Err(e),
                            Ok((m, k)) => Ok((
                                ElemView::MakeNamedMedium { name, params: m },
                                2 + k,
                            )),
                        },
                    },
                    Directive::MediumInterface => match spec_read_str(ts1) {
                        Err(e) => Err(e),
                        Ok(interior) => match spec_read_str(drop_n(ts1, 1)) {
                            Err(e) => Err(e),
                            Ok(exterior) => Ok((
                                ElemView::MediumInterface { interior, exterior },
                                3,
                            )),
                        },
                    },
                }
            },
        }
    }
}

/// A successfully parsed directive consumes at least its keyword.
pub proof fn lemma_spec_parse_next_min(ts: Seq<Seq<char>>)
    ensures
        spec_parse_next(ts) matches Ok((e, k)) ==> k >= 1,
{
    if ts.len() > 0 && spec_directive_of(ts[0]) is Some {
        let ts1 = drop_n(ts, 1);
        lemma_spec_read_param_consumed(ts1);
        lemma_spec_read_param_list_acc_consumed(
            drop_n(ts1, 1),
            Map::<Seq<char>, ParamView>::empty(),
        );
        lemma_spec_read_param_list_acc_consumed(
            drop_n(ts1, 3),
            Map::<Seq<char>, ParamView>::empty(),
        );
    }
}

/// The directive parser over one buffer's token stream.
pub struct Parser {
    tokenizer: Tokenizer,
}

impl Parser {
    /// The token texts not yet consumed.
    pub closed spec fn toks(&self) -> Seq<Seq<char>> {
        self.tokenizer.remaining()
    }

    pub closed spec fn wf(&self) -> bool {
        self.tokenizer.wf()
    }

    /// A parser over a buffer; comment tokens are skipped.
    pub fn new(data: &str) -> (r: Parser)
        ensures
            r.wf(),
            r.toks() == crate::tokenizer::spec_tokens(data@, true),
    {
        let mut tokenizer = Tokenizer::new(data);
        tokenizer.skip_comments();
        Parser { tokenizer }
    }

    /// Read the next token, or fail when the stream is exhausted or the
    /// token is malformed.
    fn read_token(&mut self) -> (r: Result<Token, Error>)
        requires
            old(self).wf(),
        ensures
            final(self).wf(),
            match (r, spec_read_token(old(self).toks())) {
                (Ok(t), Ok(tv)) => t@ == tv && final(self).toks() == drop_n(old(self).toks(), 1),
                (Err(e1), Err(e2)) => e1 == e2,
                _ => false,
            },
    {
        match self.tokenizer.next() {
            Some(token) => {
                proof {
                    assert(old(self).toks()[0] == token@);
                    assert((seq![token@] + self.tokenizer.remaining()).skip(1) =~= self
                        .tokenizer
                        .remaining());
                }
                if !token.is_valid() {
                    return Err(Error::InvalidToken);
                }
                Ok(token)
            },
            None => Err(Error::NoToken),
        }
    }

    /// Read the next token, which must be a bracket.
    fn skip_brace(&mut self) -> (r: Result<(), Error>)
        requires
            old(self).wf(),
        ensures
            final(self).wf(),
            match (r, spec_skip_brace(old(self).toks())) {
                (Ok(_), Ok(_)) => final(self).toks() == drop_n(old(self).toks(), 1),
                (Err(e1), Err(e2)) => e1 == e2,
                _ => false,
            },
    {
        match self.tokenizer.next() {
            Some(token) => {
                proof {
                    assert(old(self).toks()[0] == token@);
                    assert((seq![token@] + self.tokenizer.remaining()).skip(1) =~= self
                        .tokenizer
                        .remaining());
                }
                let is_open = token.is_open_brace();
                let is_close = token.is_close_brace();
                if !is_open && !is_close {
                    return Err(Error::UnexpectedToken);
                }
                Ok(())
            },
            None => Err(Error::UnexpectedToken),
        }
    }

    /// Read a token as a float (returned as its bit pattern).
    fn read_float(&mut self) -> (r: Result<u32, Error>)
        requires
            old(self).wf(),
        ensures
            final(self).wf(),
            match (r, spec_read_float(old(self).toks())) {
                (Ok(b), Ok(bv)) => b == bv && final(self).toks() == drop_n(old(self).toks(), 1),
                (Err(e1), Err(e2)) => e1 == e2,
                _ => false,
            },
    {
        let token = match self.read_token() {
            Ok(t) => t,
            Err(e) => {
                return Err(e);
            },
        };
        match token.parse_float() {
            Some(b) => Ok(b),
            None => Err(Error::ParseFloat),
        }
    }

    /// Read three floats.
    fn read_point(&mut self) -> (r: Result<(u32, u32, u32), Error>)
        requires
            old(self).wf(),
        ensures
            final(self).wf(),
            match (r, spec_read_point(old(self).toks())) {
                (Ok(v), Ok(vv)) => v == vv && final(self).toks() == drop_n(old(self).toks(), 3),
                (Err(e1), Err(e2)) => e1 == e2,
                _ => false,
            },
    {
        let x = match self.read_float() {
            Ok(b) => b,
            Err(e) => {
                return Err(e);
            },
        };
        let y = match self.read_float() {
            Ok(b) => b,
            Err(e) => {
                return Err(e);
            },
        };
        let z = match self.read_float() {
            Ok(b) => b,
            Err(e) => {
                return Err(e);
            },
        };
        proof {
            lemma_drop_n_add(old(self).toks(), 1, 1);
            lemma_drop_n_add(old(self).toks(), 2, 1);
        }
        Ok((x, y, z))
    }

    /// Read sixteen floats.
    fn read_matrix(&mut self) -> (r: Result<Vec<u32>, Error>)
        requires
            old(self).wf(),
        ensures
            final(self).wf(),
            match (r, spec_read_floats(old(self).toks(), 16)) {
                (Ok(v), Ok(s)) => v@ == s && v@.len() == 16 && final(self).toks() == drop_n(old(self).toks(), 16),
                (Err(e1), Err(e2)) => e1 == e2,
                _ => false,
            },
    {
        let mut v: Vec<u32> = Vec::new();
        let mut i: usize = 0;
        while i < 16
            invariant
                self.wf(),
                i <= 16,
                v@.len() == i,
                self.toks() == drop_n(old(self).toks(), i as int),
                match spec_read_floats(self.toks(), (16 - i) as nat) {
                    Ok(s) => spec_read_floats(old(self).toks(), 16) == Ok::<Seq<u32>, Error>(
                        v@ + s,
                    ),
                    Err(e) => spec_read_floats(old(self).toks(), 16) == Err::<Seq<u32>, Error>(e),
                },
            decreases 16 - i,
        {
            let ghost pre = self.toks();
            let ghost vpre = v@;
            let b = match self.read_float() {
                Ok(b) => b,
                Err(e) => {
                    return Err(e);
                },
            };
            v.push(b);
            i = i + 1;
            proof {
                lemma_drop_n_add(old(self).toks(), i - 1 as int, 1);
                assert(spec_read_float(pre) == Ok::<u32, Error>(b));
                match spec_read_floats(self.toks(), (16 - i) as nat) {
                    Ok(s) => {
                        assert(spec_read_floats(pre, (16 - (i - 1)) as nat) == Ok::<
                            Seq<u32>,
                            Error,
                        >(seq![b] + s));
                        assert(vpre + (seq![b] + s) =~= v@ + s);
                    },
                    Err(e) => {
                        assert(spec_read_floats(pre, (16 - (i - 1)) as nat) == Err::<
                            Seq<u32>,
                            Error,
                        >(e));
                    },
                }
            }
        }
        proof {
            assert(spec_read_floats(self.toks(), 0) == Ok::<Seq<u32>, Error>(Seq::empty()));
            assert(v@ + Seq::<u32>::empty() =~= v@);
        }
        Ok(v)
    }

    /// Read a quoted string, unquoted.
    fn read_str(&mut self) -> (r: Result<String, Error>)
        requires
            old(self).wf(),
        ensures
            final(self).wf(),
            match (r, spec_read_str(old(self).toks())) {
                (Ok(s), Ok(sv)) => s@ == sv && final(self).toks() == drop_n(old(self).toks(), 1),
                (Err(e1), Err(e2)) => e1 == e2,
                _ => false,
            },
    {
        let token = match self.read_token() {
            Ok(t) => t,
            Err(e) => {
                return Err(e);
            },
        };
        match token.unquote() {
            Some(s) => Ok(s),
            None => Err(Error::InvalidString),
        }
    }

    /// Read one whole parameter.
    fn read_param(&mut self) -> (r: Result<Param, Error>)
        requires
            old(self).wf(),
        ensures
            final(self).wf(),
            match (r, spec_read_param(old(self).toks())) {
                (Ok(p), Ok((pv, k))) => p@ == pv && final(self).toks() == drop_n(old(self).toks(), k),
                (Err(e1), Err(e2)) => e1 == e2,
                _ => false,
            },
    {
        let header = match self.read_str() {
            Ok(s) => s,
            Err(e) => {
                return Err(e);
            },
        };
        let mut param = match Param::new(header.as_str()) {
            Ok(p) => p,
            Err(e) => {
                return Err(e);
            },
        };
        let ghost ts1 = drop_n(old(self).toks(), 1);
        let value = match self.read_token() {
            Ok(t) => t,
            Err(e) => {
                return Err(e);
            },
        };
        if value.is_open_brace() {
            let ghost ts2 = drop_n(ts1, 1);
            proof {
                assert(self.toks() == ts2);
            }
            let ghost p0 = param@;
            let ghost mut consumed_g: int = 0;
            loop
                invariant
                    self.wf(),
                    0 <= consumed_g <= ts2.len(),
                    ts2 == drop_n(drop_n(old(self).toks(), 1), 1),
                    self.toks() == drop_n(ts2, consumed_g),
                    spec_read_param(old(self).toks()) == (match spec_param_values(p0, ts2) {
                        Ok(r) => Ok::<(ParamView, int), Error>((r.0, 2 + r.1)),
                        Err(e) => Err::<(ParamView, int), Error>(e),
                    }),
                    match spec_param_values(param@, self.toks()) {
                        Ok((q, k)) => spec_param_values(p0, ts2) == Ok::<(ParamView, int), Error>(
                            (q, consumed_g + k),
                        ),
                        Err(e) => spec_param_values(p0, ts2) == Err::<(ParamView, int), Error>(e),
                    },
                decreases ts2.len() - consumed_g,
            {
                let ghost pre = self.toks();
                let value = match self.read_token() {
                    Ok(t) => t,
                    Err(e) => {
                        return Err(e);
                    },
                };
                proof {
                    lemma_drop_n_add(ts2, consumed_g, 1);
                    assert(drop_n(pre, 1) == drop_n(ts2, consumed_g + 1));
                }
                if value.is_close_brace() {
                    proof {
                        assert(spec_param_values(param@, pre) == Ok::<(ParamView, int), Error>(
                            (param@, 1),
                        ));
                        assert(spec_param_values(p0, ts2) == Ok::<(ParamView, int), Error>(
                            (param@, consumed_g + 1),
                        ));
                        lemma_drop_n_add(old(self).toks(), 1, 1);
                        lemma_drop_n_add(old(self).toks(), 2, consumed_g + 1);
                        assert(drop_n(ts2, consumed_g + 1) == drop_n(
                            old(self).toks(),
                            2 + (consumed_g + 1),
                        ));
                    }
                    return Ok(param);
                }
                if value.is_directive() {
                    return Err(Error::UnexpectedToken);
                }
                match param.add_token(value) {
                    Ok(_) => (),
                    Err(e) => {
                        return Err(e);
                    },
                }
                proof {
                    consumed_g = consumed_g + 1;
                }
            }
        } else {
            match param.add_token(value) {
                Ok(_) => (),
                Err(e) => {
                    return Err(e);
                },
            }
            proof {
                lemma_drop_n_add(old(self).toks(), 1, 1);
            }
            Ok(param)
        }
    }

    /// Read a trailing parameter list greedily.
    fn read_param_list(&mut self) -> (r: Result<ParamList, Error>)
        requires
            old(self).wf(),
        ensures
            final(self).wf(),
            match (r, spec_read_param_list(old(self).toks())) {
                (Ok(pl), Ok((m, k))) => pl@ == m && pl.wf() && final(self).toks() == drop_n(old(self).toks(), k),
                (Err(e1), Err(e2)) => e1 == e2,
                _ => false,
            },
    {
        let mut list = ParamList::default();
        let ghost ts0 = old(self).toks();
        let ghost mut consumed_g: int = 0;
        loop
            invariant
                self.wf(),
                list.wf(),
                0 <= consumed_g <= ts0.len(),
                self.toks() == drop_n(ts0, consumed_g),
                ts0 == old(self).toks(),
                match spec_read_param_list_acc(self.toks(), list@) {
                    Ok((m, k)) => spec_read_param_list_acc(ts0, Map::empty()) == Ok::<
                        (Map<Seq<char>, ParamView>, int),
                        Error,
                    >((m, consumed_g + k)),
                    Err(e) => spec_read_param_list_acc(ts0, Map::empty()) == Err::<
                        (Map<Seq<char>, ParamView>, int),
                        Error,
                    >(e),
                },
            decreases ts0.len() - consumed_g,
        {
            let more = match self.peek_quote() {
                Some(q) => q,
                None => false,
            };
            if !more {
                return Ok(list);
            }
            let ghost pre = self.toks();
            let param = match self.read_param() {
                Ok(p) => p,
                Err(e) => {
                    return Err(e);
                },
            };
            proof {
                lemma_spec_read_param_consumed(pre);
            }
            match list.add(param) {
                Ok(_) => (),
                Err(e) => {
                    return Err(e);
                },
            }
            proof {
                match spec_read_param(pre) {
                    Ok((pv, k)) => {
                        lemma_drop_n_add(ts0, consumed_g, k);
                        consumed_g = consumed_g + k;
                    },
                    Err(_) => {
                        assert(false);
                    },
                }
            }
        }
    }

    /// Whether the next token (if any) begins with a quote.
    fn peek_quote(&self) -> (r: Option<bool>)
        requires
            self.wf(),
        ensures
            match r {
                None => self.toks().len() == 0,
                Some(q) => self.toks().len() > 0 && q == is_quote_tok(self.toks()[0]),
            },
    {
        match self.tokenizer.peek() {
            Some(t) => Some(t.is_quote()),
            None => None,
        }
    }

    /// Parse the next directive; `EndOfFile` signals an exhausted
    /// stream.
    pub fn parse_next(&mut self) -> (r: Result<Element, Error>)
        requires
            old(self).wf(),
        ensures
            final(self).wf(),
            match (r, spec_parse_next(old(self).toks())) {
                (Ok(e), Ok((ev, k))) => e@ == ev && elem_wf(&e) && final(self).toks() == drop_n(old(self).toks(), k),
                (Err(e1), Err(e2)) => e1 == e2,
                _ => false,
            },
    {
        let next_token = match self.tokenizer.next() {
            Some(t) => t,
            None => {
                return Err(Error::EndOfFile);
            },
        };
        proof {
            assert(old(self).toks()[0] == next_token@);
            assert((seq![next_token@] + self.tokenizer.remaining()).skip(1) =~= self
                .tokenizer
                .remaining());
        }
        let directive = match next_token.directive() {
            Some(d) => d,
            None => {
                return Err(Error::UnknownDirective);
            },
        };
        let ghost ts0 = old(self).toks();
        match directive {
            Directive::Include | Directive::Import | Directive::ColorSpace
                | Directive::CoordinateSystem | Directive::CoordSysTransform
                | Directive::PixelFilter | Directive::Identity | Directive::ActiveTransform
                | Directive::ReverseOrientation | Directive::WorldBegin
                | Directive::AttributeBegin | Directive::AttributeEnd
                | Directive::NamedMaterial | Directive::ObjectBegin | Directive::ObjectEnd
                | Directive::ObjectInstance | Directive::MediumInterface => self.parse_scoped(
                directive,
                Ghost(ts0),
            ),
            Directive::Translate | Directive::Scale | Directive::Rotate | Directive::LookAt
                | Directive::Transform | Directive::ConcatTransform
                | Directive::TransformTimes => self.parse_transformation(directive, Ghost(ts0)),
            Directive::Option | Directive::Film | Directive::Camera | Directive::Sampler
                | Directive::Integrator | Directive::Accelerator | Directive::Attribute
                | Directive::LightSource | Directive::AreaLightSource | Directive::Material
                | Directive::MakeNamedMaterial | Directive::Texture | Directive::Shape
                | Directive::MakeNamedMedium => self.parse_resource(directive, Ghost(ts0)),
        }
    }

    #[verifier::rlimit(100)]
    fn parse_scoped(&mut self, directive: Directive, Ghost(ts0): Ghost<Seq<Seq<char>>>) -> (r: Result<
        Element,
        Error,
    >)
        requires
            old(self).wf(),
            ts0.len() > 0,
            spec_directive_of(ts0[0]) == Some(directive),
            old(self).toks() == drop_n(ts0, 1),
            directive == Directive::Include || directive == Directive::Import || directive == Directive::ColorSpace || directive == Directive::CoordinateSystem || directive == Directive::CoordSysTransform || directive == Directive::PixelFilter || directive == Directive::Identity || directive == Directive::ActiveTransform || directive == Directive::ReverseOrientation || directive == Directive::WorldBegin || directive == Directive::AttributeBegin || directive == Directive::AttributeEnd || directive == Directive::NamedMaterial || directive == Directive::ObjectBegin || directive == Directive::ObjectEnd || directive == Directive::ObjectInstance || directive == Directive::MediumInterface,
        ensures
            final(self).wf(),
            match (r, spec_parse_next(ts0)) {
                (Ok(e), Ok((ev, k))) => e@ == ev && elem_wf(&e) && final(self).toks() == drop_n(
                    ts0,
                    k,
                ),
                (Err(e1), Err(e2)) => e1 == e2,
                _ => false,
            },
    {
        let ghost ts1 = drop_n(ts0, 1);
        match directive {
            Directive::Include => match self.read_str() {
                Ok(p) => {
                    proof {
                        lemma_drop_n_add(ts0, 1, 1);
                    }
                    Ok(Element::Include(p))
                },
                Err(e) => Err(e),
            },
            Directive::Import => match self.read_str() {
                Ok(p) => {
                    proof {
                        lemma_drop_n_add(ts0, 1, 1);
                    }
                    Ok(Element::Import(p))
                },
                Err(e) => Err(e),
            },
            Directive::ColorSpace => match self.read_str() {
                Ok(ty) => {
                    proof {
                        lemma_drop_n_add(ts0, 1, 1);
                    }
                    Ok(Element::ColorSpace { ty })
                },
                Err(e) => Err(e),
            },
            Directive::CoordinateSystem => match self.read_str() {
                Ok(name) => {
                    proof {
                        lemma_drop_n_add(ts0, 1, 1);
                    }
                    Ok(Element::CoordinateSystem { name })
                },
                Err(e) => Err(e),
            },
            Directive::CoordSysTransform => match self.read_str() {
                Ok(name) => {
                    proof {
                        lemma_drop_n_add(ts0, 1, 1);
                    }
                    Ok(Element::CoordSysTransform { name })
                },
                Err(e) => Err(e),
            },
            Directive::PixelFilter => match self.read_str() {
                Ok(name) => {
                    proof {
                        lemma_drop_n_add(ts0, 1, 1);
                    }
                    Ok(Element::PixelFilter { name })
                },
                Err(e) => Err(e),
            },
            Directive::Identity => Ok(Element::Identity),
            Directive::ActiveTransform => match self.read_str() {
                Ok(ty) => {
                    proof {
                        lemma_drop_n_add(ts0, 1, 1);
                    }
                    Ok(Element::ActiveTransform { ty })
                },
                Err(e) => Err(e),
            },
            Directive::ReverseOrientation => Ok(Element::ReverseOrientation),
            Directive::WorldBegin => Ok(Element::WorldBegin),
            Directive::AttributeBegin => Ok(Element::AttributeBegin),
            Directive::AttributeEnd => Ok(Element::AttributeEnd),
            Directive::NamedMaterial => match self.read_str() {
                Ok(name) => {
                    proof {
                        lemma_drop_n_add(ts0, 1, 1);
                    }
                    Ok(Element::NamedMaterial { name })
                },
                Err(e) => Err(e),
            },
            Directive::ObjectBegin => match self.read_str() {
                Ok(name) => {
                    proof {
                        lemma_drop_n_add(ts0, 1, 1);
                    }
                    Ok(Element::ObjectBegin { name })
                },
                Err(e) => Err(e),
            },
            Directive::ObjectEnd => Ok(Element::ObjectEnd),
            Directive::ObjectInstance => match self.read_str() {
                Ok(name) => {
                    proof {
                        lemma_drop_n_add(ts0, 1, 1);
                    }
                    Ok(Element::ObjectInstance { name })
                },
                Err(e) => Err(e),
            },
            Directive::MediumInterface => {
                let interior = match self.read_str() {
                    Ok(s) => s,
                    Err(e) => {
                        return Err(e);
                    },
                };
                match self.read_str() {
                    Ok(exterior) => {
                        proof {
                            lemma_drop_n_add(ts0, 1, 1);
                            lemma_drop_n_add(ts0, 2, 1);
                        }
                        Ok(Element::MediumInterface { interior, exterior })
                    },
                    Err(e) => Err(e),
                }
            },
            _ => {
                proof {
                    assert(false);
                }
                Err(Error::UnknownDirective)
            },
        }
    }

    #[verifier::rlimit(100)]
    fn parse_transformation(&mut self, directive: Directive, Ghost(ts0): Ghost<Seq<Seq<char>>>) -> (r: Result<
        Element,
        Error,
    >)
        requires
            old(self).wf(),
            ts0.len() > 0,
            spec_directive_of(ts0[0]) == Some(directive),
            old(self).toks() == drop_n(ts0, 1),
            directive == Directive::Translate || directive == Directive::Scale || directive == Directive::Rotate || directive == Directive::LookAt || directive == Directive::Transform || directive == Directive::ConcatTransform || directive == Directive::TransformTimes,
        ensures
            final(self).wf(),
            match (r, spec_parse_next(ts0)) {
                (Ok(e), Ok((ev, k))) => e@ == ev && elem_wf(&e) && final(self).toks() == drop_n(
                    ts0,
                    k,
                ),
                (Err(e1), Err(e2)) => e1 == e2,
                _ => false,
            },
    {
        let ghost ts1 = drop_n(ts0, 1);
        match directive {
            Directive::Translate => match self.read_point() {
                Ok(v) => {
                    proof {
                        lemma_drop_n_add(ts0, 1, 3);
                    }
                    Ok(Element::Translate { v })
                },
                Err(e) => Err(e),
            },
            Directive::Scale => match self.read_point() {
                Ok(v) => {
                    proof {
                        lemma_drop_n_add(ts0, 1, 3);
                    }
                    Ok(Element::Scale { v })
                },
                Err(e) => Err(e),
            },
            Directive::Rotate => {
                let angle = match self.read_float() {
                    Ok(b) => b,
                    Err(e) => {
                        return Err(e);
                    },
                };
                match self.read_point() {
                    Ok(v) => {
                        proof {
                            lemma_drop_n_add(ts0, 1, 1);
                            lemma_drop_n_add(ts0, 2, 3);
                        }
                        Ok(Element::Rotate { angle, v })
                    },
                    Err(e) => Err(e),
                }
            },
            Directive::LookAt => {
                let eye = match self.read_point() {
                    Ok(v) => v,
                    Err(e) => {
                        return Err(e);
                    },
                };
                proof {
                    lemma_drop_n_add(ts0, 1, 3);
                    assert(drop_n(ts1, 3) =~= drop_n(ts0, 4));
                }
                let look_at = match self.read_point() {
                    Ok(v) => v,
                    Err(e) => {
                        return Err(e);
                    },
                };
                proof {
                    lemma_drop_n_add(ts0, 4, 3);
                    assert(drop_n(ts1, 6) =~= drop_n(ts0, 7));
                }
                match self.read_point() {
                    Ok(up) => {
                        proof {
                            lemma_drop_n_add(ts0, 7, 3);
                        }
                        Ok(Element::LookAt { eye, look_at, up })
                    },
                    Err(e) => Err(e),
                }
            },
            Directive::Transform => match self.read_braced_matrix() {
                Ok(m) => {
                    proof {
                        lemma_drop_n_add(ts0, 1, 18);
                    }
                    Ok(Element::Transform { m })
                },
                Err(e) => Err(e),
            },
            Directive::ConcatTransform => match self.read_braced_matrix() {
                Ok(m) => {
                    proof {
                        lemma_drop_n_add(ts0, 1, 18);
                    }
                    Ok(Element::ConcatTransform { m })
                },
                Err(e) => Err(e),
            },
            Directive::TransformTimes => {
                let start = match self.read_float() {
                    Ok(b) => b,
                    Err(e) => {
                        return Err(e);
                    },
                };
                match self.read_float() {
                    Ok(end) => {
                        proof {
                            lemma_drop_n_add(ts0, 1, 1);
                            lemma_drop_n_add(ts0, 2, 1);
                        }
                        Ok(Element::TransformTimes { start, end })
                    },
                    Err(e) => Err(e),
                }
            },
            _ => {
                proof {
                    assert(false);
                }
                Err(Error::UnknownDirective)
            },
        }
    }

    #[verifier::rlimit(100)]
    fn parse_resource(&mut self, directive: Directive, Ghost(ts0): Ghost<Seq<Seq<char>>>) -> (r: Result<
        Element,
        Error,
    >)
        requires
            old(self).wf(),
            ts0.len() > 0,
            spec_directive_of(ts0[0]) == Some(directive),
            old(self).toks() == drop_n(ts0, 1),
            directive == Directive::Option || directive == Directive::Film || directive == Directive::Camera || directive == Directive::Sampler || directive == Directive::Integrator || directive == Directive::Accelerator || directive == Directive::Attribute || directive == Directive::LightSource || directive == Directive::AreaLightSource || directive == Directive::Material || directive == Directive::MakeNamedMaterial || directive == Directive::Texture || directive == Directive::Shape || directive == Directive::MakeNamedMedium,
        ensures
            final(self).wf(),
            match (r, spec_parse_next(ts0)) {
                (Ok(e), Ok((ev, k))) => e@ == ev && elem_wf(&e) && final(self).toks() == drop_n(
                    ts0,
                    k,
                ),
                (Err(e1), Err(e2)) => e1 == e2,
                _ => false,
            },
    {
        let ghost ts1 = drop_n(ts0, 1);
        match directive {
            Directive::Option => match self.read_param() {
                Ok(p) => {
                    proof {
                        lemma_spec_read_param_consumed(ts1);
                        match spec_read_param(ts1) {
                            Ok((pv, k)) => {
                                lemma_drop_n_add(ts0, 1, k);
                            },
                            Err(_) => {},
                        }
                    }
                    Ok(Element::Option(p))
                },
                Err(e) => Err(e),
            },
            Directive::Film => match self.read_ty_params() {
                Ok((ty, params)) => {
                    proof {
                        lemma_resource_arm(ts0);
                        match spec_read_param_list(drop_n(drop_n(ts0, 1), 1)) {
                            Ok((m, k)) => {
                                lemma_drop_n_add(ts0, 1, 1 + k);
                            },
                            Err(_) => {},
                        }
                    }
                    Ok(Element::Film { ty, params })
                },
                Err(e) => Err(e),
            },
            Directive::Camera => match self.read_ty_params() {
                Ok((ty, params)) => {
                    proof {
                        lemma_resource_arm(ts0);
                        match spec_read_param_list(drop_n(drop_n(ts0, 1), 1)) {
                            Ok((m, k)) => {
                                lemma_drop_n_add(ts0, 1, 1 + k);
                            },
                            Err(_) => {},
                        }
                    }
                    Ok(Element::Camera { ty, params })
                },
                Err(e) => Err(e),
            },
            Directive::Sampler => match self.read_ty_params() {
                Ok((ty, params)) => {
                    proof {
                        lemma_resource_arm(ts0);
                        match spec_read_param_list(drop_n(drop_n(ts0, 1), 1)) {
                            Ok((m, k)) => {
                                lemma_drop_n_add(ts0, 1, 1 + k);
                            },
                            Err(_) => {},
                        }
                    }
                    Ok(Element::Sampler { ty, params })
                },
                Err(e) => Err(e),
            },
            Directive::Integrator => match self.read_ty_params() {
                Ok((ty, params)) => {
                    proof {
                        lemma_resource_arm(ts0);
                        match spec_read_param_list(drop_n(drop_n(ts0, 1), 1)) {
                            Ok((m, k)) => {
                                lemma_drop_n_add(ts0, 1, 1 + k);
                            },
                            Err(_) => {},
                        }
                    }
                    Ok(Element::Integrator { ty, params })
                },
                Err(e) => Err(e),
            },
            Directive::Accelerator => match self.read_ty_params() {
                Ok((ty, params)) => {
                    proof {
                        lemma_resource_arm(ts0);
                        match spec_read_param_list(drop_n(drop_n(ts0, 1), 1)) {
                            Ok((m, k)) => {
                                lemma_drop_n_add(ts0, 1, 1 + k);
                            },
                            Err(_) => {},
                        }
                    }
                    Ok(Element::Accelerator { ty, params })
                },
                Err(e) => Err(e),
            },
            Directive::Attribute => match self.read_ty_params() {
                Ok((target, params)) => {
                    proof {
                        lemma_resource_arm(ts0);
                        match spec_read_param_list(drop_n(drop_n(ts0, 1), 1)) {
                            Ok((m, k)) => {
                                lemma_drop_n_add(ts0, 1, 1 + k);
                            },
                            Err(_) => {},
                        }
                    }
                    Ok(Element::Attribute { target, params })
                },
                Err(e) => Err(e),
            },
            Directive::LightSource => match self.read_ty_params() {
                Ok((ty, params)) => {
                    proof {
                        lemma_resource_arm(ts0);
                        match spec_read_param_list(drop_n(drop_n(ts0, 1), 1)) {
                            Ok((m, k)) => {
                                lemma_drop_n_add(ts0, 1, 1 + k);
                            },
                            Err(_) => {},
                        }
                    }
                    Ok(Element::LightSource { ty, params })
                },
                Err(e) => Err(e),
            },
            Directive::AreaLightSource => match self.read_ty_params() {
                Ok((ty, params)) => {
                    proof {
                        lemma_resource_arm(ts0);
                        match spec_read_param_list(drop_n(drop_n(ts0, 1), 1)) {
                            Ok((m, k)) => {
                                lemma_drop_n_add(ts0, 1, 1 + k);
                            },
                            Err(_) => {},
                        }
                    }
                    Ok(Element::AreaLightSource { ty, params })
                },
                Err(e) => Err(e),
            },
            Directive::Material => match self.read_ty_params() {
                Ok((ty, params)) => {
                    proof {
                        lemma_resource_arm(ts0);
                        match spec_read_param_list(drop_n(drop_n(ts0, 1), 1)) {
                            Ok((m, k)) => {
                                lemma_drop_n_add(ts0, 1, 1 + k);
                            },
                            Err(_) => {},
                        }
                    }
                    Ok(Element::Material { ty, params })
                },
                Err(e) => Err(e),
            },
            Directive::MakeNamedMaterial => match self.read_ty_params() {
                Ok((name, params)) => {
                    proof {
                        lemma_resource_arm(ts0);
                        match spec_read_param_list(drop_n(drop_n(ts0, 1), 1)) {
                            Ok((m, k)) => {
                                lemma_drop_n_add(ts0, 1, 1 + k);
                            },
                            Err(_) => {},
                        }
                    }
                    Ok(Element::MakeNamedMaterial { name, params })
                },
                Err(e) => Err(e),
            },
            Directive::Texture => {
                let name = match self.read_str() {
                    Ok(s) => s,
                    Err(e) => {
                        return Err(e);
                    },
                };
                proof {
                    lemma_drop_n_add(ts0, 1, 1);
                }
                let ty = match self.read_str() {
                    Ok(s) => s,
                    Err(e) => {
                        return Err(e);
                    },
                };
                proof {
                    lemma_drop_n_add(ts0, 2, 1);
                    assert(drop_n(ts1, 2) =~= drop_n(ts0, 3));
                }
                let class = match self.read_str() {
                    Ok(s) => s,
                    Err(e) => {
                        return Err(e);
                    },
                };
                proof {
                    lemma_drop_n_add(ts0, 3, 1);
                    assert(drop_n(ts1, 3) =~= drop_n(ts0, 4));
                }
                match self.read_param_list() {
                    Ok(params) => {
                        proof {
                            lemma_spec_read_param_list_acc_consumed(
                                drop_n(ts1, 3),
                                Map::<Seq<char>, ParamView>::empty(),
                            );
                            match spec_read_param_list(drop_n(ts1, 3)) {
                                Ok((m, k)) => {
                                    lemma_drop_n_add(ts0, 4, k);
                                },
                                Err(_) => {},
                            }
                        }
                        Ok(Element::Texture { name, ty, class, params })
                    },
                    Err(e) => Err(e),
                }
            },
            Directive::Shape => match self.read_ty_params() {
                Ok((name, params)) => {
                    proof {
                        lemma_resource_arm(ts0);
                        match spec_read_param_list(drop_n(drop_n(ts0, 1), 1)) {
                            Ok((m, k)) => {
                                lemma_drop_n_add(ts0, 1, 1 + k);
                            },
                            Err(_) => {},
                        }
                    }
                    Ok(Element::Shape { name, params })
                },
                Err(e) => Err(e),
            },
            Directive::MakeNamedMedium => match self.read_ty_params() {
                Ok((name, params)) => {
                    proof {
                        lemma_resource_arm(ts0);
                        match spec_read_param_list(drop_n(drop_n(ts0, 1), 1)) {
                            Ok((m, k)) => {
                                lemma_drop_n_add(ts0, 1, 1 + k);
                            },
                            Err(_) => {},
                        }
                    }
                    Ok(Element::MakeNamedMedium { name, params })
                },
                Err(e) => Err(e),
            },
            _ => {
                proof {
                    assert(false);
                }
                Err(Error::UnknownDirective)
            },
        }
    }

    /// Read a quoted string then a trailing parameter list: the common
    /// shape of the resource directives. Consumes the string token and
    /// the list; callers account for the directive keyword itself.
    fn read_ty_params(&mut self) -> (r: Result<(String, ParamList), Error>)
        requires
            old(self).wf(),
        ensures
            final(self).wf(),
            ({
                let sres = spec_read_str(old(self).toks());
                match (r, sres) {
                    (Err(e1), Err(e2)) => e1 == e2,
                    (_, Ok(sv)) => match (
                        r,
                        spec_read_param_list(drop_n(old(self).toks(), 1)),
                    ) {
                        (Ok((s, pl)), Ok((m, k))) => s@ == sv && pl@ == m && pl.wf() && final(self).toks() == drop_n(old(self).toks(), 1 + k),
                        (Err(e1), Err(e2)) => e1 == e2,
                        _ => false,
                    },
                    _ => false,
                }
            }),
    {
        let s = match self.read_str() {
            Ok(s) => s,
            Err(e) => {
                return Err(e);
            },
        };
        let ghost mid = self.toks();
        match self.read_param_list() {
            Ok(pl) => {
                proof {
                    lemma_spec_read_param_list_acc_consumed(
                        mid,
                        Map::<Seq<char>, ParamView>::empty(),
                    );
                    match spec_read_param_list(mid) {
                        Ok((m, k)) => {
                            lemma_drop_n_add(old(self).toks(), 1, k);
                        },
                        Err(_) => {},
                    }
                }
                Ok((s, pl))
            },
            Err(e) => Err(e),
        }
    }

    /// Read `[`, sixteen floats, `]`.
    fn read_braced_matrix(&mut self) -> (r: Result<Matrix, Error>)
        requires
            old(self).wf(),
        ensures
            final(self).wf(),
            ({
                let ts = old(self).toks();
                match spec_skip_brace(ts) {
                    Err(e2) => r matches Err(e1) && e1 == e2,
                    Ok(_) => match spec_read_floats(drop_n(ts, 1), 16) {
                        Err(e2) => r matches Err(e1) && e1 == e2,
                        Ok(s) => match spec_skip_brace(drop_n(ts, 17)) {
                            Err(e2) => r matches Err(e1) && e1 == e2,
                            Ok(_) => r matches Ok(m) && m@ == s && m.wf() && final(self).toks()
                                == drop_n(ts, 18),
                        },
                    },
                }
            }),
    {
        match self.skip_brace() {
            Ok(_) => (),
            Err(e) => {
                return Err(e);
            },
        }
        let bits = match self.read_matrix() {
            Ok(v) => v,
            Err(e) => {
                return Err(e);
            },
        };
        proof {
            lemma_drop_n_add(old(self).toks(), 1, 16);
        }
        match self.skip_brace() {
            Ok(_) => (),
            Err(e) => {
                return Err(e);
            },
        }
        proof {
            lemma_drop_n_add(old(self).toks(), 17, 1);
        }
        Ok(Matrix::from_cols_bits(bits))
    }
}

} // verus!
