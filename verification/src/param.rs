//! Parameter management: `"type name"` headers, typed value containers,
//! and the name-keyed parameter table with duplicate detection.
use vstd::prelude::*;
use vstd::string::StrSliceExecFns;

use crate::error::Error;
use crate::num::{float_bits_of, spec_parse_bool, spec_parse_i32};
use crate::text::str_eq;
use crate::token::{spec_unquote, Token};
use crate::tokenizer::{find_from, is_space_char, lemma_find_from};

verus! {

/// Parameter type keyword vocabulary.
#[derive(Debug, PartialEq, Eq, Structural, Clone, Copy)]
pub enum ParamType {
    Boolean,
    Float,
    Integer,
    Point2,
    Point3,
    Vector2,
    Vector3,
    Normal3,
    Spectrum,
    Rgb,
    Blackbody,
    String,
    Texture,
}

/// The parameter type denoted by a type keyword, if any.
pub open spec fn spec_param_type_of(s: Seq<char>) -> Option<ParamType> {
    if s == "bool"@ {
        Some(ParamType::Boolean)
    } else if s == "integer"@ {
        Some(ParamType::Integer)
    } else if s == "float"@ {
        Some(ParamType::Float)
    } else if s == "point2"@ {
        Some(ParamType::Point2)
    } else if s == "vector2"@ {
        Some(ParamType::Vector2)
    } else if s == "point3"@ {
        Some(ParamType::Point3)
    } else if s == "vector3"@ {
        Some(ParamType::Vector3)
    } else if s == "normal3"@ {
        Some(ParamType::Normal3)
    } else if s == "spectrum"@ {
        Some(ParamType::Spectrum)
    } else if s == "rgb"@ {
        Some(ParamType::Rgb)
    } else if s == "blackbody"@ {
        Some(ParamType::Blackbody)
    } else if s == "string"@ {
        Some(ParamType::String)
    } else if s == "texture"@ {
        Some(ParamType::Texture)
    } else {
        None
    }
}

impl ParamType {
    /// Look a type keyword up in the vocabulary.
    pub fn parse_type(s: &str) -> (r: Result<ParamType, Error>)
        ensures
            match spec_param_type_of(s@) {
                Some(t) => r == Ok::<ParamType, Error>(t),
                None => r == Err::<ParamType, Error>(Error::InvalidParamType),
            },
    {
        if str_eq(s, "bool") {
            Ok(ParamType::Boolean)
        } else if str_eq(s, "integer") {
            Ok(ParamType::Integer)
        } else if str_eq(s, "float") {
            Ok(ParamType::Float)
        } else if str_eq(s, "point2") {
            Ok(ParamType::Point2)
        } else if str_eq(s, "vector2") {
            Ok(ParamType::Vector2)
        } else if str_eq(s, "point3") {
            Ok(ParamType::Point3)
        } else if str_eq(s, "vector3") {
            Ok(ParamType::Vector3)
        } else if str_eq(s, "normal3") {
            Ok(ParamType::Normal3)
        } else if str_eq(s, "spectrum") {
            Ok(ParamType::Spectrum)
        } else if str_eq(s, "rgb") {
            Ok(ParamType::Rgb)
        } else if str_eq(s, "blackbody") {
            Ok(ParamType::Blackbody)
        } else if str_eq(s, "string") {
            Ok(ParamType::String)
        } else if str_eq(s, "texture") {
            Ok(ParamType::Texture)
        } else {
            Err(Error::InvalidParamType)
        }
    }
}

impl core::str::FromStr for ParamType {
    type Err = Error;

    fn from_str(s: &str) -> Result<ParamType, Error> {
        ParamType::parse_type(s)
    }
}

/// A spectrum value: an RGB triple or a blackbody temperature. Float
/// components are carried as their bit patterns.
#[derive(Debug, PartialEq, Eq, Structural, Clone, Copy)]
pub enum Spectrum {
    Rgb(u32, u32, u32),
    Blackbody(i32),
}

/// A type-homogeneous value container. Float values are carried as their
/// bit patterns.
#[derive(Debug, PartialEq)]
pub enum Values {
    Floats(Vec<u32>),
    Integers(Vec<i32>),
    Strings(Vec<String>),
    Booleans(Vec<bool>),
}

/// The mathematical content of a value container.
pub enum ValuesView {
    Floats(Seq<u32>),
    Integers(Seq<i32>),
    Strings(Seq<Seq<char>>),
    Booleans(Seq<bool>),
}

impl View for Values {
    type V = ValuesView;

    open spec fn view(&self) -> ValuesView {
        match self {
            Values::Floats(v) => ValuesView::Floats(v@),
            Values::Integers(v) => ValuesView::Integers(v@),
            Values::Strings(v) => ValuesView::Strings(v.deep_view()),
            Values::Booleans(v) => ValuesView::Booleans(v@),
        }
    }
}

impl Clone for Values {
    fn clone(&self) -> (r: Self)
        ensures
            r@ == self@,
    {
        match self {
            Values::Floats(v) => Values::Floats(crate::text::copy_u32s(v)),
            Values::Integers(v) => Values::Integers(crate::text::copy_i32s(v)),
            Values::Strings(v) => Values::Strings(crate::text::copy_strings(v)),
            Values::Booleans(v) => Values::Booleans(crate::text::copy_bools(v)),
        }
    }
}

/// The value container a freshly declared parameter of a type starts
/// with: the tag alone decides the container, and it never changes.
pub open spec fn spec_empty_values(ty: ParamType) -> ValuesView {
    match ty {
        ParamType::Boolean => ValuesView::Booleans(Seq::empty()),
        ParamType::Integer => ValuesView::Integers(Seq::empty()),
        ParamType::Blackbody => ValuesView::Integers(Seq::empty()),
        ParamType::String => ValuesView::Strings(Seq::empty()),
        ParamType::Texture => ValuesView::Strings(Seq::empty()),
        _ => ValuesView::Floats(Seq::empty()),
    }
}

/// The mathematical content of a parameter.
pub struct ParamView {
    pub name: Seq<char>,
    pub ty: ParamType,
    pub values: ValuesView,
}

/// A single parsed parameter: a name, a declared type, and one or more
/// values.
#[derive(Debug, PartialEq)]
pub struct Param {
    /// Parameter name.
    pub name: String,
    /// Parameter type.
    pub ty: ParamType,
    /// One or more values.
    values: Values,
}

impl View for Param {
    type V = ParamView;

    closed spec fn view(&self) -> ParamView {
        ParamView { name: self.name@, ty: self.ty, values: self.values@ }
    }
}

impl Clone for Param {
    fn clone(&self) -> (r: Self)
        ensures
            r@ == self@,
    {
        Param { name: self.name.clone(), ty: self.ty, values: self.values.clone() }
    }
}

pub open spec fn p_space() -> spec_fn(char) -> bool {
    |c: char| is_space_char(c)
}

pub open spec fn p_non_space() -> spec_fn(char) -> bool {
    |c: char| !is_space_char(c)
}

/// Splitting a `"type name"` header on whitespace: the first two pieces,
/// any further text ignored.
pub open spec fn spec_header_pieces(s: Seq<char>) -> (Option<(Seq<char>, Seq<char>)>) {
    let a = find_from(s, 0, p_non_space());
    if a >= s.len() {
        None
    } else {
        let b = find_from(s, a, p_space());
        let c = find_from(s, b, p_non_space());
        if c >= s.len() {
            Some((s.subrange(a, b), Seq::empty()))
        } else {
            let d = find_from(s, c, p_space());
            Some((s.subrange(a, b), s.subrange(c, d)))
        }
    }
}

/// What declaring a parameter from a `"type name"` header yields: the
/// header must hold a type keyword from the vocabulary and a name.
pub open spec fn spec_param_new(s: Seq<char>) -> Result<ParamView, Error> {
    match spec_header_pieces(s) {
        None => Err(Error::InvalidParamName),
        Some((kw, name)) => match spec_param_type_of(kw) {
            None => Err(Error::InvalidParamType),
            Some(ty) => if name.len() == 0 {
                Err(Error::InvalidParamName)
            } else {
                Ok(ParamView { name, ty, values: spec_empty_values(ty) })
            },
        },
    }
}

/// What adding one value token to a container yields: the token text is
/// coerced as the container's type asks, or the matching parse error.
pub open spec fn spec_add_value(vals: ValuesView, t: Seq<char>) -> Result<ValuesView, Error> {
    match vals {
        ValuesView::Floats(s) => match float_bits_of(t) {
            Some(b) => Ok(ValuesView::Floats(s.push(b))),
            None => Err(Error::ParseFloat),
        },
        ValuesView::Integers(s) => match spec_parse_i32(t) {
            Some(v) => Ok(ValuesView::Integers(s.push(v))),
            None => Err(Error::ParseInt),
        },
        ValuesView::Strings(s) => match spec_unquote(t) {
            Some(q) => Ok(ValuesView::Strings(s.push(q))),
            None => Err(Error::InvalidToken),
        },
        ValuesView::Booleans(s) => match spec_parse_bool(t) {
            Some(b) => Ok(ValuesView::Booleans(s.push(b))),
            None => Err(Error::ParseBool),
        },
    }
}

pub open spec fn spec_floats_of(pv: ParamView) -> Option<Seq<u32>> {
    match pv.values {
        ValuesView::Floats(s) => Some(s),
        _ => None,
    }
}

pub open spec fn spec_integers_of(pv: ParamView) -> Option<Seq<i32>> {
    match pv.values {
        ValuesView::Integers(s) => Some(s),
        _ => None,
    }
}

pub open spec fn spec_strings_of(pv: ParamView) -> Option<Seq<Seq<char>>> {
    match pv.values {
        ValuesView::Strings(s) => Some(s),
        _ => None,
    }
}

pub open spec fn spec_booleans_of(pv: ParamView) -> Option<Seq<bool>> {
    match pv.values {
        ValuesView::Booleans(s) => Some(s),
        _ => None,
    }
}

/// The spectrum denoted by a parameter: an `rgb` parameter holding
/// exactly three floats, or a `blackbody` parameter holding at least one
/// integer temperature.
pub open spec fn spec_spectrum_of(pv: ParamView) -> Option<Spectrum> {
    if pv.ty == ParamType::Rgb {
        match pv.values {
            ValuesView::Floats(s) => if s.len() == 3 {
                Some(Spectrum::Rgb(s[0], s[1], s[2]))
            } else {
                None
            },
            _ => None,
        }
    } else if pv.ty == ParamType::Blackbody {
        match pv.values {
            ValuesView::Integers(s) => if s.len() > 0 {
                Some(Spectrum::Blackbody(s[0]))
            } else {
                None
            },
            _ => None,
        }
    } else {
        None
    }
}

/// Find the first piece boundary at or past `from`: the least position
/// whose character is (`space` true) or is not (`space` false) whitespace.
fn scan_str(s: &str, from: usize, space: bool) -> (r: usize)
    requires
        from <= s@.len(),
    ensures
        space ==> r == find_from(s@, from as int, p_space()),
        !space ==> r == find_from(s@, from as int, p_non_space()),
        from <= r <= s@.len(),
{
    let n = s.unicode_len();
    let mut i: usize = from;
    while i < n
        invariant
            from <= i <= n,
            n == s@.len(),
            space ==> find_from(s@, from as int, p_space()) == find_from(s@, i as int, p_space()),
            !space ==> find_from(s@, from as int, p_non_space()) == find_from(
                s@,
                i as int,
                p_non_space(),
            ),
        decreases n - i,
    {
        let c = s.get_char(i);
        let is_sp = c == ' ' || c == '\n' || c == '\t' || c == '\r';
        if is_sp == space {
            return i;
        }
        i = i + 1;
    }
    n
}

impl Param {
    /// Declare a parameter from its `"type name"` header text.
    pub fn new(type_and_name: &str) -> (r: Result<Param, Error>)
        ensures
            match (r, spec_param_new(type_and_name@)) {
                (Ok(p), Ok(v)) => p@ == v,
                (Err(e), Err(v)) => e == v,
                _ => false,
            },
    {
        let s = type_and_name;
        let n = s.unicode_len();
        let a = scan_str(s, 0, false);
        if a == n {
            return Err(Error::InvalidParamName);
        }
        let b = scan_str(s, a, true);
        let c = scan_str(s, b, false);
        let kw = s.substring_char(a, b);
        let ty = match ParamType::parse_type(kw) {
            Ok(ty) => ty,
            Err(e) => {
                return Err(e);
            },
        };
        if c == n {
            return Err(Error::InvalidParamName);
        }
        let d = scan_str(s, c, true);
        proof {
            lemma_find_from(s@, 0, p_non_space());
            lemma_find_from(s@, a as int, p_space());
            lemma_find_from(s@, b as int, p_non_space());
            lemma_find_from(s@, c as int, p_space());
            assert(d > c);
        }
        let name = s.substring_char(c, d).to_owned();
        let values = match ty {
            ParamType::Boolean => Values::Booleans(Vec::new()),
            ParamType::Integer => Values::Integers(Vec::new()),
            ParamType::Blackbody => Values::Integers(Vec::new()),
            ParamType::String => Values::Strings(Vec::new()),
            ParamType::Texture => Values::Strings(Vec::new()),
            _ => Values::Floats(Vec::new()),
        };
        proof {
            match values {
                Values::Strings(ref v0) => {
                    assert(v0.deep_view() =~= Seq::<Seq<char>>::empty());
                },
                _ => {},
            }
            assert(values@ == spec_empty_values(ty));
        }
        Ok(Param { name, ty, values })
    }

    /// Coerce one value token and append it to the container.
    pub fn add_token(&mut self, token: Token) -> (r: Result<(), Error>)
        ensures
            match spec_add_value(old(self)@.values, token@) {
                Ok(v) => r is Ok && final(self)@ == (ParamView {
                    values: v,
                    ..old(self)@
                }),
                Err(e) => r == Err::<(), Error>(e) && final(self)@ == old(self)@,
            },
    {
        match &mut self.values {
            Values::Floats(v) => match token.parse_float() {
                Some(b) => {
                    v.push(b);
                    Ok(())
                },
                None => Err(Error::ParseFloat),
            },
            Values::Integers(v) => match token.parse_int() {
                Some(x) => {
                    v.push(x);
                    Ok(())
                },
                None => Err(Error::ParseInt),
            },
            Values::Strings(v) => match token.unquote() {
                Some(q) => {
                    let ghost old_dv = v.deep_view();
                    let ghost qv = q@;
                    v.push(q);
                    proof {
                        assert(v.deep_view() =~= old_dv.push(qv));
                    }
                    Ok(())
                },
                None => Err(Error::InvalidToken),
            },
            Values::Booleans(v) => match token.parse_bool() {
                Some(b) => {
                    v.push(b);
                    Ok(())
                },
                None => Err(Error::ParseBool),
            },
        }
    }

    /// The spectrum this parameter denotes, when it is one.
    pub fn as_spectrum(&self) -> (r: Option<Spectrum>)
        ensures
            r == spec_spectrum_of(self@),
    {
        match self.ty {
            ParamType::Rgb => match &self.values {
                Values::Floats(v) => if v.len() == 3 {
                    Some(Spectrum::Rgb(v[0], v[1], v[2]))
                } else {
                    None
                },
                _ => None,
            },
            ParamType::Blackbody => match &self.values {
                Values::Integers(v) => if v.len() > 0 {
                    Some(Spectrum::Blackbody(v[0]))
                } else {
                    None
                },
                _ => None,
            },
            _ => None,
        }
    }

    /// The value as an RGB triple of float bit patterns, for an `rgb`
    /// parameter holding exactly three floats.
    pub fn as_rgb(&self) -> (r: Option<(u32, u32, u32)>)
        ensures
            match r {
                Some(t) => {
                    &&& self@.ty == ParamType::Rgb
                    &&& spec_floats_of(self@) matches Some(s) && s.len() == 3 && t == (
                    s[0],
                    s[1],
                    s[2],
                    )
                },
                None => self@.ty != ParamType::Rgb || !(spec_floats_of(self@) matches Some(s)
                    && s.len() == 3),
            },
    {
        match self.ty {
            ParamType::Rgb => match &self.values {
                Values::Floats(v) => if v.len() == 3 {
                    Some((v[0], v[1], v[2]))
                } else {
                    None
                },
                _ => None,
            },
            _ => None,
        }
    }

    /// The float values (as bit patterns), when this is a float-backed
    /// parameter.
    pub fn as_floats(&self) -> (r: Option<&[u32]>)
        ensures
            match r {
                Some(s) => spec_floats_of(self@) == Some(s@),
                None => spec_floats_of(self@) is None,
            },
    {
        match &self.values {
            Values::Floats(v) => Some(v.as_slice()),
            _ => None,
        }
    }

    /// The integer values, when this is an integer-backed parameter.
    pub fn as_integers(&self) -> (r: Option<&[i32]>)
        ensures
            match r {
                Some(s) => spec_integers_of(self@) == Some(s@),
                None => spec_integers_of(self@) is None,
            },
    {
        match &self.values {
            Values::Integers(v) => Some(v.as_slice()),
            _ => None,
        }
    }

    /// The string values, when this is a string-backed parameter.
    pub fn as_strings(&self) -> (r: Option<&Vec<String>>)
        ensures
            match r {
                Some(s) => spec_strings_of(self@) == Some(s.deep_view()),
                None => spec_strings_of(self@) is None,
            },
    {
        match &self.values {
            Values::Strings(v) => Some(v),
            _ => None,
        }
    }

    /// The boolean values, when this is a boolean-backed parameter.
    pub fn as_booleans(&self) -> (r: Option<&[bool]>)
        ensures
            match r {
                Some(s) => spec_booleans_of(self@) == Some(s@),
                None => spec_booleans_of(self@) is None,
            },
    {
        match &self.values {
            Values::Booleans(v) => Some(v.as_slice()),
            _ => None,
        }
    }
}

/// The name-keyed table denoted by a sequence of parameters; a later
/// entry with the same name wins.
pub open spec fn pl_map(items: Seq<Param>) -> Map<Seq<char>, ParamView>
    decreases items.len(),
{
    if items.len() == 0 {
        Map::empty()
    } else {
        pl_map(items.drop_last()).insert(items.last()@.name, items.last()@)
    }
}

/// No two entries share a name.
pub open spec fn unique_names(items: Seq<Param>) -> bool {
    forall|i: int, j: int| 0 <= i < j < items.len() ==> #[trigger] items[i]@.name != #[trigger] items[j]@.name
}

pub proof fn lemma_pl_map_contains(items: Seq<Param>, n: Seq<char>)
    ensures
        pl_map(items).contains_key(n) <==> exists|i: int|
            0 <= i < items.len() && #[trigger] items[i]@.name == n,
    decreases items.len(),
{
    if items.len() > 0 {
        lemma_pl_map_contains(items.drop_last(), n);
        if items.last()@.name == n {
            assert(items[items.len() - 1]@.name == n);
        } else if pl_map(items).contains_key(n) {
            let i = choose|i: int| 0 <= i < items.len() - 1 && #[trigger] items.drop_last()[i]@.name
                == n;
            assert(items[i]@.name == n);
        } else {
            assert forall|i: int| 0 <= i < items.len() implies #[trigger] items[i]@.name != n by {
                if i < items.len() - 1 {
                    assert(items.drop_last()[i]@.name == items[i]@.name);
                }
            }
        }
    }
}

pub proof fn lemma_pl_map_value(items: Seq<Param>, i: int)
    requires
        unique_names(items),
        0 <= i < items.len(),
    ensures
        pl_map(items).contains_key(items[i]@.name),
        pl_map(items)[items[i]@.name] == items[i]@,
    decreases items.len(),
{
    if i == items.len() - 1 {
    } else {
        assert(unique_names(items.drop_last()));
        assert(items.drop_last()[i] == items[i]);
        lemma_pl_map_value(items.drop_last(), i);
        assert(items[i]@.name != items.last()@.name);
    }
}

/// A name-keyed collection of parameters; insertion order is irrelevant.
#[derive(Debug, PartialEq)]
pub struct ParamList {
    items: Vec<Param>,
}

impl View for ParamList {
    type V = Map<Seq<char>, ParamView>;

    closed spec fn view(&self) -> Map<Seq<char>, ParamView> {
        pl_map(self.items@)
    }
}

impl Clone for ParamList {
    fn clone(&self) -> (r: Self)
        ensures
            r@ == self@,
            r.wf() == self.wf(),
    {
        let mut items: Vec<Param> = Vec::new();
        let mut i: usize = 0;
        while i < self.items.len()
            invariant
                i <= self.items.len(),
                items@.len() == i,
                forall|j: int| 0 <= j < i ==> #[trigger] items@[j]@ == self.items@[j]@,
            decreases self.items.len() - i,
        {
            items.push(self.items[i].clone());
            i = i + 1;
        }
        proof {
            lemma_pl_map_congruent(items@, self.items@);
        }
        ParamList { items }
    }
}

/// Two entry sequences with the same entry views denote the same table.
proof fn lemma_pl_map_congruent(a: Seq<Param>, b: Seq<Param>)
    requires
        a.len() == b.len(),
        forall|j: int| 0 <= j < a.len() ==> #[trigger] a[j]@ == #[trigger] b[j]@,
    ensures
        pl_map(a) == pl_map(b),
        unique_names(a) == unique_names(b),
    decreases a.len(),
{
    if a.len() > 0 {
        assert(forall|j: int| 0 <= j < a.len() - 1 ==> #[trigger] a.drop_last()[j]@
            == b.drop_last()[j]@);
        lemma_pl_map_congruent(a.drop_last(), b.drop_last());
        assert(a.last()@ == b.last()@);
        if unique_names(a) {
            assert forall|i: int, j: int| 0 <= i < j < b.len() implies #[trigger] b[i]@.name
                != #[trigger] b[j]@.name by {
                assert(a[i]@ == b[i]@ && a[j]@ == b[j]@);
            }
        }
        if unique_names(b) {
            assert forall|i: int, j: int| 0 <= i < j < a.len() implies #[trigger] a[i]@.name
                != #[trigger] a[j]@.name by {
                assert(a[i]@ == b[i]@ && a[j]@ == b[j]@);
            }
        }
    } else {
        assert(unique_names(a) && unique_names(b));
    }
}

impl Default for ParamList {
    fn default() -> (r: Self)
        ensures
            r@ == Map::<Seq<char>, ParamView>::empty(),
            r.wf(),
    {
        ParamList { items: Vec::new() }
    }
}

impl ParamList {
    /// The table holds no two entries with one name.
    pub closed spec fn wf(&self) -> bool {
        unique_names(self.items@)
    }

    /// The index of the entry with this name, if any.
    fn find_index(&self, name: &str) -> (r: Option<usize>)
        ensures
            match r {
                Some(i) => i < self.items@.len() && self.items@[i as int]@.name == name@,
                None => forall|i: int|
                    0 <= i < self.items@.len() ==> #[trigger] self.items@[i]@.name != name@,
            },
    {
        let mut i: usize = 0;
        while i < self.items.len()
            invariant
                i <= self.items.len(),
                forall|j: int| 0 <= j < i ==> #[trigger] self.items@[j]@.name != name@,
            decreases self.items.len() - i,
        {
            if str_eq(self.items[i].name.as_str(), name) {
                return Some(i);
            }
            i = i + 1;
        }
        None
    }

    /// Add a new parameter to the list; a parameter of that name must
    /// not already be present.
    pub fn add(&mut self, param: Param) -> (r: Result<(), Error>)
        requires
            old(self).wf(),
        ensures
            final(self).wf(),
            old(self)@.contains_key(param@.name) ==> r == Err::<(), Error>(
                Error::DuplicatedParamName,
            ) && final(self)@ == old(self)@,
            !old(self)@.contains_key(param@.name) ==> r is Ok && final(self)@ == old(
                self,
            )@.insert(param@.name, param@),
    {
        proof {
            lemma_pl_map_contains(self.items@, param@.name);
        }
        match self.find_index(param.name.as_str()) {
            Some(_) => Err(Error::DuplicatedParamName),
            None => {
                let ghost pre = self.items@;
                self.items.push(param);
                proof {
                    assert(self.items@.drop_last() =~= pre);
                    assert forall|i: int, j: int| 0 <= i < j < self.items@.len() implies #[trigger]
                        self.items@[i]@.name != #[trigger] self.items@[j]@.name by {
                        if j < self.items@.len() - 1 {
                            assert(pre[i] == self.items@[i] && pre[j] == self.items@[j]);
                        } else {
                            assert(pre[i] == self.items@[i]);
                            lemma_pl_map_contains(pre, self.items@[j]@.name);
                        }
                    }
                }
                Ok(())
            },
        }
    }

    /// Get a parameter by name.
    pub fn get(&self, name: &str) -> (r: Option<&Param>)
        requires
            self.wf(),
        ensures
            match r {
                Some(p) => self@.contains_key(name@) && p@ == self@[name@],
                None => !self@.contains_key(name@),
            },
    {
        proof {
            lemma_pl_map_contains(self.items@, name@);
        }
        match self.find_index(name) {
            Some(i) => {
                proof {
                    lemma_pl_map_value(self.items@, i as int);
                }
                Some(&self.items[i])
            },
            None => None,
        }
    }

    /// The number of parameters.
    pub fn len(&self) -> (r: usize)
        requires
            self.wf(),
        ensures
            r == self@.dom().len(),
    {
        proof {
            lemma_pl_map_len(self.items@);
        }
        self.items.len()
    }

    /// Whether the list holds no parameter.
    pub fn is_empty(&self) -> (r: bool)
        requires
            self.wf(),
        ensures
            r == (self@.dom().len() == 0),
    {
        proof {
            lemma_pl_map_len(self.items@);
        }
        self.items.len() == 0
    }

    /// The named parameter's float values (as bit patterns), when it
    /// exists and is float-backed.
    pub fn floats(&self, name: &str) -> (r: Option<&[u32]>)
        requires
            self.wf(),
        ensures
            match r {
                Some(s) => self@.contains_key(name@) && spec_floats_of(self@[name@]) == Some(s@),
                None => !self@.contains_key(name@) || spec_floats_of(self@[name@]) is None,
            },
    {
        match self.get(name) {
            Some(p) => p.as_floats(),
            None => None,
        }
    }

    /// The named parameter's integer values, when it exists and is
    /// integer-backed.
    pub fn integers(&self, name: &str) -> (r: Option<&[i32]>)
        requires
            self.wf(),
        ensures
            match r {
                Some(s) => self@.contains_key(name@) && spec_integers_of(self@[name@]) == Some(s@),
                None => !self@.contains_key(name@) || spec_integers_of(self@[name@]) is None,
            },
    {
        match self.get(name) {
            Some(p) => p.as_integers(),
            None => None,
        }
    }

    /// The named parameter's string values, when it exists and is
    /// string-backed.
    pub fn strings(&self, name: &str) -> (r: Option<&Vec<String>>)
        requires
            self.wf(),
        ensures
            match r {
                Some(s) => self@.contains_key(name@) && spec_strings_of(self@[name@]) == Some(
                    s.deep_view(),
                ),
                None => !self@.contains_key(name@) || spec_strings_of(self@[name@]) is None,
            },
    {
        match self.get(name) {
            Some(p) => p.as_strings(),
            None => None,
        }
    }

    /// The named parameter's boolean values, when it exists and is
    /// boolean-backed.
    pub fn booleans(&self, name: &str) -> (r: Option<&[bool]>)
        requires
            self.wf(),
        ensures
            match r {
                Some(s) => self@.contains_key(name@) && spec_booleans_of(self@[name@]) == Some(s@),
                None => !self@.contains_key(name@) || spec_booleans_of(self@[name@]) is None,
            },
    {
        match self.get(name) {
            Some(p) => p.as_booleans(),
            None => None,
        }
    }

    /// The first float (as a bit pattern) of the named parameter, or the
    /// default.
    pub fn float(&self, name: &str, default: u32) -> (r: u32)
        requires
            self.wf(),
        ensures
            r == spec_pl_float(self@, name@, default),
    {
        match self.floats(name) {
            Some(s) => if s.len() > 0 {
                s[0]
            } else {
                default
            },
            None => default,
        }
    }

    /// The first integer of the named parameter, or the default.
    pub fn integer(&self, name: &str, default: i32) -> (r: i32)
        requires
            self.wf(),
        ensures
            r == spec_pl_integer(self@, name@, default),
    {
        match self.integers(name) {
            Some(s) => if s.len() > 0 {
                s[0]
            } else {
                default
            },
            None => default,
        }
    }

    /// The first string of the named parameter, if any.
    pub fn string(&self, name: &str) -> (r: Option<&str>)
        requires
            self.wf(),
        ensures
            match spec_pl_string(self@, name@) {
                Some(s) => r matches Some(t) && t@ == s,
                None => r is None,
            },
    {
        match self.strings(name) {
            Some(v) => if v.len() > 0 {
                Some(v[0].as_str())
            } else {
                None
            },
            None => None,
        }
    }

    /// The first boolean of the named parameter, or the default.
    pub fn boolean(&self, name: &str, default: bool) -> (r: bool)
        requires
            self.wf(),
        ensures
            r == spec_pl_boolean(self@, name@, default),
    {
        match self.booleans(name) {
            Some(s) => if s.len() > 0 {
                s[0]
            } else {
                default
            },
            None => default,
        }
    }

    /// Insert every entry of `other`, overwriting any entry of the same
    /// name already present: `other`'s entries win.
    pub fn extend(&mut self, other: &ParamList)
        requires
            old(self).wf(),
        ensures
            final(self).wf(),
            final(self)@ == old(self)@.union_prefer_right(other@),
    {
        let n = other.items.len();
        let mut i: usize = 0;
        proof {
            assert(self@ =~= old(self)@.union_prefer_right(pl_map(other.items@.take(0))));
        }
        while i < n
            invariant
                i <= n,
                n == other.items@.len(),
                self.wf(),
                self@ == old(self)@.union_prefer_right(pl_map(other.items@.take(i as int))),
            decreases n - i,
        {
            let p = other.items[i].clone();
            proof {
                assert(other.items@.take(i + 1 as int).drop_last() =~= other.items@.take(i as int));
                assert(other.items@.take(i + 1 as int).last() == other.items@[i as int]);
                assert(pl_map(other.items@.take(i + 1 as int)) == pl_map(
                    other.items@.take(i as int),
                ).insert(other.items@[i as int]@.name, other.items@[i as int]@));
            }
            self.set_param(p);
            proof {
                assert(self@ =~= old(self)@.union_prefer_right(
                    pl_map(other.items@.take(i + 1 as int)),
                ));
            }
            i = i + 1;
        }
        proof {
            assert(other.items@.take(n as int) =~= other.items@);
        }
    }

    /// Insert one parameter, replacing an entry of the same name.
    pub(crate) fn set_param(&mut self, p: Param)
        requires
            old(self).wf(),
        ensures
            final(self).wf(),
            final(self)@ == old(self)@.insert(p@.name, p@),
    {
        match self.find_index(p.name.as_str()) {
            Some(idx) => {
                let ghost pre = self.items@;
                vstd::pervasive::VecAdditionalExecFns::set(&mut self.items, idx, p);
                proof {
                    lemma_pl_map_update(pre, idx as int, self.items@);
                }
            },
            None => {
                let ghost pre = self.items@;
                proof {
                    lemma_pl_map_contains(pre, p@.name);
                }
                self.items.push(p);
                proof {
                    assert(self.items@.drop_last() =~= pre);
                    assert forall|i: int, j: int| 0 <= i < j < self.items@.len() implies #[trigger]
                        self.items@[i]@.name != #[trigger] self.items@[j]@.name by {
                        if j < self.items@.len() - 1 {
                            assert(pre[i] == self.items@[i] && pre[j] == self.items@[j]);
                        } else {
                            assert(pre[i] == self.items@[i]);
                        }
                    }
                }
            },
        }
    }
}

/// The table that results from replacing the entry at `idx` by a
/// parameter of the same name.
proof fn lemma_pl_map_update(items: Seq<Param>, idx: int, u: Seq<Param>)
    requires
        unique_names(items),
        0 <= idx < items.len(),
        u.len() == items.len(),
        u[idx]@.name == items[idx]@.name,
        forall|j: int| 0 <= j < u.len() && j != idx ==> #[trigger] u[j]@ == items[j]@,
    ensures
        unique_names(u),
        pl_map(u) == pl_map(items).insert(u[idx]@.name, u[idx]@),
{
    let pv = u[idx]@;
    assert forall|i: int, j: int| 0 <= i < j < u.len() implies #[trigger] u[i]@.name != #[trigger]
        u[j]@.name by {
        assert(items[i]@.name != items[j]@.name);
        assert(u[i]@.name == items[i]@.name && u[j]@.name == items[j]@.name);
    }
    let m1 = pl_map(u);
    let m2 = pl_map(items).insert(pv.name, pv);
    assert forall|n: Seq<char>| m1.contains_key(n) == m2.contains_key(n) by {
        lemma_pl_map_contains(u, n);
        lemma_pl_map_contains(items, n);
        if m2.contains_key(n) {
            if n == pv.name {
                assert(u[idx]@.name == n);
            } else {
                let i = choose|i: int| 0 <= i < items.len() && #[trigger] items[i]@.name == n;
                assert(u[i]@.name == n);
            }
        }
        if m1.contains_key(n) {
            let i = choose|i: int| 0 <= i < u.len() && #[trigger] u[i]@.name == n;
            if i != idx {
                assert(items[i]@.name == n);
            }
        }
    }
    assert forall|n: Seq<char>| m1.contains_key(n) implies m1[n] == m2[n] by {
        lemma_pl_map_contains(u, n);
        let i = choose|i: int| 0 <= i < u.len() && #[trigger] u[i]@.name == n;
        lemma_pl_map_value(u, i);
        if i == idx {
            assert(m1[n] == pv);
        } else {
            lemma_pl_map_value(items, i);
            assert(n != pv.name);
        }
    }
    assert(m1 =~= m2);
}

/// A table of unique names has as many entries as names.
proof fn lemma_pl_map_len(items: Seq<Param>)
    requires
        unique_names(items),
    ensures
        pl_map(items).dom().len() == items.len(),
        pl_map(items).dom().finite(),
    decreases items.len(),
{
    broadcast use vstd::set::group_set_axioms;

    if items.len() == 0 {
        assert(pl_map(items).dom() =~= Set::<Seq<char>>::empty());
    } else {
        assert(unique_names(items.drop_last()));
        lemma_pl_map_len(items.drop_last());
        lemma_pl_map_contains(items.drop_last(), items.last()@.name);
        assert(!pl_map(items.drop_last()).contains_key(items.last()@.name));
        assert(pl_map(items).dom() =~= pl_map(items.drop_last()).dom().insert(
            items.last()@.name,
        ));
    }
}

/// The first float of the named table entry, or the default.
pub open spec fn spec_pl_float(m: Map<Seq<char>, ParamView>, n: Seq<char>, d: u32) -> u32 {
    if m.contains_key(n) {
        match spec_floats_of(m[n]) {
            Some(s) => if s.len() > 0 {
                s[0]
            } else {
                d
            },
            None => d,
        }
    } else {
        d
    }
}

/// The first integer of the named table entry, or the default.
pub open spec fn spec_pl_integer(m: Map<Seq<char>, ParamView>, n: Seq<char>, d: i32) -> i32 {
    if m.contains_key(n) {
        match spec_integers_of(m[n]) {
            Some(s) => if s.len() > 0 {
                s[0]
            } else {
                d
            },
            None => d,
        }
    } else {
        d
    }
}

/// The first string of the named table entry, if any.
pub open spec fn spec_pl_string(m: Map<Seq<char>, ParamView>, n: Seq<char>) -> Option<Seq<char>> {
    if m.contains_key(n) {
        match spec_strings_of(m[n]) {
            Some(s) => if s.len() > 0 {
                Some(s[0])
            } else {
                None
            },
            None => None,
        }
    } else {
        None
    }
}

/// The first boolean of the named table entry, or the default.
pub open spec fn spec_pl_boolean(m: Map<Seq<char>, ParamView>, n: Seq<char>, d: bool) -> bool {
    if m.contains_key(n) {
        match spec_booleans_of(m[n]) {
            Some(s) => if s.len() > 0 {
                s[0]
            } else {
                d
            },
            None => d,
        }
    } else {
        d
    }
}

} // verus!
