//! The scene builder: a graphics-state machine driven by the directive
//! stream, with attribute scoping, named registries, matrix composition
//! and nested file frames.
//!
//! The builder never reads a file itself: when an `Include` directive
//! names one, [`Loader::advance`] hands the path back to the caller, who
//! resolves it against the top-level file's directory, reads it, and
//! feeds the text to [`Loader::push_file`].
use vstd::prelude::*;
use vstd::string::StrSliceExecFns;

use crate::error::Error;
use crate::mat::{identity_bits, mat_inverse, mat_inverse_of, mat_look_at, mat_look_at_of, mat_mul,
    mat_mul_of, mat_rotation, scale_bits, translation_bits, Matrix};
use crate::param::{ParamList, ParamView};
use crate::parser::{elem_wf, spec_parse_next, ElemView, Element, Parser};
use crate::text::str_eq;
use crate::types::{AreaLight, Camera, Film, Integrator, Light, Material, Medium, Options,
    Accelerator, Sampler, Shape, Texture};

verus! {

/// The mathematical content of the graphics state.
#[verifier::ext_equal]
pub struct StateView {
    pub reverse_orientation: bool,
    pub ctm: Seq<u32>,
    pub inside_medium: Option<Seq<char>>,
    pub outside_medium: Option<Seq<char>>,
    pub material_index: Option<usize>,
    pub area_light_index: Option<usize>,
    pub shape_params: Map<Seq<char>, ParamView>,
    pub light_params: Map<Seq<char>, ParamView>,
    pub material_params: Map<Seq<char>, ParamView>,
    pub medium_params: Map<Seq<char>, ParamView>,
    pub texture_params: Map<Seq<char>, ParamView>,
}

/// The graphics state: the scope-restorable bundle a number of
/// directives modify, pushed and popped wholesale on scope entry and
/// exit.
#[derive(Debug)]
pub struct State {
    /// The reverse-orientation setting.
    pub reverse_orientation: bool,
    /// The current transformation matrix.
    pub transform_matrix: Matrix,
    pub current_inside_medium: Option<String>,
    pub current_outside_medium: Option<String>,
    pub material_index: Option<usize>,
    pub area_light_index: Option<usize>,
    pub shape_params: ParamList,
    pub light_params: ParamList,
    pub material_params: ParamList,
    pub medium_params: ParamList,
    pub texture_params: ParamList,
}

pub open spec fn opt_str_view(o: Option<String>) -> Option<Seq<char>> {
    match o {
        Some(s) => Some(s@),
        None => None,
    }
}

impl View for State {
    type V = StateView;

    open spec fn view(&self) -> StateView {
        StateView {
            reverse_orientation: self.reverse_orientation,
            ctm: self.transform_matrix@,
            inside_medium: opt_str_view(self.current_inside_medium),
            outside_medium: opt_str_view(self.current_outside_medium),
            material_index: self.material_index,
            area_light_index: self.area_light_index,
            shape_params: self.shape_params@,
            light_params: self.light_params@,
            material_params: self.material_params@,
            medium_params: self.medium_params@,
            texture_params: self.texture_params@,
        }
    }
}

fn copy_opt_string(o: &Option<String>) -> (r: Option<String>)
    ensures
        opt_str_view(r) == opt_str_view(*o),
{
    match o {
        Some(s) => Some(s.clone()),
        None => None,
    }
}

impl State {
    /// The matrix is 4x4 and every parameter table is well formed.
    pub open spec fn wf(&self) -> bool {
        &&& self.transform_matrix.wf()
        &&& self.shape_params.wf()
        &&& self.light_params.wf()
        &&& self.material_params.wf()
        &&& self.medium_params.wf()
        &&& self.texture_params.wf()
    }
}

impl Clone for State {
    fn clone(&self) -> (r: Self)
        ensures
            r@ == self@,
            r.wf() == self.wf(),
    {
        State {
            reverse_orientation: self.reverse_orientation,
            transform_matrix: self.transform_matrix.clone(),
            current_inside_medium: copy_opt_string(&self.current_inside_medium),
            current_outside_medium: copy_opt_string(&self.current_outside_medium),
            material_index: self.material_index,
            area_light_index: self.area_light_index,
            shape_params: self.shape_params.clone(),
            light_params: self.light_params.clone(),
            material_params: self.material_params.clone(),
            medium_params: self.medium_params.clone(),
            texture_params: self.texture_params.clone(),
        }
    }
}

impl Default for State {
    /// The initial graphics state: the identity transform and everything
    /// else empty.
    fn default() -> (r: Self)
        ensures
            r@ == initial_state(),
            r.wf(),
    {
        State {
            reverse_orientation: false,
            transform_matrix: Matrix::identity(),
            current_inside_medium: None,
            current_outside_medium: None,
            material_index: None,
            area_light_index: None,
            shape_params: ParamList::default(),
            light_params: ParamList::default(),
            material_params: ParamList::default(),
            medium_params: ParamList::default(),
            texture_params: ParamList::default(),
        }
    }
}

/// The graphics state a load starts from.
pub open spec fn initial_state() -> StateView {
    StateView {
        reverse_orientation: false,
        ctm: identity_bits(),
        inside_medium: None,
        outside_medium: None,
        material_index: None,
        area_light_index: None,
        shape_params: Map::empty(),
        light_params: Map::empty(),
        material_params: Map::empty(),
        medium_params: Map::empty(),
        texture_params: Map::empty(),
    }
}

/// The mathematical content of a stored resource entity.
#[verifier::ext_equal]
pub struct ResView {
    pub ty: Seq<char>,
    pub params: Map<Seq<char>, ParamView>,
}

#[verifier::ext_equal]
pub struct TexView {
    pub name: Seq<char>,
    pub ty: Seq<char>,
    pub class: Seq<char>,
    pub params: Map<Seq<char>, ParamView>,
}

#[verifier::ext_equal]
pub struct MedView {
    pub params: Map<Seq<char>, ParamView>,
}

#[verifier::ext_equal]
pub struct CamView {
    pub ty: Seq<char>,
    pub params: Map<Seq<char>, ParamView>,
    pub transform: Seq<u32>,
}

#[verifier::ext_equal]
pub struct ShapeView {
    pub ty: Seq<char>,
    pub params: Map<Seq<char>, ParamView>,
    pub reverse_orientation: bool,
    pub material_index: Option<usize>,
    pub area_light_index: Option<usize>,
}

/// The mathematical content of a scene.
#[verifier::ext_equal]
pub struct SceneView {
    pub options: Map<Seq<char>, ParamView>,
    pub camera: Option<CamView>,
    pub film: Option<ResView>,
    pub integrator: Option<ResView>,
    pub accelerator: Option<ResView>,
    pub sampler: Option<ResView>,
    pub textures: Seq<TexView>,
    pub materials: Seq<ResView>,
    pub lights: Seq<ResView>,
    pub area_lights: Seq<ResView>,
    pub mediums: Seq<MedView>,
    pub shapes: Seq<ShapeView>,
}

/// A camera together with the world-from-camera transform that was
/// active when it was declared.
#[derive(Debug)]
pub struct CameraEntity {
    pub params: Camera,
    pub transform: Matrix,
}

/// A shape together with its resolved back-references: the graphics
/// state's material and area light at declaration, by index.
#[derive(Debug)]
pub struct ShapeEntity {
    pub params: Shape,
    pub reverse_orientation: bool,
    pub material_index: Option<usize>,
    pub area_light_index: Option<usize>,
}

/// The scene aggregate a load produces.
#[derive(Debug)]
pub struct Scene {
    /// Global options.
    pub options: Options,
    /// Camera.
    pub camera: Option<CameraEntity>,
    pub film: Option<Film>,
    pub integrator: Option<Integrator>,
    pub accelerator: Option<Accelerator>,
    pub sampler: Option<Sampler>,
    pub textures: Vec<Texture>,
    pub materials: Vec<Material>,
    pub lights: Vec<Light>,
    pub area_lights: Vec<AreaLight>,
    pub mediums: Vec<Medium>,
    pub shapes: Vec<ShapeEntity>,
}

impl View for Scene {
    type V = SceneView;

    open spec fn view(&self) -> SceneView {
        SceneView {
            options: self.options.params@,
            camera: match self.camera {
                Some(c) => Some(
                    CamView { ty: c.params.ty@, params: c.params.params@, transform: c.transform@ },
                ),
                None => None,
            },
            film: match self.film {
                Some(f) => Some(ResView { ty: f.ty@, params: f.params@ }),
                None => None,
            },
            integrator: match self.integrator {
                Some(f) => Some(ResView { ty: f.ty@, params: f.params@ }),
                None => None,
            },
            accelerator: match self.accelerator {
                Some(f) => Some(ResView { ty: f.ty@, params: f.params@ }),
                None => None,
            },
            sampler: match self.sampler {
                Some(f) => Some(ResView { ty: f.ty@, params: f.params@ }),
                None => None,
            },
            textures: self.textures@.map_values(
                |t: Texture| TexView { name: t.name@, ty: t.ty@, class: t.class@, params: t.params@ },
            ),
            materials: self.materials@.map_values(
                |m: Material| ResView { ty: m.ty@, params: m.params@ },
            ),
            lights: self.lights@.map_values(|l: Light| ResView { ty: l.ty@, params: l.params@ }),
            area_lights: self.area_lights@.map_values(
                |l: AreaLight| ResView { ty: l.ty@, params: l.params@ },
            ),
            mediums: self.mediums@.map_values(|m: Medium| MedView { params: m.params@ }),
            shapes: self.shapes@.map_values(
                |s: ShapeEntity| ShapeView {
                    ty: s.params.ty@,
                    params: s.params.params@,
                    reverse_orientation: s.reverse_orientation,
                    material_index: s.material_index,
                    area_light_index: s.area_light_index,
                },
            ),
        }
    }
}

/// The empty scene.
pub open spec fn empty_scene() -> SceneView {
    SceneView {
        options: Map::empty(),
        camera: None,
        film: None,
        integrator: None,
        accelerator: None,
        sampler: None,
        textures: Seq::empty(),
        materials: Seq::empty(),
        lights: Seq::empty(),
        area_lights: Seq::empty(),
        mediums: Seq::empty(),
        shapes: Seq::empty(),
    }
}

impl Default for Scene {
    fn default() -> (r: Self)
        ensures
            r@ == empty_scene(),
            r.scene_wf(),
    {
        let r = Scene {
            options: Options::default(),
            camera: None,
            film: None,
            integrator: None,
            accelerator: None,
            sampler: None,
            textures: Vec::new(),
            materials: Vec::new(),
            lights: Vec::new(),
            area_lights: Vec::new(),
            mediums: Vec::new(),
            shapes: Vec::new(),
        };
        proof {
            assert(r@ =~= empty_scene());
        }
        r
    }
}

impl Scene {
    /// Every stored parameter table is well formed, and the camera
    /// transform is 4x4.
    pub open spec fn scene_wf(&self) -> bool {
        &&& self.options.params.wf()
        &&& (self.camera matches Some(c) ==> c.params.params.wf() && c.transform.wf())
        &&& (self.film matches Some(f) ==> f.params.wf())
        &&& (self.integrator matches Some(f) ==> f.params.wf())
        &&& (self.accelerator matches Some(f) ==> f.params.wf())
        &&& (self.sampler matches Some(f) ==> f.params.wf())
        &&& (forall|i: int|
            0 <= i < self.textures@.len() ==> (#[trigger] self.textures@[i]).params.wf())
        &&& (forall|i: int|
            0 <= i < self.materials@.len() ==> (#[trigger] self.materials@[i]).params.wf())
        &&& (forall|i: int| 0 <= i < self.lights@.len() ==> (#[trigger] self.lights@[i]).params.wf())
        &&& (forall|i: int|
            0 <= i < self.area_lights@.len() ==> (#[trigger] self.area_lights@[i]).params.wf())
        &&& (forall|i: int|
            0 <= i < self.mediums@.len() ==> (#[trigger] self.mediums@[i]).params.wf())
        &&& (forall|i: int|
            0 <= i < self.shapes@.len() ==> (#[trigger] self.shapes@[i]).params.params.wf())
    }
}

/// The whole of a loader's knowledge: the scene built so far, the
/// current graphics state, the scope stack, the named snapshots and
/// registries, and whether the world block has begun.
#[verifier::ext_equal]
pub struct LoaderView {
    pub scene: SceneView,
    pub state: StateView,
    pub stack: Seq<StateView>,
    pub coords: Seq<(Seq<char>, Seq<u32>)>,
    pub textures_reg: Seq<(Seq<char>, usize)>,
    pub materials_reg: Seq<(Seq<char>, usize)>,
    pub mediums_reg: Seq<(Seq<char>, usize)>,
    pub world: bool,
}

/// Resolution in an append-only name registry: the latest entry wins.
pub open spec fn assoc<V>(s: Seq<(Seq<char>, V)>, n: Seq<char>) -> Option<V>
    decreases s.len(),
{
    if s.len() == 0 {
        None
    } else if s.last().0 == n {
        Some(s.last().1)
    } else {
        assoc(s.drop_last(), n)
    }
}

/// Whether a path names a gzip-compressed file, which this loader does
/// not decode.
pub open spec fn ends_gz(p: Seq<char>) -> bool {
    p.len() >= 3 && p[p.len() - 3] == '.' && p[p.len() - 2] == 'g' && p[p.len() - 1] == 'z'
}

/// Whether a directive only composes or restores the current transform.
pub open spec fn is_transform_elem(e: ElemView) -> bool {
    match e {
        ElemView::Identity => true,
        ElemView::Translate { .. } => true,
        ElemView::Scale { .. } => true,
        ElemView::Rotate { .. } => true,
        ElemView::LookAt { .. } => true,
        ElemView::Transform { .. } => true,
        ElemView::ConcatTransform { .. } => true,
        _ => false,
    }
}

/// How one directive takes the loader from one state to the next: the
/// resulting state, and the outcome (`Ok(Some(path))` asks the caller
/// for a file's text, `Ok(None)` is an ordinary step).
pub open spec fn loader_step(
    pre: LoaderView,
    e: ElemView,
    post: LoaderView,
    r: Result<Option<Seq<char>>, Error>,
) -> bool {
    match e {
        ElemView::Include(p) => if ends_gz(p) {
            post == pre && r == Err::<Option<Seq<char>>, Error>(Error::Unsupported)
        } else {
            post == pre && r == Ok::<Option<Seq<char>>, Error>(Some(p))
        },
        ElemView::Import(_) => post == pre && r == Err::<Option<Seq<char>>, Error>(
            Error::Unsupported,
        ),
        ElemView::Option(pv) => r == Ok::<Option<Seq<char>>, Error>(None) && post
            == (LoaderView {
            scene: SceneView { options: pre.scene.options.insert(pv.name, pv), ..pre.scene },
            ..pre
        }),
        ElemView::Film { ty, params } => r == Ok::<Option<Seq<char>>, Error>(None) && post
            == (LoaderView {
            scene: SceneView { film: Some(ResView { ty, params }), ..pre.scene },
            ..pre
        }),
        ElemView::Integrator { ty, params } => r == Ok::<Option<Seq<char>>, Error>(None) && post
            == (LoaderView {
            scene: SceneView { integrator: Some(ResView { ty, params }), ..pre.scene },
            ..pre
        }),
        ElemView::Accelerator { ty, params } => r == Ok::<Option<Seq<char>>, Error>(None) && post
            == (LoaderView {
            scene: SceneView { accelerator: Some(ResView { ty, params }), ..pre.scene },
            ..pre
        }),
        ElemView::Sampler { ty, params } => r == Ok::<Option<Seq<char>>, Error>(None) && post
            == (LoaderView {
            scene: SceneView { sampler: Some(ResView { ty, params }), ..pre.scene },
            ..pre
        }),
        // The camera transform is the inverse of the transform active at
        // this point, and it is also recorded under the reserved name
        // "camera" in the named-coordinate-system table.
        ElemView::Camera { ty, params } => r == Ok::<Option<Seq<char>>, Error>(None) && post
            == (LoaderView {
            scene: SceneView {
                camera: Some(
                    CamView { ty, params, transform: mat_inverse_of(pre.state.ctm) },
                ),
                ..pre.scene
            },
            coords: pre.coords.push(("camera"@, mat_inverse_of(pre.state.ctm))),
            ..pre
        }),
        ElemView::CoordinateSystem { name } => r == Ok::<Option<Seq<char>>, Error>(None) && post
            == (LoaderView { coords: pre.coords.push((name, pre.state.ctm)), ..pre }),
        ElemView::CoordSysTransform { name } => match assoc(pre.coords, name) {
            Some(m) => r == Ok::<Option<Seq<char>>, Error>(None) && post == (LoaderView {
                state: StateView { ctm: m, ..pre.state },
                ..pre
            }),
            None => post == pre && r == Err::<Option<Seq<char>>, Error>(
                Error::UnknownCoordinateSystem,
            ),
        },
        ElemView::Identity => r == Ok::<Option<Seq<char>>, Error>(None) && post == (LoaderView {
            state: StateView { ctm: identity_bits(), ..pre.state },
            ..pre
        }),
        ElemView::Translate { v } => r == Ok::<Option<Seq<char>>, Error>(None) && post
            == (LoaderView {
            state: StateView {
                ctm: mat_mul_of(pre.state.ctm, translation_bits(v.0, v.1, v.2)),
                ..pre.state
            },
            ..pre
        }),
        ElemView::Scale { v } => r == Ok::<Option<Seq<char>>, Error>(None) && post == (LoaderView {
            state: StateView {
                ctm: mat_mul_of(pre.state.ctm, scale_bits(v.0, v.1, v.2)),
                ..pre.state
            },
            ..pre
        }),
        // The angle and axis are handed to the rotation exactly as the
        // directive wrote them (the wire format says degrees; no
        // conversion and no axis normalization happens here), and the
        // entries involve the platform's sine and cosine: only the
        // matrix shape is known, while the composition order is exact.
        ElemView::Rotate { angle, v } => r == Ok::<Option<Seq<char>>, Error>(None) && exists|
            m: Seq<u32>,
        |
            m.len() == 16 && post == (LoaderView {
                state: StateView { ctm: #[trigger] mat_mul_of(pre.state.ctm, m), ..pre.state },
                ..pre
            }),
        ElemView::LookAt { eye, look_at, up } => r == Ok::<Option<Seq<char>>, Error>(None) && post
            == (LoaderView {
            state: StateView {
                ctm: mat_mul_of(
                    pre.state.ctm,
                    mat_look_at_of(
                        eye.0,
                        eye.1,
                        eye.2,
                        look_at.0,
                        look_at.1,
                        look_at.2,
                        up.0,
                        up.1,
                        up.2,
                    ),
                ),
                ..pre.state
            },
            ..pre
        }),
        ElemView::Transform { m } => r == Ok::<Option<Seq<char>>, Error>(None) && post
            == (LoaderView { state: StateView { ctm: m, ..pre.state }, ..pre }),
        ElemView::ConcatTransform { m } => r == Ok::<Option<Seq<char>>, Error>(None) && post
            == (LoaderView {
            state: StateView { ctm: mat_mul_of(pre.state.ctm, m), ..pre.state },
            ..pre
        }),
        ElemView::TransformTimes { .. } => post == pre && r == Err::<Option<Seq<char>>, Error>(
            Error::Unsupported,
        ),
        ElemView::ActiveTransform { .. } => post == pre && r == Err::<Option<Seq<char>>, Error>(
            Error::Unsupported,
        ),
        ElemView::ColorSpace { .. } => post == pre && r == Err::<Option<Seq<char>>, Error>(
            Error::Unsupported,
        ),
        ElemView::PixelFilter { .. } => post == pre && r == Err::<Option<Seq<char>>, Error>(
            Error::Unsupported,
        ),
        ElemView::ObjectBegin { .. } => post == pre && r == Err::<Option<Seq<char>>, Error>(
            Error::Unsupported,
        ),
        ElemView::ObjectEnd => post == pre && r == Err::<Option<Seq<char>>, Error>(
            Error::Unsupported,
        ),
        ElemView::ObjectInstance { .. } => post == pre && r == Err::<Option<Seq<char>>, Error>(
            Error::Unsupported,
        ),
        ElemView::ReverseOrientation => r == Ok::<Option<Seq<char>>, Error>(None) && post
            == (LoaderView {
            state: StateView {
                reverse_orientation: !pre.state.reverse_orientation,
                ..pre.state
            },
            ..pre
        }),
        ElemView::WorldBegin => r == Ok::<Option<Seq<char>>, Error>(None) && post == (LoaderView {
            state: StateView { ctm: identity_bits(), ..pre.state },
            world: true,
            ..pre
        }),
        ElemView::AttributeBegin => r == Ok::<Option<Seq<char>>, Error>(None) && post
            == (LoaderView { stack: pre.stack.push(pre.state), ..pre }),
        ElemView::AttributeEnd => if pre.stack.len() == 0 {
            post == pre && r == Err::<Option<Seq<char>>, Error>(Error::TooManyEndAttributes)
        } else {
            r == Ok::<Option<Seq<char>>, Error>(None) && post == (LoaderView {
                state: pre.stack.last(),
                stack: pre.stack.drop_last(),
                ..pre
            })
        },
        // A generic attribute extends the matching category's inherited
        // table; the new entries win over older inherited ones.
        ElemView::Attribute { target, params } => if target == "shape"@ {
            r == Ok::<Option<Seq<char>>, Error>(None) && post == (LoaderView {
                state: StateView {
                    shape_params: pre.state.shape_params.union_prefer_right(params),
                    ..pre.state
                },
                ..pre
            })
        } else if target == "light"@ {
            r == Ok::<Option<Seq<char>>, Error>(None) && post == (LoaderView {
                state: StateView {
                    light_params: pre.state.light_params.union_prefer_right(params),
                    ..pre.state
                },
                ..pre
            })
        } else if target == "material"@ {
            r == Ok::<Option<Seq<char>>, Error>(None) && post == (LoaderView {
                state: StateView {
                    material_params: pre.state.material_params.union_prefer_right(params),
                    ..pre.state
                },
                ..pre
            })
        } else if target == "medium"@ {
            r == Ok::<Option<Seq<char>>, Error>(None) && post == (LoaderView {
                state: StateView {
                    medium_params: pre.state.medium_params.union_prefer_right(params),
                    ..pre.state
                },
                ..pre
            })
        } else if target == "texture"@ {
            r == Ok::<Option<Seq<char>>, Error>(None) && post == (LoaderView {
                state: StateView {
                    texture_params: pre.state.texture_params.union_prefer_right(params),
                    ..pre.state
                },
                ..pre
            })
        } else {
            post == pre && r == Err::<Option<Seq<char>>, Error>(Error::Unsupported)
        },
        // Lights are stored as declared: the inherited light table only
        // applies to area lights.
        ElemView::LightSource { ty, params } => r == Ok::<Option<Seq<char>>, Error>(None) && post
            == (LoaderView {
            scene: SceneView {
                lights: pre.scene.lights.push(ResView { ty, params }),
                ..pre.scene
            },
            ..pre
        }),
        // The inherited table's entries win over the directive's own.
        ElemView::AreaLightSource { ty, params } => r == Ok::<Option<Seq<char>>, Error>(None)
            && post == (LoaderView {
            scene: SceneView {
                area_lights: pre.scene.area_lights.push(
                    ResView { ty, params: params.union_prefer_right(pre.state.light_params) },
                ),
                ..pre.scene
            },
            state: StateView {
                area_light_index: Some(pre.scene.area_lights.len() as usize),
                ..pre.state
            },
            ..pre
        }),
        ElemView::Material { ty, params } => r == Ok::<Option<Seq<char>>, Error>(None) && post
            == (LoaderView {
            scene: SceneView {
                materials: pre.scene.materials.push(
                    ResView { ty, params: params.union_prefer_right(pre.state.material_params) },
                ),
                ..pre.scene
            },
            state: StateView {
                material_index: Some(pre.scene.materials.len() as usize),
                ..pre.state
            },
            ..pre
        }),
        // A named material is stored under its name and registered; the
        // current material is not changed.
        ElemView::MakeNamedMaterial { name, params } => r == Ok::<Option<Seq<char>>, Error>(None)
            && post == (LoaderView {
            scene: SceneView {
                materials: pre.scene.materials.push(
                    ResView {
                        ty: name,
                        params: params.union_prefer_right(pre.state.material_params),
                    },
                ),
                ..pre.scene
            },
            materials_reg: pre.materials_reg.push(
                (name, pre.scene.materials.len() as usize),
            ),
            ..pre
        }),
        // An unresolved name silently selects no material: this
        // asymmetry with CoordSysTransform is deliberate.
        ElemView::NamedMaterial { name } => r == Ok::<Option<Seq<char>>, Error>(None) && post
            == (LoaderView {
            state: StateView {
                material_index: assoc(pre.materials_reg, name),
                ..pre.state
            },
            ..pre
        }),
        ElemView::Texture { name, ty, class, params } => r == Ok::<Option<Seq<char>>, Error>(None)
            && post == (LoaderView {
            scene: SceneView {
                textures: pre.scene.textures.push(
                    TexView {
                        name,
                        ty,
                        class,
                        params: params.union_prefer_right(pre.state.texture_params),
                    },
                ),
                ..pre.scene
            },
            textures_reg: pre.textures_reg.push((name, pre.scene.textures.len() as usize)),
            ..pre
        }),
        ElemView::Shape { name, params } => r == Ok::<Option<Seq<char>>, Error>(None) && post
            == (LoaderView {
            scene: SceneView {
                shapes: pre.scene.shapes.push(
                    ShapeView {
                        ty: name,
                        params: params.union_prefer_right(pre.state.shape_params),
                        reverse_orientation: pre.state.reverse_orientation,
                        material_index: pre.state.material_index,
                        area_light_index: pre.state.area_light_index,
                    },
                ),
                ..pre.scene
            },
            ..pre
        }),
        ElemView::MakeNamedMedium { name, params } => r == Ok::<Option<Seq<char>>, Error>(None)
            && post == (LoaderView {
            scene: SceneView {
                mediums: pre.scene.mediums.push(
                    MedView { params: params.union_prefer_right(pre.state.medium_params) },
                ),
                ..pre.scene
            },
            mediums_reg: pre.mediums_reg.push((name, pre.scene.mediums.len() as usize)),
            ..pre
        }),
        ElemView::MediumInterface { interior, exterior } => r == Ok::<Option<Seq<char>>, Error>(
            None,
        ) && post == (LoaderView {
            state: StateView {
                inside_medium: Some(interior),
                outside_medium: Some(exterior),
                ..pre.state
            },
            ..pre
        }),
    }
}

/// A chain of ordinary (non-file-requesting, non-failing) steps.
pub open spec fn loader_steps(pre: LoaderView, es: Seq<ElemView>, post: LoaderView) -> bool
    decreases es.len(),
{
    if es.len() == 0 {
        post == pre
    } else {
        exists|mid: LoaderView|
            #[trigger] loader_step(pre, es[0], mid, Ok(None)) && loader_steps(
                mid,
                es.skip(1),
                post,
            )
    }
}

pub proof fn lemma_loader_steps_snoc(
    pre: LoaderView,
    es: Seq<ElemView>,
    mid: LoaderView,
    e: ElemView,
    post: LoaderView,
)
    requires
        loader_steps(pre, es, mid),
        loader_step(mid, e, post, Ok(None)),
    ensures
        loader_steps(pre, es.push(e), post),
    decreases es.len(),
{
    if es.len() == 0 {
        assert(es.push(e)[0] == e);
        assert(es.push(e).skip(1) =~= Seq::<ElemView>::empty());
        assert(loader_step(pre, es.push(e)[0], post, Ok(None)));
        assert(loader_steps(post, es.push(e).skip(1), post));
    } else {
        let m1 = choose|m1: LoaderView|
            #[trigger] loader_step(pre, es[0], m1, Ok(None)) && loader_steps(m1, es.skip(1), mid);
        lemma_loader_steps_snoc(m1, es.skip(1), mid, e, post);
        assert(es.push(e)[0] == es[0]);
        assert(es.push(e).skip(1) =~= es.skip(1).push(e));
        assert(loader_step(pre, es.push(e)[0], m1, Ok(None)));
        assert(loader_steps(m1, es.push(e).skip(1), post));
    }
}

/// What one applied directive reports: nothing, or the path of a file the
/// caller must resolve and read.
pub open spec fn res_view(r: Result<Option<String>, Error>) -> Result<Option<Seq<char>>, Error> {
    match r {
        Ok(Some(p)) => Ok(Some(p@)),
        Ok(None) => Ok(None),
        Err(e) => Err(e),
    }
}

pub open spec fn states_view(s: Seq<State>) -> Seq<StateView> {
    s.map_values(|st: State| st@)
}

pub open spec fn coords_view(s: Seq<(String, Matrix)>) -> Seq<(Seq<char>, Seq<u32>)> {
    s.map_values(|p: (String, Matrix)| (p.0@, p.1@))
}

pub open spec fn regs_view(s: Seq<(String, usize)>) -> Seq<(Seq<char>, usize)> {
    s.map_values(|p: (String, usize)| (p.0@, p.1))
}

/// Resolve a name in an index registry, the latest entry winning.
fn lookup_reg(v: &Vec<(String, usize)>, name: &str) -> (r: Option<usize>)
    ensures
        r == assoc(regs_view(v@), name@),
{
    let ghost rv = regs_view(v@);
    let mut i: usize = v.len();
    proof {
        assert(rv.take(v@.len() as int) =~= rv);
    }
    while i > 0
        invariant
            i <= v@.len(),
            rv == regs_view(v@),
            assoc(rv, name@) == assoc(rv.take(i as int), name@),
        decreases i,
    {
        i = i - 1;
        proof {
            assert(rv.take(i + 1 as int).last() == rv[i as int]);
            assert(rv.take(i + 1 as int).drop_last() =~= rv.take(i as int));
        }
        if str_eq(v[i].0.as_str(), name) {
            proof {
                assert(rv[i as int].0 == name@);
                assert(assoc(rv.take(i + 1 as int), name@) == Some(rv[i as int].1));
            }
            return Some(v[i].1);
        }
        proof {
            assert(rv[i as int].0 != name@);
        }
    }
    None
}

/// Resolve a name in the named-coordinate-system table, the latest entry
/// winning.
fn lookup_coord(v: &Vec<(String, Matrix)>, name: &str) -> (r: Option<Matrix>)
    requires
        forall|i: int| 0 <= i < v@.len() ==> (#[trigger] v@[i]).1.wf(),
    ensures
        match (r, assoc(coords_view(v@), name@)) {
            (Some(m), Some(mv)) => m@ == mv && m.wf(),
            (None, None) => true,
            _ => false,
        },
{
    let ghost rv = coords_view(v@);
    let mut i: usize = v.len();
    proof {
        assert(rv.take(v@.len() as int) =~= rv);
    }
    while i > 0
        invariant
            i <= v@.len(),
            rv == coords_view(v@),
            forall|j: int| 0 <= j < v@.len() ==> (#[trigger] v@[j]).1.wf(),
            assoc(rv, name@) == assoc(rv.take(i as int), name@),
        decreases i,
    {
        i = i - 1;
        proof {
            assert(rv.take(i + 1 as int).last() == rv[i as int]);
            assert(rv.take(i + 1 as int).drop_last() =~= rv.take(i as int));
        }
        if str_eq(v[i].0.as_str(), name) {
            proof {
                assert(rv[i as int].0 == name@);
                assert(assoc(rv.take(i + 1 as int), name@) == Some(rv[i as int].1));
            }
            return Some(v[i].1.clone());
        }
        proof {
            assert(rv[i as int].0 != name@);
        }
    }
    None
}

/// Whether a path's last three characters are ".gz".
fn ends_with_gz(s: &str) -> (r: bool)
    ensures
        r == ends_gz(s@),
{
    let n = s.unicode_len();
    if n < 3 {
        return false;
    }
    s.get_char(n - 3) == '.' && s.get_char(n - 2) == 'g' && s.get_char(n - 1) == 'z'
}

/// What `advance` reports: the text of a named file is needed, or the
/// frame stack is drained and the load is complete.
#[derive(Debug, PartialEq)]
pub enum LoadStep {
    /// An `Include` directive names this file (exactly as written); the
    /// caller resolves it against the top-level file's directory, reads
    /// it, and hands the text to `push_file`.
    NeedFile(String),
    /// All frames are exhausted.
    Done,
}

/// The scene builder: feeds directives from a stack of file frames into
/// the graphics-state machine.
pub struct Loader {
    scene: Scene,
    state: State,
    state_stack: Vec<State>,
    coord_systems: Vec<(String, Matrix)>,
    named_textures: Vec<(String, usize)>,
    named_materials: Vec<(String, usize)>,
    named_mediums: Vec<(String, usize)>,
    parsers: Vec<Parser>,
    world_begun: bool,
}

/// The total token count over all open frames, a measure that every
/// processed directive or drained frame strictly shrinks.
pub open spec fn toks_sum(ps: Seq<Parser>) -> nat
    decreases ps.len(),
{
    if ps.len() == 0 {
        0
    } else {
        toks_sum(ps.drop_last()) + ps.last().toks().len()
    }
}

impl Loader {
    /// The loader's mathematical content.
    pub closed spec fn lv(&self) -> LoaderView {
        LoaderView {
            scene: self.scene@,
            state: self.state@,
            stack: states_view(self.state_stack@),
            coords: coords_view(self.coord_systems@),
            textures_reg: regs_view(self.named_textures@),
            materials_reg: regs_view(self.named_materials@),
            mediums_reg: regs_view(self.named_mediums@),
            world: self.world_begun,
        }
    }

    /// The open frames' remaining token streams, bottom of the frame
    /// stack first; the top of the stack (the file being read) is last.
    pub closed spec fn streams(&self) -> Seq<Seq<Seq<char>>> {
        self.parsers@.map_values(|p: Parser| p.toks())
    }

    /// How many file frames are open.
    pub open spec fn frames(&self) -> int {
        self.streams().len() as int
    }

    pub closed spec fn wf(&self) -> bool {
        &&& self.state.wf()
        &&& (forall|i: int|
            0 <= i < self.state_stack@.len() ==> (#[trigger] self.state_stack@[i]).wf())
        &&& (forall|i: int|
            0 <= i < self.coord_systems@.len() ==> (#[trigger] self.coord_systems@[i]).1.wf())
        &&& (forall|i: int| 0 <= i < self.parsers@.len() ==> (#[trigger] self.parsers@[i]).wf())
        &&& self.scene.scene_wf()
    }

    /// A loader over the top-level file's text: one open frame holding
    /// exactly that text's token stream, and the initial state.
    pub fn new(data: &str) -> (r: Loader)
        ensures
            r.wf(),
            r.streams() == seq![crate::tokenizer::spec_tokens(data@, true)],
            r.frames() == 1,
            r.lv() == (LoaderView {
                scene: empty_scene(),
                state: initial_state(),
                stack: Seq::empty(),
                coords: Seq::empty(),
                textures_reg: Seq::empty(),
                materials_reg: Seq::empty(),
                mediums_reg: Seq::empty(),
                world: false,
            }),
    {
        let mut parsers: Vec<Parser> = Vec::new();
        parsers.push(Parser::new(data));
        let r = Loader {
            scene: Scene::default(),
            state: State::default(),
            state_stack: Vec::new(),
            coord_systems: Vec::new(),
            named_textures: Vec::new(),
            named_materials: Vec::new(),
            named_mediums: Vec::new(),
            parsers,
            world_begun: false,
        };
        proof {
            assert(r.streams() =~= seq![crate::tokenizer::spec_tokens(data@, true)]);
            assert(states_view(r.state_stack@) =~= Seq::<StateView>::empty());
            assert(coords_view(r.coord_systems@) =~= Seq::<(Seq<char>, Seq<u32>)>::empty());
            assert(regs_view(r.named_textures@) =~= Seq::<(Seq<char>, usize)>::empty());
            assert(r.lv() =~= (LoaderView {
                scene: empty_scene(),
                state: initial_state(),
                stack: Seq::empty(),
                coords: Seq::empty(),
                textures_reg: Seq::empty(),
                materials_reg: Seq::empty(),
                mediums_reg: Seq::empty(),
                world: false,
            }));
        }
        r
    }

    /// Open a new frame on top holding the given text's token stream —
    /// the text of the file the last `NeedFile` asked for; the outer
    /// frames resume once it is exhausted.
    pub fn push_file(&mut self, data: &str)
        requires
            old(self).wf(),
        ensures
            final(self).wf(),
            final(self).lv() == old(self).lv(),
            final(self).streams() == old(self).streams().push(
                crate::tokenizer::spec_tokens(data@, true),
            ),
            final(self).frames() == old(self).frames() + 1,
    {
        let p = Parser::new(data);
        let ghost pre = self.parsers@;
        self.parsers.push(p);
        proof {
            assert forall|i: int| 0 <= i < self.parsers@.len() implies (#[trigger] self
                .parsers@[i]).wf() by {
                if i < pre.len() {
                    assert(self.parsers@[i] == pre[i]);
                }
            }
            assert(self.lv() =~= old(self).lv());
            assert(self.streams() =~= old(self).streams().push(
                crate::tokenizer::spec_tokens(data@, true),
            ));
        }
    }

    /// The transform currently in force.
    pub fn current_transform(&self) -> (r: &Matrix)
        ensures
            r@ == self.lv().state.ctm,
    {
        &self.state.transform_matrix
    }

    /// Hand out the built scene.
    ///
    /// Whether exactly one `WorldBegin` was seen and whether the scope
    /// stack is balanced at the end of input are internal consistency
    /// conditions of well-formed scenes; by design they are not
    /// promoted to reported errors.
    pub fn into_scene(self) -> (r: Scene)
        requires
            self.wf(),
        ensures
            r@ == self.lv().scene,
            r.scene_wf(),
    {
        self.scene
    }
}

impl Loader {
    /// Apply a transform-composing directive.
    #[verifier::rlimit(100)]
    fn apply_transform(&mut self, elem: Element) -> (r: Result<Option<String>, Error>)
        requires
            old(self).wf(),
            elem_wf(&elem),
            elem is Identity || elem is Translate || elem is Scale || elem is Rotate
                || elem is LookAt || elem is Transform || elem is ConcatTransform
                || elem is WorldBegin || elem is CoordinateSystem || elem is CoordSysTransform,
        ensures
            final(self).wf(),
            final(self).parsers@ == old(self).parsers@,
            loader_step(old(self).lv(), elem@, final(self).lv(), res_view(r)),
    {
        match elem {
            Element::Identity => {
                self.state.transform_matrix = Matrix::identity();
                proof {
                    assert(self.lv() =~= (LoaderView {
                        state: StateView { ctm: identity_bits(), ..old(self).lv().state },
                        ..old(self).lv()
                    }));
                }
                Ok(None)
            },
            Element::Translate { v } => {
                let m = Matrix::translation(v.0, v.1, v.2);
                let c = mat_mul(&self.state.transform_matrix, &m);
                self.state.transform_matrix = c;
                proof {
                    assert(self.lv() =~= (LoaderView {
                        state: StateView {
                            ctm: mat_mul_of(
                                old(self).lv().state.ctm,
                                translation_bits(v.0, v.1, v.2),
                            ),
                            ..old(self).lv().state
                        },
                        ..old(self).lv()
                    }));
                }
                Ok(None)
            },
            Element::Scale { v } => {
                let m = Matrix::scale(v.0, v.1, v.2);
                let c = mat_mul(&self.state.transform_matrix, &m);
                self.state.transform_matrix = c;
                proof {
                    assert(self.lv() =~= (LoaderView {
                        state: StateView {
                            ctm: mat_mul_of(old(self).lv().state.ctm, scale_bits(v.0, v.1, v.2)),
                            ..old(self).lv().state
                        },
                        ..old(self).lv()
                    }));
                }
                Ok(None)
            },
            Element::Rotate { angle, v } => {
                let m = mat_rotation(angle, v.0, v.1, v.2);
                let c = mat_mul(&self.state.transform_matrix, &m);
                self.state.transform_matrix = c;
                proof {
                    assert(self.lv() =~= (LoaderView {
                        state: StateView {
                            ctm: mat_mul_of(old(self).lv().state.ctm, m@),
                            ..old(self).lv().state
                        },
                        ..old(self).lv()
                    }));
                    assert(exists|mm: Seq<u32>|
                        mm.len() == 16 && self.lv() == (LoaderView {
                            state: StateView {
                                ctm: #[trigger] mat_mul_of(old(self).lv().state.ctm, mm),
                                ..old(self).lv().state
                            },
                            ..old(self).lv()
                        }));
                }
                Ok(None)
            },
            Element::LookAt { eye, look_at, up } => {
                let m = mat_look_at(
                    eye.0,
                    eye.1,
                    eye.2,
                    look_at.0,
                    look_at.1,
                    look_at.2,
                    up.0,
                    up.1,
                    up.2,
                );
                let c = mat_mul(&self.state.transform_matrix, &m);
                self.state.transform_matrix = c;
                proof {
                    assert(self.lv() =~= (LoaderView {
                        state: StateView {
                            ctm: mat_mul_of(
                                old(self).lv().state.ctm,
                                mat_look_at_of(
                                    eye.0,
                                    eye.1,
                                    eye.2,
                                    look_at.0,
                                    look_at.1,
                                    look_at.2,
                                    up.0,
                                    up.1,
                                    up.2,
                                ),
                            ),
                            ..old(self).lv().state
                        },
                        ..old(self).lv()
                    }));
                }
                Ok(None)
            },
            Element::Transform { m } => {
                let ghost mv = m@;
                self.state.transform_matrix = m;
                proof {
                    assert(self.lv() =~= (LoaderView {
                        state: StateView { ctm: mv, ..old(self).lv().state },
                        ..old(self).lv()
                    }));
                }
                Ok(None)
            },
            Element::ConcatTransform { m } => {
                let ghost mv = m@;
                let c = mat_mul(&self.state.transform_matrix, &m);
                self.state.transform_matrix = c;
                proof {
                    assert(self.lv() =~= (LoaderView {
                        state: StateView {
                            ctm: mat_mul_of(old(self).lv().state.ctm, mv),
                            ..old(self).lv().state
                        },
                        ..old(self).lv()
                    }));
                }
                Ok(None)
            },
            Element::WorldBegin => {
                self.world_begun = true;
                self.state.transform_matrix = Matrix::identity();
                proof {
                    assert(self.lv() =~= (LoaderView {
                        state: StateView { ctm: identity_bits(), ..old(self).lv().state },
                        world: true,
                        ..old(self).lv()
                    }));
                }
                Ok(None)
            },
            Element::CoordinateSystem { name } => {
                let ghost nv = name@;
                let snap = self.state.transform_matrix.clone();
                let ghost pre = self.coord_systems@;
                self.coord_systems.push((name, snap));
                proof {
                    assert forall|i: int| 0 <= i < self.coord_systems@.len() implies (
                    #[trigger] self.coord_systems@[i]).1.wf() by {
                        if i < pre.len() {
                            assert(self.coord_systems@[i] == pre[i]);
                        }
                    }
                    assert(coords_view(self.coord_systems@) =~= coords_view(pre).push(
                        (nv, old(self).lv().state.ctm),
                    ));
                    assert(self.lv() =~= (LoaderView {
                        coords: old(self).lv().coords.push((nv, old(self).lv().state.ctm)),
                        ..old(self).lv()
                    }));
                }
                Ok(None)
            },
            Element::CoordSysTransform { name } => {
                match lookup_coord(&self.coord_systems, name.as_str()) {
                    Some(m) => {
                        let ghost mv = m@;
                        self.state.transform_matrix = m;
                        proof {
                            assert(self.lv() =~= (LoaderView {
                                state: StateView { ctm: mv, ..old(self).lv().state },
                                ..old(self).lv()
                            }));
                        }
                        Ok(None)
                    },
                    None => Err(Error::UnknownCoordinateSystem),
                }
            },
            _ => {
                proof {
                    assert(false);
                }
                Err(Error::Unsupported)
            },
        }
    }

    /// Apply a scope, attribute, orientation, medium-interface or
    /// file-level directive, or reject an unsupported one.
    #[verifier::rlimit(100)]
    fn apply_scope(&mut self, elem: Element) -> (r: Result<Option<String>, Error>)
        requires
            old(self).wf(),
            elem_wf(&elem),
            elem is AttributeBegin || elem is AttributeEnd || elem is Attribute
                || elem is ReverseOrientation || elem is MediumInterface || elem is Include
                || elem is Import || elem is ColorSpace || elem is PixelFilter
                || elem is TransformTimes || elem is ActiveTransform || elem is ObjectBegin
                || elem is ObjectEnd || elem is ObjectInstance,
        ensures
            final(self).wf(),
            final(self).parsers@ == old(self).parsers@,
            loader_step(old(self).lv(), elem@, final(self).lv(), res_view(r)),
    {
        match elem {
            Element::AttributeBegin => {
                let snap = self.state.clone();
                let ghost pre = self.state_stack@;
                self.state_stack.push(snap);
                proof {
                    assert forall|i: int| 0 <= i < self.state_stack@.len() implies (
                    #[trigger] self.state_stack@[i]).wf() by {
                        if i < pre.len() {
                            assert(self.state_stack@[i] == pre[i]);
                        }
                    }
                    assert(states_view(self.state_stack@) =~= states_view(pre).push(
                        old(self).lv().state,
                    ));
                    assert(self.lv() =~= (LoaderView {
                        stack: old(self).lv().stack.push(old(self).lv().state),
                        ..old(self).lv()
                    }));
                }
                Ok(None)
            },
            Element::AttributeEnd => {
                let ghost pre = self.state_stack@;
                match self.state_stack.pop() {
                    Some(st) => {
                        proof {
                            assert(pre[pre.len() - 1] == st);
                        }
                        self.state = st;
                        proof {
                            assert(states_view(self.state_stack@) =~= states_view(
                                pre,
                            ).drop_last());
                            assert(old(self).lv().stack.last() == st@);
                            assert(self.lv() =~= (LoaderView {
                                state: old(self).lv().stack.last(),
                                stack: old(self).lv().stack.drop_last(),
                                ..old(self).lv()
                            }));
                        }
                        Ok(None)
                    },
                    None => {
                        proof {
                            assert(states_view(pre).len() == 0);
                        }
                        Err(Error::TooManyEndAttributes)
                    },
                }
            },
            Element::Attribute { target, params } => {
                let ghost pv = params@;
                if str_eq(target.as_str(), "shape") {
                    self.state.shape_params.extend(&params);
                    proof {
                        assert(self.lv() =~= (LoaderView {
                            state: StateView {
                                shape_params: old(self).lv().state.shape_params.union_prefer_right(
                                    pv,
                                ),
                                ..old(self).lv().state
                            },
                            ..old(self).lv()
                        }));
                    }
                    Ok(None)
                } else if str_eq(target.as_str(), "light") {
                    self.state.light_params.extend(&params);
                    proof {
                        assert(self.lv() =~= (LoaderView {
                            state: StateView {
                                light_params: old(self).lv().state.light_params.union_prefer_right(
                                    pv,
                                ),
                                ..old(self).lv().state
                            },
                            ..old(self).lv()
                        }));
                    }
                    Ok(None)
                } else if str_eq(target.as_str(), "material") {
                    self.state.material_params.extend(&params);
                    proof {
                        assert(self.lv() =~= (LoaderView {
                            state: StateView {
                                material_params: old(
                                    self,
                                ).lv().state.material_params.union_prefer_right(pv),
                                ..old(self).lv().state
                            },
                            ..old(self).lv()
                        }));
                    }
                    Ok(None)
                } else if str_eq(target.as_str(), "medium") {
                    self.state.medium_params.extend(&params);
                    proof {
                        assert(self.lv() =~= (LoaderView {
                            state: StateView {
                                medium_params: old(
                                    self,
                                ).lv().state.medium_params.union_prefer_right(pv),
                                ..old(self).lv().state
                            },
                            ..old(self).lv()
                        }));
                    }
                    Ok(None)
                } else if str_eq(target.as_str(), "texture") {
                    self.state.texture_params.extend(&params);
                    proof {
                        assert(self.lv() =~= (LoaderView {
                            state: StateView {
                                texture_params: old(
                                    self,
                                ).lv().state.texture_params.union_prefer_right(pv),
                                ..old(self).lv().state
                            },
                            ..old(self).lv()
                        }));
                    }
                    Ok(None)
                } else {
                    Err(Error::Unsupported)
                }
            },
            Element::ReverseOrientation => {
                self.state.reverse_orientation = !self.state.reverse_orientation;
                proof {
                    assert(self.lv() =~= (LoaderView {
                        state: StateView {
                            reverse_orientation: !old(self).lv().state.reverse_orientation,
                            ..old(self).lv().state
                        },
                        ..old(self).lv()
                    }));
                }
                Ok(None)
            },
            Element::MediumInterface { interior, exterior } => {
                let ghost iv = interior@;
                let ghost ev = exterior@;
                self.state.current_inside_medium = Some(interior);
                self.state.current_outside_medium = Some(exterior);
                proof {
                    assert(self.lv() =~= (LoaderView {
                        state: StateView {
                            inside_medium: Some(iv),
                            outside_medium: Some(ev),
                            ..old(self).lv().state
                        },
                        ..old(self).lv()
                    }));
                }
                Ok(None)
            },
            Element::Include(path) => {
                if ends_with_gz(path.as_str()) {
                    Err(Error::Unsupported)
                } else {
                    Ok(Some(path))
                }
            },
            Element::Import(_) => Err(Error::Unsupported),
            Element::ColorSpace { .. } => Err(Error::Unsupported),
            Element::PixelFilter { .. } => Err(Error::Unsupported),
            Element::TransformTimes { .. } => Err(Error::Unsupported),
            Element::ActiveTransform { .. } => Err(Error::Unsupported),
            Element::ObjectBegin { .. } => Err(Error::Unsupported),
            Element::ObjectEnd => Err(Error::Unsupported),
            Element::ObjectInstance { .. } => Err(Error::Unsupported),
            _ => {
                proof {
                    assert(false);
                }
                Err(Error::Unsupported)
            },
        }
    }
}

impl Loader {
    /// Apply a resource-defining or resource-selecting directive.
    #[verifier::rlimit(100)]
    fn apply_resource(&mut self, elem: Element) -> (r: Result<Option<String>, Error>)
        requires
            old(self).wf(),
            elem_wf(&elem),
            elem is Option || elem is Film || elem is Camera || elem is Sampler
                || elem is Integrator || elem is Accelerator || elem is Texture
                || elem is Material || elem is MakeNamedMaterial || elem is NamedMaterial
                || elem is LightSource || elem is AreaLightSource || elem is Shape
                || elem is MakeNamedMedium,
        ensures
            final(self).wf(),
            final(self).parsers@ == old(self).parsers@,
            loader_step(old(self).lv(), elem@, final(self).lv(), res_view(r)),
    {
        match elem {
            Element::Option(param) => {
                let ghost pv = param@;
                self.scene.options.apply(param);
                proof {
                    assert(self.lv() =~= (LoaderView {
                        scene: SceneView {
                            options: old(self).lv().scene.options.insert(pv.name, pv),
                            ..old(self).lv().scene
                        },
                        ..old(self).lv()
                    }));
                }
                Ok(None)
            },
            Element::Film { ty, params } => {
                let ghost tv = ty@;
                let ghost pv = params@;
                self.scene.film = Some(Film { ty, params });
                proof {
                    assert(self.lv() =~= (LoaderView {
                        scene: SceneView {
                            film: Some(ResView { ty: tv, params: pv }),
                            ..old(self).lv().scene
                        },
                        ..old(self).lv()
                    }));
                }
                Ok(None)
            },
            Element::Integrator { ty, params } => {
                let ghost tv = ty@;
                let ghost pv = params@;
                self.scene.integrator = Some(Integrator { ty, params });
                proof {
                    assert(self.lv() =~= (LoaderView {
                        scene: SceneView {
                            integrator: Some(ResView { ty: tv, params: pv }),
                            ..old(self).lv().scene
                        },
                        ..old(self).lv()
                    }));
                }
                Ok(None)
            },
            Element::Accelerator { ty, params } => {
                let ghost tv = ty@;
                let ghost pv = params@;
                self.scene.accelerator = Some(Accelerator { ty, params });
                proof {
                    assert(self.lv() =~= (LoaderView {
                        scene: SceneView {
                            accelerator: Some(ResView { ty: tv, params: pv }),
                            ..old(self).lv().scene
                        },
                        ..old(self).lv()
                    }));
                }
                Ok(None)
            },
            Element::Sampler { ty, params } => {
                let ghost tv = ty@;
                let ghost pv = params@;
                self.scene.sampler = Some(Sampler { ty, params });
                proof {
                    assert(self.lv() =~= (LoaderView {
                        scene: SceneView {
                            sampler: Some(ResView { ty: tv, params: pv }),
                            ..old(self).lv().scene
                        },
                        ..old(self).lv()
                    }));
                }
                Ok(None)
            },
            Element::Camera { ty, params } => {
                let ghost tv = ty@;
                let ghost pv = params@;
                let inv = mat_inverse(&self.state.transform_matrix);
                let snap = inv.clone();
                let ghost precs = self.coord_systems@;
                self.coord_systems.push(("camera".to_owned(), snap));
                self.scene.camera = Some(
                    CameraEntity { params: Camera { ty, params }, transform: inv },
                );
                proof {
                    assert forall|i: int| 0 <= i < self.coord_systems@.len() implies (
                    #[trigger] self.coord_systems@[i]).1.wf() by {
                        if i < precs.len() {
                            assert(self.coord_systems@[i] == precs[i]);
                        }
                    }
                    assert(coords_view(self.coord_systems@) =~= coords_view(precs).push(
                        ("camera"@, mat_inverse_of(old(self).lv().state.ctm)),
                    ));
                    assert(self.lv() =~= (LoaderView {
                        scene: SceneView {
                            camera: Some(
                                CamView {
                                    ty: tv,
                                    params: pv,
                                    transform: mat_inverse_of(old(self).lv().state.ctm),
                                },
                            ),
                            ..old(self).lv().scene
                        },
                        coords: old(self).lv().coords.push(
                            ("camera"@, mat_inverse_of(old(self).lv().state.ctm)),
                        ),
                        ..old(self).lv()
                    }));
                }
                Ok(None)
            },
            Element::Texture { name, ty, class, params } => {
                let ghost nv = name@;
                let ghost tv = ty@;
                let ghost cv = class@;
                let ghost pv0 = params@;
                let mut params = params;
                params.extend(&self.state.texture_params);
                let ghost pv = params@;
                let index = self.scene.textures.len();
                let ghost pre_t = self.scene.textures@;
                let ghost pre_r = self.named_textures@;
                let tex = Texture { name: name.clone(), ty, class, params };
                self.scene.textures.push(tex);
                self.named_textures.push((name, index));
                proof {
                    assert forall|i: int| 0 <= i < self.scene.textures@.len() implies (
                    #[trigger] self.scene.textures@[i]).params.wf() by {
                        if i < pre_t.len() {
                            assert(self.scene.textures@[i] == pre_t[i]);
                        }
                    }
                    assert(self.scene.textures@.map_values(
                        |t: Texture| TexView { name: t.name@, ty: t.ty@, class: t.class@, params: t.params@ },
                    ) =~= pre_t.map_values(
                        |t: Texture| TexView { name: t.name@, ty: t.ty@, class: t.class@, params: t.params@ },
                    ).push(
                        TexView {
                            name: nv,
                            ty: tv,
                            class: cv,
                            params: pv,
                        },
                    ));
                    assert(regs_view(self.named_textures@) =~= regs_view(pre_r).push(
                        (nv, index),
                    ));
                    assert(pre_t.len() == old(self).lv().scene.textures.len());
                    assert(self.lv() =~= (LoaderView {
                        scene: SceneView {
                            textures: old(self).lv().scene.textures.push(
                                TexView {
                                    name: nv,
                                    ty: tv,
                                    class: cv,
                                    params: pv0.union_prefer_right(
                                        old(self).lv().state.texture_params,
                                    ),
                                },
                            ),
                            ..old(self).lv().scene
                        },
                        textures_reg: old(self).lv().textures_reg.push((nv, index)),
                        ..old(self).lv()
                    }));
                }
                Ok(None)
            },
            Element::Material { ty, params } => {
                let ghost tv = ty@;
                let mut params = params;
                params.extend(&self.state.material_params);
                let ghost pv = params@;
                let index = self.scene.materials.len();
                let ghost pre_m = self.scene.materials@;
                self.scene.materials.push(Material { ty, params });
                self.state.material_index = Some(index);
                proof {
                    assert forall|i: int| 0 <= i < self.scene.materials@.len() implies (
                    #[trigger] self.scene.materials@[i]).params.wf() by {
                        if i < pre_m.len() {
                            assert(self.scene.materials@[i] == pre_m[i]);
                        }
                    }
                    assert(self.scene.materials@.map_values(
                        |m: Material| ResView { ty: m.ty@, params: m.params@ },
                    ) =~= pre_m.map_values(|m: Material| ResView { ty: m.ty@, params: m.params@ }).push(
                        ResView { ty: tv, params: pv },
                    ));
                    assert(pre_m.len() == old(self).lv().scene.materials.len());
                    assert(self.lv() =~= (LoaderView {
                        scene: SceneView {
                            materials: old(self).lv().scene.materials.push(
                                ResView { ty: tv, params: pv },
                            ),
                            ..old(self).lv().scene
                        },
                        state: StateView {
                            material_index: Some(index),
                            ..old(self).lv().state
                        },
                        ..old(self).lv()
                    }));
                }
                Ok(None)
            },
            Element::MakeNamedMaterial { name, params } => {
                let ghost nv = name@;
                let mut params = params;
                params.extend(&self.state.material_params);
                let ghost pv = params@;
                let index = self.scene.materials.len();
                let ghost pre_m = self.scene.materials@;
                let ghost pre_r = self.named_materials@;
                self.scene.materials.push(Material { ty: name.clone(), params });
                self.named_materials.push((name, index));
                proof {
                    assert forall|i: int| 0 <= i < self.scene.materials@.len() implies (
                    #[trigger] self.scene.materials@[i]).params.wf() by {
                        if i < pre_m.len() {
                            assert(self.scene.materials@[i] == pre_m[i]);
                        }
                    }
                    assert(self.scene.materials@.map_values(
                        |m: Material| ResView { ty: m.ty@, params: m.params@ },
                    ) =~= pre_m.map_values(|m: Material| ResView { ty: m.ty@, params: m.params@ }).push(
                        ResView { ty: nv, params: pv },
                    ));
                    assert(regs_view(self.named_materials@) =~= regs_view(pre_r).push(
                        (nv, index),
                    ));
                    assert(pre_m.len() == old(self).lv().scene.materials.len());
                    assert(self.lv() =~= (LoaderView {
                        scene: SceneView {
                            materials: old(self).lv().scene.materials.push(
                                ResView { ty: nv, params: pv },
                            ),
                            ..old(self).lv().scene
                        },
                        materials_reg: old(self).lv().materials_reg.push((nv, index)),
                        ..old(self).lv()
                    }));
                }
                Ok(None)
            },
            Element::NamedMaterial { name } => {
                let idx = lookup_reg(&self.named_materials, name.as_str());
                self.state.material_index = idx;
                proof {
                    assert(self.lv() =~= (LoaderView {
                        state: StateView {
                            material_index: assoc(old(self).lv().materials_reg, name@),
                            ..old(self).lv().state
                        },
                        ..old(self).lv()
                    }));
                }
                Ok(None)
            },
            Element::LightSource { ty, params } => {
                let ghost tv = ty@;
                let ghost pv = params@;
                let ghost pre = self.scene.lights@;
                self.scene.lights.push(Light { ty, params });
                proof {
                    assert forall|i: int| 0 <= i < self.scene.lights@.len() implies (
                    #[trigger] self.scene.lights@[i]).params.wf() by {
                        if i < pre.len() {
                            assert(self.scene.lights@[i] == pre[i]);
                        }
                    }
                    assert(self.scene.lights@.map_values(
                        |l: Light| ResView { ty: l.ty@, params: l.params@ },
                    ) =~= pre.map_values(|l: Light| ResView { ty: l.ty@, params: l.params@ }).push(
                        ResView { ty: tv, params: pv },
                    ));
                    assert(self.lv() =~= (LoaderView {
                        scene: SceneView {
                            lights: old(self).lv().scene.lights.push(
                                ResView { ty: tv, params: pv },
                            ),
                            ..old(self).lv().scene
                        },
                        ..old(self).lv()
                    }));
                }
                Ok(None)
            },
            Element::AreaLightSource { ty, params } => {
                let ghost tv = ty@;
                let mut params = params;
                params.extend(&self.state.light_params);
                let ghost pv = params@;
                let index = self.scene.area_lights.len();
                let ghost pre = self.scene.area_lights@;
                self.scene.area_lights.push(AreaLight { ty, params });
                self.state.area_light_index = Some(index);
                proof {
                    assert forall|i: int| 0 <= i < self.scene.area_lights@.len() implies (
                    #[trigger] self.scene.area_lights@[i]).params.wf() by {
                        if i < pre.len() {
                            assert(self.scene.area_lights@[i] == pre[i]);
                        }
                    }
                    assert(self.scene.area_lights@.map_values(
                        |l: AreaLight| ResView { ty: l.ty@, params: l.params@ },
                    ) =~= pre.map_values(|l: AreaLight| ResView { ty: l.ty@, params: l.params@ }).push(
                        ResView { ty: tv, params: pv },
                    ));
                    assert(pre.len() == old(self).lv().scene.area_lights.len());
                    assert(self.lv() =~= (LoaderView {
                        scene: SceneView {
                            area_lights: old(self).lv().scene.area_lights.push(
                                ResView { ty: tv, params: pv },
                            ),
                            ..old(self).lv().scene
                        },
                        state: StateView {
                            area_light_index: Some(index),
                            ..old(self).lv().state
                        },
                        ..old(self).lv()
                    }));
                }
                Ok(None)
            },
            Element::Shape { name, params } => {
                let ghost nv = name@;
                let mut params = params;
                params.extend(&self.state.shape_params);
                let ghost pv = params@;
                let ghost pre = self.scene.shapes@;
                let entity = ShapeEntity {
                    params: Shape { ty: name, params },
                    reverse_orientation: self.state.reverse_orientation,
                    material_index: self.state.material_index,
                    area_light_index: self.state.area_light_index,
                };
                self.scene.shapes.push(entity);
                proof {
                    assert forall|i: int| 0 <= i < self.scene.shapes@.len() implies (
                    #[trigger] self.scene.shapes@[i]).params.params.wf() by {
                        if i < pre.len() {
                            assert(self.scene.shapes@[i] == pre[i]);
                        }
                    }
                    assert(self.scene.shapes@.map_values(
                        |s: ShapeEntity| ShapeView {
                            ty: s.params.ty@,
                            params: s.params.params@,
                            reverse_orientation: s.reverse_orientation,
                            material_index: s.material_index,
                            area_light_index: s.area_light_index,
                        },
                    ) =~= pre.map_values(
                        |s: ShapeEntity| ShapeView {
                            ty: s.params.ty@,
                            params: s.params.params@,
                            reverse_orientation: s.reverse_orientation,
                            material_index: s.material_index,
                            area_light_index: s.area_light_index,
                        },
                    ).push(
                        ShapeView {
                            ty: nv,
                            params: pv,
                            reverse_orientation: old(self).lv().state.reverse_orientation,
                            material_index: old(self).lv().state.material_index,
                            area_light_index: old(self).lv().state.area_light_index,
                        },
                    ));
                    assert(self.lv() =~= (LoaderView {
                        scene: SceneView {
                            shapes: old(self).lv().scene.shapes.push(
                                ShapeView {
                                    ty: nv,
                                    params: pv,
                                    reverse_orientation: old(
                                        self,
                                    ).lv().state.reverse_orientation,
                                    material_index: old(self).lv().state.material_index,
                                    area_light_index: old(self).lv().state.area_light_index,
                                },
                            ),
                            ..old(self).lv().scene
                        },
                        ..old(self).lv()
                    }));
                }
                Ok(None)
            },
            Element::MakeNamedMedium { name, params } => {
                let ghost nv = name@;
                let mut params = params;
                params.extend(&self.state.medium_params);
                let ghost pv = params@;
                let index = self.scene.mediums.len();
                let ghost pre = self.scene.mediums@;
                let ghost pre_r = self.named_mediums@;
                self.scene.mediums.push(Medium { params });
                self.named_mediums.push((name, index));
                proof {
                    assert forall|i: int| 0 <= i < self.scene.mediums@.len() implies (
                    #[trigger] self.scene.mediums@[i]).params.wf() by {
                        if i < pre.len() {
                            assert(self.scene.mediums@[i] == pre[i]);
                        }
                    }
                    assert(self.scene.mediums@.map_values(|m: Medium| MedView { params: m.params@ })
                        =~= pre.map_values(|m: Medium| MedView { params: m.params@ }).push(
                        MedView { params: pv },
                    ));
                    assert(regs_view(self.named_mediums@) =~= regs_view(pre_r).push((nv, index)));
                    assert(pre.len() == old(self).lv().scene.mediums.len());
                    assert(self.lv() =~= (LoaderView {
                        scene: SceneView {
                            mediums: old(self).lv().scene.mediums.push(MedView { params: pv }),
                            ..old(self).lv().scene
                        },
                        mediums_reg: old(self).lv().mediums_reg.push((nv, index)),
                        ..old(self).lv()
                    }));
                }
                Ok(None)
            },
            _ => {
                proof {
                    assert(false);
                }
                Err(Error::Unsupported)
            },
        }
    }
}

impl Loader {
    /// Drive one directive record through the graphics-state machine.
    fn apply_element(&mut self, elem: Element) -> (r: Result<Option<String>, Error>)
        requires
            old(self).wf(),
            elem_wf(&elem),
        ensures
            final(self).wf(),
            final(self).parsers@ == old(self).parsers@,
            loader_step(old(self).lv(), elem@, final(self).lv(), res_view(r)),
    {
        match &elem {
            Element::Identity | Element::Translate { .. } | Element::Scale { .. }
                | Element::Rotate { .. } | Element::LookAt { .. } | Element::Transform { .. }
                | Element::ConcatTransform { .. } | Element::WorldBegin
                | Element::CoordinateSystem { .. } | Element::CoordSysTransform { .. } => self
                .apply_transform(elem),
            Element::AttributeBegin | Element::AttributeEnd | Element::Attribute { .. }
                | Element::ReverseOrientation | Element::MediumInterface { .. }
                | Element::Include(..) | Element::Import(..) | Element::ColorSpace { .. }
                | Element::PixelFilter { .. } | Element::TransformTimes { .. }
                | Element::ActiveTransform { .. } | Element::ObjectBegin { .. }
                | Element::ObjectEnd | Element::ObjectInstance { .. } => self.apply_scope(elem),
            Element::Option(..) | Element::Film { .. } | Element::Camera { .. }
                | Element::Sampler { .. } | Element::Integrator { .. }
                | Element::Accelerator { .. } | Element::Texture { .. }
                | Element::Material { .. } | Element::MakeNamedMaterial { .. }
                | Element::NamedMaterial { .. } | Element::LightSource { .. }
                | Element::AreaLightSource { .. } | Element::Shape { .. }
                | Element::MakeNamedMedium { .. } => self.apply_resource(elem),
        }
    }

    /// Process directives until a file's text is needed, the frame stack
    /// is drained, or an error aborts the load.
    ///
    /// The outcome is exactly the driver relation [`drive`] over the
    /// frames' token streams: directives come from `spec_parse_next` of
    /// the top frame's stream, a frame is popped exactly when its stream
    /// is exhausted (an inner file drains before the file that named it
    /// resumes), an `Include` directive stops with the named path, and
    /// the first parse or step error surfaces unchanged.
    pub fn advance(&mut self) -> (r: Result<LoadStep, Error>)
        requires
            old(self).wf(),
        ensures
            final(self).wf(),
            drive(
                old(self).lv(),
                old(self).streams(),
                final(self).lv(),
                final(self).streams(),
                load_step_view(r),
            ),
            r matches Ok(step) ==> {
                &&& exists|es: Seq<ElemView>|
                    #[trigger] loader_steps(old(self).lv(), es, final(self).lv())
                &&& (step is Done ==> final(self).frames() == 0)
                &&& (step matches LoadStep::NeedFile(p) ==> !ends_gz(p@))
            },
    {
        let ghost mut es: Seq<ElemView> = Seq::empty();
        loop
            invariant
                self.wf(),
                loader_steps(old(self).lv(), es, self.lv()),
                forall|v2: LoaderView, ss2: Seq<Seq<Seq<char>>>, rr: Result<Option<Seq<char>>, Error>|
                    #[trigger] drive(self.lv(), self.streams(), v2, ss2, rr) ==> drive(
                        old(self).lv(),
                        old(self).streams(),
                        v2,
                        ss2,
                        rr,
                    ),
            decreases toks_sum(self.parsers@), self.parsers@.len(),
        {
            let ghost conf_v = self.lv();
            let ghost conf_ss = self.streams();
            let ghost pre_ps = self.parsers@;
            let mut p = match self.parsers.pop() {
                Some(p) => p,
                None => {
                    proof {
                        assert(conf_ss.len() == 0);
                        assert(drive(conf_v, conf_ss, self.lv(), self.streams(), Ok(None)));
                    }
                    return Ok(LoadStep::Done);
                },
            };
            let ghost p_toks = p.toks();
            proof {
                assert(pre_ps.last() == p);
                assert(self.parsers@ =~= pre_ps.drop_last());
                assert(toks_sum(pre_ps) == toks_sum(pre_ps.drop_last()) + p.toks().len());
                assert(p_toks == conf_ss.last());
                assert(conf_ss.len() == pre_ps.len());
            }
            match p.parse_next() {
                Err(e) => {
                    if e == Error::EndOfFile {
                        // This frame is exhausted: resume the outer one.
                        proof {
                            assert(toks_sum(self.parsers@) <= toks_sum(pre_ps));
                            assert(self.streams() =~= conf_ss.drop_last());
                            assert forall|v2: LoaderView, ss2: Seq<Seq<Seq<char>>>, rr: Result<
                                Option<Seq<char>>,
                                Error,
                            >|
                                #[trigger] drive(self.lv(), self.streams(), v2, ss2, rr) implies drive(
                                old(self).lv(),
                                old(self).streams(),
                                v2,
                                ss2,
                                rr,
                            ) by {
                                assert(drive(conf_v, conf_ss, v2, ss2, rr));
                            }
                        }
                    } else {
                        proof {
                            assert(drive(conf_v, conf_ss, self.lv(), self.streams(), Err(e)));
                        }
                        return Err(e);
                    }
                },
                Ok(elem) => {
                    let ghost new_p_toks = p.toks();
                    self.parsers.push(p);
                    let ghost k = choose|k: int|
                        spec_parse_next(p_toks) == Ok::<(ElemView, int), Error>((elem@, k))
                            && new_p_toks == crate::parser::drop_n(p_toks, k);
                    let ghost ss1 = conf_ss.update(conf_ss.len() - 1, new_p_toks);
                    proof {
                        crate::parser::lemma_spec_parse_next_min(p_toks);
                        assert(new_p_toks.len() < p_toks.len());
                        assert forall|i: int| 0 <= i < self.parsers@.len() implies (
                        #[trigger] self.parsers@[i]).wf() by {
                            if i < pre_ps.len() - 1 {
                                assert(self.parsers@[i] == pre_ps.drop_last()[i]);
                            }
                        }
                        assert(self.parsers@.drop_last() =~= pre_ps.drop_last());
                        assert(toks_sum(self.parsers@) == toks_sum(pre_ps.drop_last())
                            + new_p_toks.len());
                        assert(self.streams() =~= ss1);
                    }
                    let ghost ev = elem@;
                    let ghost pre_lv = self.lv();
                    match self.apply_element(elem) {
                        Ok(None) => {
                            proof {
                                lemma_loader_steps_snoc(old(self).lv(), es, pre_lv, ev, self.lv());
                                es = es.push(ev);
                                lemma_loader_step_result(pre_lv, ev, self.lv(), Ok(None));
                                let mid = self.lv();
                                assert forall|v2: LoaderView, ss2: Seq<Seq<Seq<char>>>, rr: Result<
                                    Option<Seq<char>>,
                                    Error,
                                >|
                                    #[trigger] drive(self.lv(), self.streams(), v2, ss2, rr) implies drive(
                                    old(self).lv(),
                                    old(self).streams(),
                                    v2,
                                    ss2,
                                    rr,
                                ) by {
                                    assert(loader_step(conf_v, ev, mid, Ok(None)));
                                    assert(drive(mid, ss1, v2, ss2, rr));
                                    assert(drive(conf_v, conf_ss, v2, ss2, rr));
                                }
                            }
                        },
                        Ok(Some(path)) => {
                            proof {
                                lemma_step_file_request(pre_lv, ev, self.lv(), path@);
                                lemma_loader_step_result(pre_lv, ev, self.lv(), Ok(Some(path@)));
                                assert(drive(
                                    conf_v,
                                    conf_ss,
                                    self.lv(),
                                    self.streams(),
                                    Ok(Some(path@)),
                                ));
                            }
                            return Ok(LoadStep::NeedFile(path));
                        },
                        Err(e) => {
                            proof {
                                lemma_loader_step_result(pre_lv, ev, self.lv(), Err(e));
                                assert(drive(conf_v, conf_ss, self.lv(), self.streams(), Err(e)));
                            }
                            return Err(e);
                        },
                    }
                },
            }
        }
    }
}

/// The outcome a directive has in a given state: `Ok(None)` for an
/// ordinary step, `Ok(Some(path))` for a file request, or the error.
/// The outcome — unlike the resulting state — is a function of the
/// state and the directive.
pub open spec fn step_result(pre: LoaderView, e: ElemView) -> Result<Option<Seq<char>>, Error> {
    match e {
        ElemView::Include(p) => if ends_gz(p) {
            Err(Error::Unsupported)
        } else {
            Ok(Some(p))
        },
        ElemView::Import(_) => Err(Error::Unsupported),
        ElemView::TransformTimes { .. } => Err(Error::Unsupported),
        ElemView::ActiveTransform { .. } => Err(Error::Unsupported),
        ElemView::ColorSpace { .. } => Err(Error::Unsupported),
        ElemView::PixelFilter { .. } => Err(Error::Unsupported),
        ElemView::ObjectBegin { .. } => Err(Error::Unsupported),
        ElemView::ObjectEnd => Err(Error::Unsupported),
        ElemView::ObjectInstance { .. } => Err(Error::Unsupported),
        ElemView::CoordSysTransform { name } => match assoc(pre.coords, name) {
            Some(_) => Ok(None),
            None => Err(Error::UnknownCoordinateSystem),
        },
        ElemView::AttributeEnd => if pre.stack.len() == 0 {
            Err(Error::TooManyEndAttributes)
        } else {
            Ok(None)
        },
        ElemView::Attribute { target, .. } => if target == "shape"@ || target == "light"@
            || target == "material"@ || target == "medium"@ || target == "texture"@ {
            Ok(None)
        } else {
            Err(Error::Unsupported)
        },
        _ => Ok(None),
    }
}

/// A step's outcome is `step_result` of the state and the directive.
pub proof fn lemma_loader_step_result(
    pre: LoaderView,
    e: ElemView,
    post: LoaderView,
    r: Result<Option<Seq<char>>, Error>,
)
    requires
        loader_step(pre, e, post, r),
    ensures
        r == step_result(pre, e),
{
}

/// The total count of unread tokens across the open frames.
pub open spec fn streams_toks(ss: Seq<Seq<Seq<char>>>) -> nat
    decreases ss.len(),
{
    if ss.len() == 0 {
        0
    } else {
        streams_toks(ss.drop_last()) + ss.last().len()
    }
}

pub proof fn lemma_streams_toks_update_last(ss: Seq<Seq<Seq<char>>>, t: Seq<Seq<char>>)
    requires
        ss.len() > 0,
    ensures
        streams_toks(ss.update(ss.len() - 1, t)) == streams_toks(ss) - ss.last().len() + t.len(),
{
    let u = ss.update(ss.len() - 1, t);
    assert(u.drop_last() =~= ss.drop_last());
    assert(u.last() == t);
}

/// How the driver takes a loader from one configuration (state plus open
/// frames' token streams) to an outcome:
/// - with no frame left, the load is complete (`Ok(None)`);
/// - a frame whose stream is exhausted is popped and the outer frame
///   resumes, so an inner file is always drained before the file that
///   named it continues;
/// - otherwise the next directive is exactly what `spec_parse_next`
///   yields from the top frame's stream, which it consumes; the first
///   parse or step error aborts the whole load and surfaces unchanged;
///   an `Include` directive stops the driver with the named path; an
///   ordinary directive steps the state and the driver goes on.
pub open spec fn drive(
    v: LoaderView,
    ss: Seq<Seq<Seq<char>>>,
    v2: LoaderView,
    ss2: Seq<Seq<Seq<char>>>,
    r: Result<Option<Seq<char>>, Error>,
) -> bool
    decreases streams_toks(ss), ss.len(),
{
    if ss.len() == 0 {
        v2 == v && ss2 == ss && r == Ok::<Option<Seq<char>>, Error>(None)
    } else {
        let ts = ss.last();
        match spec_parse_next(ts) {
            Err(e) => if e == Error::EndOfFile {
                drive(v, ss.drop_last(), v2, ss2, r)
            } else {
                r == Err::<Option<Seq<char>>, Error>(e)
            },
            Ok((ev, k)) => {
                proof {
                    crate::parser::lemma_spec_parse_next_min(ts);
                    lemma_streams_toks_update_last(ss, crate::parser::drop_n(ts, k));
                    assert(crate::parser::drop_n(ts, k).len() < ts.len());
                }
                let ss1 = ss.update(ss.len() - 1, crate::parser::drop_n(ts, k));
                match step_result(v, ev) {
                    Ok(Some(p)) => r == Ok::<Option<Seq<char>>, Error>(Some(p)) && v2 == v && ss2
                        == ss1,
                    Ok(None) => exists|mid: LoaderView|
                        #[trigger] loader_step(v, ev, mid, Ok(None)) && drive(mid, ss1, v2, ss2, r),
                    Err(e) => r == Err::<Option<Seq<char>>, Error>(e),
                }
            },
        }
    }
}

/// What `advance` reports, as the driver's outcome.
pub open spec fn load_step_view(r: Result<LoadStep, Error>) -> Result<Option<Seq<char>>, Error> {
    match r {
        Ok(LoadStep::Done) => Ok(None),
        Ok(LoadStep::NeedFile(p)) => Ok(Some(p@)),
        Err(e) => Err(e),
    }
}

/// Only an `Include` directive asks for a file, it asks for the path
/// exactly as written, and never for a compressed file.
pub proof fn lemma_step_file_request(
    pre: LoaderView,
    e: ElemView,
    post: LoaderView,
    p: Seq<char>,
)
    requires
        loader_step(pre, e, post, Ok(Some(p))),
    ensures
        e == ElemView::Include(p),
        !ends_gz(p),
        post == pre,
{
}

/// A scope end with no matching begin yields the unbalanced-scope error
/// and changes nothing.
pub proof fn lemma_unbalanced_scope_end(
    pre: LoaderView,
    post: LoaderView,
    r: Result<Option<Seq<char>>, Error>,
)
    requires
        loader_step(pre, ElemView::AttributeEnd, post, r),
        pre.stack.len() == 0,
    ensures
        r == Err::<Option<Seq<char>>, Error>(Error::TooManyEndAttributes),
        post == pre,
{
}

/// A chain over a concatenation splits at the seam.
pub proof fn lemma_loader_steps_split(
    pre: LoaderView,
    s1: Seq<ElemView>,
    s2: Seq<ElemView>,
    post: LoaderView,
)
    requires
        loader_steps(pre, s1 + s2, post),
    ensures
        exists|mid: LoaderView|
            #[trigger] loader_steps(pre, s1, mid) && loader_steps(mid, s2, post),
    decreases s1.len(),
{
    if s1.len() == 0 {
        assert(s1 + s2 =~= s2);
        assert(loader_steps(pre, s1, pre));
    } else {
        assert((s1 + s2)[0] == s1[0]);
        assert((s1 + s2).len() > 0);
        let m1 = choose|m1: LoaderView|
            #[trigger] loader_step(pre, (s1 + s2)[0], m1, Ok(None)) && loader_steps(
                m1,
                (s1 + s2).skip(1),
                post,
            );
        assert((s1 + s2).skip(1) =~= s1.skip(1) + s2);
        lemma_loader_steps_split(m1, s1.skip(1), s2, post);
        let m2 = choose|m2: LoaderView|
            #[trigger] loader_steps(m1, s1.skip(1), m2) && loader_steps(m2, s2, post);
        assert(loader_step(pre, s1[0], m1, Ok(None)));
        assert(loader_steps(pre, s1, m2));
    }
}

/// `n` copies of one directive.
pub open spec fn reps(e: ElemView, n: nat) -> Seq<ElemView> {
    Seq::new(n, |i: int| e)
}

/// Balanced scoping is neutral: any number of scope begins followed by
/// as many scope ends restores the graphics state — the transform
/// included — and the scope stack exactly.
pub proof fn lemma_scope_balance(pre: LoaderView, post: LoaderView, n: nat)
    requires
        loader_steps(pre, reps(ElemView::AttributeBegin, n) + reps(ElemView::AttributeEnd, n), post),
    ensures
        post.state == pre.state,
        post.stack == pre.stack,
    decreases n,
{
    let bs = reps(ElemView::AttributeBegin, n);
    let es = reps(ElemView::AttributeEnd, n);
    if n == 0 {
        assert(bs + es =~= Seq::<ElemView>::empty());
    } else {
        let full = bs + es;
        assert(full.len() > 0);
        assert(full[0] == ElemView::AttributeBegin);
        let m1 = choose|m1: LoaderView|
            #[trigger] loader_step(pre, full[0], m1, Ok(None)) && loader_steps(
                m1,
                full.skip(1),
                post,
            );
        assert(m1.state == pre.state && m1.stack == pre.stack.push(pre.state));
        let inner = reps(ElemView::AttributeBegin, (n - 1) as nat) + reps(
            ElemView::AttributeEnd,
            (n - 1) as nat,
        );
        assert(full.skip(1) =~= inner + seq![ElemView::AttributeEnd]);
        lemma_loader_steps_split(m1, inner, seq![ElemView::AttributeEnd], post);
        let m2 = choose|m2: LoaderView|
            #[trigger] loader_steps(m1, inner, m2) && loader_steps(
                m2,
                seq![ElemView::AttributeEnd],
                post,
            );
        lemma_scope_balance(m1, m2, (n - 1) as nat);
        assert(m2.state == m1.state && m2.stack == m1.stack);
        let m3 = choose|m3: LoaderView|
            #[trigger] loader_step(m2, seq![ElemView::AttributeEnd][0], m3, Ok(None))
                && loader_steps(m3, seq![ElemView::AttributeEnd].skip(1), post);
        assert(seq![ElemView::AttributeEnd].skip(1) =~= Seq::<ElemView>::empty());
        assert(post == m3);
        assert(m2.stack.len() > 0);
        assert(post.state == m2.stack.last() && post.stack == m2.stack.drop_last());
        assert(m2.stack =~= pre.stack.push(pre.state));
        assert(post.stack =~= pre.stack);
    }
}

/// Transform directives touch nothing but the current transform: the
/// named snapshots, the scope stack, the scene, the registries and the
/// rest of the graphics state are kept.
pub proof fn lemma_transform_steps_preserve(pre: LoaderView, es: Seq<ElemView>, post: LoaderView)
    requires
        loader_steps(pre, es, post),
        forall|i: int| 0 <= i < es.len() ==> is_transform_elem(#[trigger] es[i]),
    ensures
        post == (LoaderView { state: StateView { ctm: post.state.ctm, ..pre.state }, ..pre }),
    decreases es.len(),
{
    if es.len() == 0 {
        assert(post == pre);
        assert(post =~= (LoaderView {
            state: StateView { ctm: post.state.ctm, ..pre.state },
            ..pre
        }));
    } else {
        let m1 = choose|m1: LoaderView|
            #[trigger] loader_step(pre, es[0], m1, Ok(None)) && loader_steps(
                m1,
                es.skip(1),
                post,
            );
        assert(is_transform_elem(es[0]));
        assert(m1 == (LoaderView { state: StateView { ctm: m1.state.ctm, ..pre.state }, ..pre }));
        assert(forall|i: int|
            0 <= i < es.skip(1).len() ==> is_transform_elem(#[trigger] es.skip(1)[i]));
        lemma_transform_steps_preserve(m1, es.skip(1), post);
        assert(post =~= (LoaderView {
            state: StateView { ctm: post.state.ctm, ..pre.state },
            ..pre
        }));
    }
}

/// Naming the current transform, then applying any transform directives,
/// then restoring by that name yields exactly the transform at the
/// naming point.
pub proof fn lemma_coord_system_restore(
    v0: LoaderView,
    v1: LoaderView,
    es: Seq<ElemView>,
    v2: LoaderView,
    v3: LoaderView,
    name: Seq<char>,
    r: Result<Option<Seq<char>>, Error>,
)
    requires
        loader_step(v0, ElemView::CoordinateSystem { name }, v1, Ok(None)),
        loader_steps(v1, es, v2),
        forall|i: int| 0 <= i < es.len() ==> is_transform_elem(#[trigger] es[i]),
        loader_step(v2, ElemView::CoordSysTransform { name }, v3, r),
    ensures
        r == Ok::<Option<Seq<char>>, Error>(None),
        v3.state.ctm == v0.state.ctm,
{
    lemma_transform_steps_preserve(v1, es, v2);
    assert(v2.coords == v0.coords.push((name, v0.state.ctm)));
    assert(v2.coords.last() == (name, v0.state.ctm));
    assert(assoc(v2.coords, name) == Some(v0.state.ctm));
}

} // verus!
