use pbrt4::{Error, LoadStep, Loader, Scene};
use pbrt4::types::sphere_params;

/// Drive a loader over a buffer that names no other files.
fn load(data: &str) -> Result<Scene, Error> {
    let mut loader = Loader::new(data);
    loop {
        match loader.advance()? {
            LoadStep::Done => return Ok(loader.into_scene()),
            LoadStep::NeedFile(path) => panic!("unexpected file request: {}", path),
        }
    }
}

fn bits_of(m: glam::Mat4) -> Vec<u32> {
    m.to_cols_array().iter().map(|v| v.to_bits()).collect()
}

// Starting from identity, `Translate 1 0 0` then `Scale 2 2 2` yields
// the right-multiplied product, not the reverse one.
#[test]
fn translate_then_scale_order() {
    let mut loader = Loader::new("Translate 1 0 0 Scale 2 2 2");
    assert!(matches!(loader.advance(), Ok(LoadStep::Done)));

    let t = glam::Mat4::from_translation(glam::Vec3::new(1.0, 0.0, 0.0));
    let s = glam::Mat4::from_scale(glam::Vec3::new(2.0, 2.0, 2.0));
    let expected = bits_of((glam::Mat4::IDENTITY * t) * s);
    let reversed = bits_of((glam::Mat4::IDENTITY * s) * t);

    let got = loader.current_transform().entries().clone();
    assert_eq!(got, expected);
    assert_ne!(got, reversed);
}

// An end with no matching begin yields the unbalanced-scope error.
#[test]
fn unbalanced_scope_errors() {
    let mut loader = Loader::new("AttributeEnd");
    assert_eq!(loader.advance(), Err(Error::TooManyEndAttributes));
}

// N begins followed by N ends restores the transform to its pre-scope
// value exactly.
#[test]
fn balanced_scopes_restore_transform() {
    let mut loader = Loader::new(
        "Translate 1 2 3 \
         AttributeBegin AttributeBegin AttributeBegin \
         Scale 2 2 2 Rotate 30 0 0 1 \
         AttributeEnd AttributeEnd AttributeEnd",
    );
    assert!(matches!(loader.advance(), Ok(LoadStep::Done)));

    let t = glam::Mat4::from_translation(glam::Vec3::new(1.0, 2.0, 3.0));
    let expected = bits_of(glam::Mat4::IDENTITY * t);
    assert_eq!(loader.current_transform().entries(), &expected);
}

// CoordinateSystem followed by arbitrary transform directives followed by
// CoordSysTransform restores the transform to its value at the naming
// point exactly.
#[test]
fn coord_system_restores_transform() {
    let mut loader = Loader::new(
        "Translate 1 0 0 \
         CoordinateSystem \"x\" \
         Scale 2 2 2 Rotate 45 0 1 0 Identity Translate 5 5 5 \
         CoordSysTransform \"x\"",
    );
    assert!(matches!(loader.advance(), Ok(LoadStep::Done)));

    let t = glam::Mat4::from_translation(glam::Vec3::new(1.0, 0.0, 0.0));
    let expected = bits_of(glam::Mat4::IDENTITY * t);
    assert_eq!(loader.current_transform().entries(), &expected);
}

#[test]
fn unknown_coord_system_errors() {
    let mut loader = Loader::new("CoordSysTransform \"nope\"");
    assert_eq!(loader.advance(), Err(Error::UnknownCoordinateSystem));
}

// LookAt right-multiplies by the left-handed view matrix.
#[test]
fn look_at_matrix() {
    let mut loader = Loader::new("LookAt 0 0 -5 0 0 0 0 1 0");
    assert!(matches!(loader.advance(), Ok(LoadStep::Done)));

    let view = glam::Mat4::look_at_lh(
        glam::Vec3::new(0.0, 0.0, -5.0),
        glam::Vec3::new(0.0, 0.0, 0.0),
        glam::Vec3::new(0.0, 1.0, 0.0),
    );
    let expected = bits_of(glam::Mat4::IDENTITY * view);
    assert_eq!(loader.current_transform().entries(), &expected);
}

// The camera transform is the inverse of the transform active at the
// Camera directive, and it is recorded under the name "camera".
#[test]
fn camera_transform_is_inverse() {
    let scene = load(
        "Translate 2 0 0 Camera \"perspective\" \"float fov\" [ 45 ] \
         CoordSysTransform \"camera\"",
    )
    .unwrap();

    let t = glam::Mat4::from_translation(glam::Vec3::new(2.0, 0.0, 0.0));
    let expected = bits_of((glam::Mat4::IDENTITY * t).inverse());

    let camera = scene.camera.unwrap();
    assert_eq!(camera.params.ty, "perspective");
    assert_eq!(camera.transform.entries(), &expected);
}

// A Shape parameter also set by an Attribute of the matching category
// resolves to the inherited value: the inherited table wins.
#[test]
fn inherited_attribute_wins() {
    let scene = load(
        "WorldBegin\n\
         Attribute \"shape\" \"float radius\" [2]\n\
         Shape \"sphere\" \"float radius\" [1]\n",
    )
    .unwrap();

    assert_eq!(scene.shapes.len(), 1);
    let sphere = sphere_params(&scene.shapes[0].params.params);
    assert_eq!(sphere.radius, 2.0f32.to_bits());
}

// Named materials resolve to their indices in declaration order; an
// unknown name silently selects no material.
#[test]
fn named_material_indices() {
    let scene = load(
        "WorldBegin\n\
         MakeNamedMaterial \"a\" \"string type\" [\"coateddiffuse\"]\n\
         MakeNamedMaterial \"b\" \"string type\" [\"diffuse\"]\n\
         NamedMaterial \"a\"\n\
         Shape \"sphere\"\n\
         NamedMaterial \"b\"\n\
         Shape \"sphere\"\n\
         NamedMaterial \"missing\"\n\
         Shape \"sphere\"\n",
    )
    .unwrap();

    assert_eq!(scene.materials.len(), 2);
    assert_eq!(scene.shapes.len(), 3);
    assert_eq!(scene.shapes[0].material_index, Some(0));
    assert_eq!(scene.shapes[1].material_index, Some(1));
    assert_eq!(scene.shapes[2].material_index, None);
}

// A chain of four nested files, each holding one Shape directive, yields
// four shapes in file order; the loader asks for each file by the path
// exactly as the directive wrote it.
#[test]
fn nested_file_chain() {
    let mut loader = Loader::new("WorldBegin\nShape \"s0\"\nInclude \"f1.pbrt\"\n");
    let scene = loop {
        match loader.advance().unwrap() {
            LoadStep::Done => break loader.into_scene(),
            LoadStep::NeedFile(path) => match path.as_str() {
                "f1.pbrt" => loader.push_file("Shape \"s1\"\nInclude \"f2.pbrt\""),
                "f2.pbrt" => loader.push_file("Shape \"s2\"\nInclude \"f3.pbrt\""),
                "f3.pbrt" => loader.push_file("Shape \"s3\"\nInclude \"f4.pbrt\""),
                "f4.pbrt" => loader.push_file("Shape \"s4\""),
                other => panic!("unexpected file request: {}", other),
            },
        }
    };

    assert_eq!(scene.shapes.len(), 5);
    for (i, shape) in scene.shapes.iter().enumerate() {
        assert_eq!(shape.params.ty, format!("s{}", i));
    }
}

// End-to-end: one sphere with radius 2 and every other sphere parameter
// at its documented default.
#[test]
fn end_to_end_sphere() {
    let scene = load("WorldBegin\nShape \"sphere\" \"float radius\" [2]\n").unwrap();

    assert_eq!(scene.shapes.len(), 1);
    let entity = &scene.shapes[0];
    assert_eq!(entity.params.ty, "sphere");
    assert_eq!(entity.material_index, None);
    assert_eq!(entity.area_light_index, None);
    assert!(!entity.reverse_orientation);

    let sphere = sphere_params(&entity.params.params);
    assert_eq!(sphere.radius, 2.0f32.to_bits());
    assert_eq!(sphere.z_min, (-2.0f32).to_bits());
    assert_eq!(sphere.z_max, 2.0f32.to_bits());
    assert_eq!(sphere.phi_max, 360.0f32.to_bits());
    assert_eq!(sphere.alpha, 1.0f32.to_bits());
}

// ReverseOrientation toggles the flag carried by later shapes and is
// scope-local.
#[test]
fn reverse_orientation_scoped() {
    let scene = load(
        "WorldBegin\n\
         AttributeBegin\nReverseOrientation\nShape \"sphere\"\nAttributeEnd\n\
         Shape \"sphere\"\n",
    )
    .unwrap();

    assert!(scene.shapes[0].reverse_orientation);
    assert!(!scene.shapes[1].reverse_orientation);
}

// Import, compressed files and object instancing are rejected, never
// silently ignored.
#[test]
fn unsupported_directives() {
    let mut a = Loader::new("Import \"other.pbrt\"");
    assert_eq!(a.advance(), Err(Error::Unsupported));

    let mut b = Loader::new("Include \"big.pbrt.gz\"");
    assert_eq!(b.advance(), Err(Error::Unsupported));

    let mut c = Loader::new("ObjectBegin \"tree\"");
    assert_eq!(c.advance(), Err(Error::Unsupported));
}

// Area lights inherit the light category's attribute table and stamp
// their index on later shapes.
#[test]
fn area_light_index_and_merge() {
    let scene = load(
        "WorldBegin\n\
         Attribute \"light\" \"float scale\" [3]\n\
         AreaLightSource \"diffuse\" \"float scale\" [1]\n\
         Shape \"sphere\"\n",
    )
    .unwrap();

    assert_eq!(scene.area_lights.len(), 1);
    assert_eq!(scene.shapes[0].area_light_index, Some(0));
    assert_eq!(
        scene.area_lights[0].params.float("scale", 0),
        3.0f32.to_bits()
    );
}

// Plain light sources store their parameters as declared, without the
// inherited table.
#[test]
fn light_source_not_merged() {
    let scene = load(
        "WorldBegin\n\
         Attribute \"light\" \"float scale\" [3]\n\
         LightSource \"infinite\" \"float scale\" [1]\n",
    )
    .unwrap();

    assert_eq!(scene.lights.len(), 1);
    assert_eq!(scene.lights[0].params.float("scale", 0), 1.0f32.to_bits());
}

// Header-section entities land in their scene slots.
#[test]
fn header_entities() {
    let scene = load(
        "Film \"rgb\" \"integer xresolution\" [640]\n\
         Sampler \"halton\"\n\
         Integrator \"path\"\n\
         Accelerator \"bvh\"\n\
         Option \"string rendercoordsys\" [\"cameraworld\"]\n\
         WorldBegin\n",
    )
    .unwrap();

    assert_eq!(scene.film.as_ref().unwrap().ty, "rgb");
    assert_eq!(
        scene.film.as_ref().unwrap().params.integer("xresolution", 0),
        640
    );
    assert_eq!(scene.sampler.as_ref().unwrap().ty, "halton");
    assert_eq!(scene.integrator.as_ref().unwrap().ty, "path");
    assert_eq!(scene.accelerator.as_ref().unwrap().ty, "bvh");
    assert_eq!(
        scene.options.params.string("rendercoordsys"),
        Some("cameraworld")
    );
}

// Textures and mediums are registered and stored with merged tables.
#[test]
fn textures_and_mediums() {
    let scene = load(
        "WorldBegin\n\
         Texture \"checks\" \"spectrum\" \"checkerboard\" \"float uscale\" [8]\n\
         MakeNamedMedium \"fog\" \"float scale\" [2]\n",
    )
    .unwrap();

    assert_eq!(scene.textures.len(), 1);
    assert_eq!(scene.textures[0].name, "checks");
    assert_eq!(scene.textures[0].class, "checkerboard");
    assert_eq!(scene.mediums.len(), 1);
    assert_eq!(
        scene.mediums[0].params.float("scale", 0),
        2.0f32.to_bits()
    );
}
