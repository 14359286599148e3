//! Ready-made scenes. Each function describes a scene and the picture to take
//! of it: the objects with their looks, where each is put, the light, the
//! camera and the name of the image file. Turning the placements into
//! matrices, rendering and writing the file is left to the caller. Every call
//! makes new objects, whose identities are drawn at random: it aborts when the
//! operating system has no randomness to give.
use vstd::prelude::*;
use crate::canvas::Color;
use crate::geometry::{Point, Vector};
use crate::light::PointLight;
use crate::material::Material;
use crate::object::{Object, Shape};
use crate::pattern::{Pattern, PatternType};
use crate::scalar::{
    Scalar, FOUR_FIFTHS_BITS, HALF_BITS, MINUS_TEN_BITS, NINE_TENTHS_BITS, ONE_BITS,
    ONE_TENTH_BITS, QUARTER_BITS, SEVEN_TENTHS_BITS, TEN_BITS, THREE_HALVES_BITS,
    THREE_TENTHS_BITS,
};
use crate::transform::Placement;

verus! {

/// The pattern of `0.33`.
pub const THIRD_BITS: u64 = 0x3FD5_1EB8_51EB_851F;

/// The pattern of `0.75`.
pub const THREE_QUARTERS_BITS: u64 = 0x3FE8_0000_0000_0000;

/// The pattern of `5.0`.
pub const FIVE_BITS: u64 = 0x4014_0000_0000_0000;

/// The pattern of a sixth of a turn, `PI / 3`.
pub const SIXTH_TURN_BITS: u64 = 0x3FF0_C152_382D_7365;

/// The pattern of a quarter of a turn, `PI / 2`.
pub const QUARTER_TURN_BITS: u64 = 0x3FF9_21FB_5444_2D18;

/// The pattern of an eighth of a turn, `PI / 4`.
pub const EIGHTH_TURN_BITS: u64 = 0x3FE9_21FB_5444_2D18;

/// An object of a scene with the maps that place it. The object itself is not
/// moved yet: `placement` lists the factors of its transform, and
/// `pattern_placement` those of the transform of its pattern.
pub struct Placed {
    pub object: Object,
    pub placement: Vec<Placement>,
    pub pattern_placement: Vec<Placement>,
}

/// How the picture is taken: the size of the image in pixels, the angle of
/// view in radians, and where the eye is, what it looks at and which way is up.
#[derive(Clone, Copy, Debug, PartialEq)]
pub struct CameraSetup {
    pub hsize: usize,
    pub vsize: usize,
    pub field_of_view: Scalar,
    pub from: Point,
    pub to: Point,
    pub up: Vector,
}

/// A scene, the camera that looks at it, and the file the picture goes to.
pub struct Scene {
    pub objects: Vec<Placed>,
    pub lights: Vec<PointLight>,
    pub camera: CameraSetup,
    pub file_name: &'static str,
}

/// The scalar with the given bit pattern.
pub open spec fn num(bits: u64) -> Scalar {
    Scalar { bits }
}

/// The light of every example: white, at (-10, 10, -10).
pub open spec fn usual_light() -> PointLight {
    PointLight {
        position: Point(num(MINUS_TEN_BITS), num(TEN_BITS), num(MINUS_TEN_BITS)),
        intensity: Color::of_bits(ONE_BITS, ONE_BITS, ONE_BITS),
    }
}

/// The camera of every example: 1000 by 500 pixels, a sixth of a turn wide,
/// at (0, 1.5, -5), looking at (0, 1, 0), Y up.
pub open spec fn usual_camera() -> CameraSetup {
    CameraSetup {
        hsize: 1000,
        vsize: 500,
        field_of_view: num(SIXTH_TURN_BITS),
        from: Point(num(0), num(THREE_HALVES_BITS), num(FIVE_BITS).neg_spec()),
        to: Point(num(0), num(ONE_BITS), num(0)),
        up: Vector(num(0), num(ONE_BITS), num(0)),
    }
}

/// The place of the middle sphere: (-0.5, 1, 0.5).
pub open spec fn middle_place() -> Placement {
    Placement::Translation(num(HALF_BITS).neg_spec(), num(ONE_BITS), num(HALF_BITS))
}

/// The placement of the right sphere: half size, at (1.5, 0.5, -0.5).
pub open spec fn right_placement() -> Seq<Placement> {
    seq![
        Placement::Translation(num(THREE_HALVES_BITS), num(HALF_BITS), num(HALF_BITS).neg_spec()),
        Placement::Scaling(num(HALF_BITS), num(HALF_BITS), num(HALF_BITS)),
    ]
}

/// The placement of the left sphere: a third of the size, at
/// (-1.5, 0.33, -0.75).
pub open spec fn left_placement() -> Seq<Placement> {
    seq![
        Placement::Translation(
            num(THREE_HALVES_BITS).neg_spec(),
            num(THIRD_BITS),
            num(THREE_QUARTERS_BITS).neg_spec(),
        ),
        Placement::Scaling(num(THIRD_BITS), num(THIRD_BITS), num(THIRD_BITS)),
    ]
}

/// A matte material of the given colour, diffuse 0.7 and specular 0.3, that
/// reflects the share `reflective` of what it mirrors.
pub open spec fn ball_look(color: Color, reflective: u64) -> Material {
    Material {
        color,
        diffuse: num(SEVEN_TENTHS_BITS),
        specular: num(THREE_TENTHS_BITS),
        reflective: num(reflective),
        ..Material::baseline()
    }
}

impl Placed {
    /// Whether this is an unmoved object of the given shape whose material,
    /// the pattern left aside, is `look`; whose pattern, if `rule` names one,
    /// follows that rule and is unmoved too; and which is placed by the given
    /// lists.
    pub open spec fn is_posed(
        self,
        shape: Shape,
        look: Material,
        rule: Option<PatternType>,
        placement: Seq<Placement>,
        pattern_placement: Seq<Placement>,
    ) -> bool {
        &&& self.object.shape == shape
        &&& self.object.transform.m.is_identity()
        &&& self.object.transform.minv.is_identity()
        &&& (Material { pattern: None, ..self.object.material }) == look
        &&& match rule {
            None => self.object.material.pattern is None,
            Some(kind) => {
                &&& self.object.material.pattern matches Some(p)
                &&& p.pattern == kind
                &&& p.transform.m.is_identity()
                &&& p.transform.minv.is_identity()
            },
        }
        &&& self.placement@ == placement
        &&& self.pattern_placement@ == pattern_placement
    }
}

fn light() -> (l: PointLight)
    ensures
        l == usual_light(),
{
    PointLight {
        position: Point(
            Scalar::from_bits(MINUS_TEN_BITS),
            Scalar::from_bits(TEN_BITS),
            Scalar::from_bits(MINUS_TEN_BITS),
        ),
        intensity: Color::white(),
    }
}

fn camera() -> (c: CameraSetup)
    ensures
        c == usual_camera(),
{
    CameraSetup {
        hsize: 1000,
        vsize: 500,
        field_of_view: Scalar::from_bits(SIXTH_TURN_BITS),
        from: Point(
            Scalar::zero(),
            Scalar::from_bits(THREE_HALVES_BITS),
            Scalar::from_bits(FIVE_BITS).neg(),
        ),
        to: Point(Scalar::zero(), Scalar::one(), Scalar::zero()),
        up: Vector(Scalar::zero(), Scalar::one(), Scalar::zero()),
    }
}

/// An object that stays where it is.
fn unmoved(object: Object) -> (p: Placed)
    ensures
        p.object == object,
        p.placement@ == Seq::<Placement>::empty(),
        p.pattern_placement@ == Seq::<Placement>::empty(),
{
    Placed { object, placement: Vec::new(), pattern_placement: Vec::new() }
}

/// An object placed by a single map.
fn moved(object: Object, by: Placement) -> (p: Placed)
    ensures
        p.object == object,
        p.placement@ == seq![by],
        p.pattern_placement@ == Seq::<Placement>::empty(),
{
    let mut placement: Vec<Placement> = Vec::new();
    placement.push(by);
    Placed { object, placement, pattern_placement: Vec::new() }
}

/// An object placed by the product of two maps.
fn moved_twice(object: Object, first: Placement, second: Placement) -> (p: Placed)
    ensures
        p.object == object,
        p.placement@ == seq![first, second],
        p.pattern_placement@ == Seq::<Placement>::empty(),
{
    let mut placement: Vec<Placement> = Vec::new();
    placement.push(first);
    placement.push(second);
    Placed { object, placement, pattern_placement: Vec::new() }
}

fn middle_step() -> (p: Placement)
    ensures
        p == middle_place(),
{
    Placement::Translation(
        Scalar::from_bits(HALF_BITS).neg(),
        Scalar::one(),
        Scalar::from_bits(HALF_BITS),
    )
}

/// A sphere of the look `ball_look(color, reflective)`.
fn ball(color: Color, reflective: u64) -> (o: Object)
    ensures
        o.shape == Shape::Sphere,
        o.transform.m.is_identity(),
        o.transform.minv.is_identity(),
        o.material == ball_look(color, reflective),
{
    Object::sphere().set_color(color).set_diffuse(Scalar::from_bits(SEVEN_TENTHS_BITS)).set_reflective(
        Scalar::from_bits(reflective),
    ).set_specular(Scalar::from_bits(THREE_TENTHS_BITS))
}

/// The right sphere of the three, with its placement.
fn right_ball(reflective: u64) -> (p: Placed)
    ensures
        p.is_posed(
            Shape::Sphere,
            ball_look(Color::of_bits(HALF_BITS, ONE_BITS, ONE_TENTH_BITS), reflective),
            None,
            right_placement(),
            Seq::empty(),
        ),
{
    let half = Scalar::from_bits(HALF_BITS);
    moved_twice(
        ball(Color(half, Scalar::one(), Scalar::from_bits(ONE_TENTH_BITS)), reflective),
        Placement::Translation(Scalar::from_bits(THREE_HALVES_BITS), half, half.neg()),
        Placement::Scaling(half, half, half),
    )
}

/// The left sphere of the three, with its placement.
fn left_ball(reflective: u64) -> (p: Placed)
    ensures
        p.is_posed(
            Shape::Sphere,
            ball_look(Color::of_bits(ONE_BITS, FOUR_FIFTHS_BITS, ONE_TENTH_BITS), reflective),
            None,
            left_placement(),
            Seq::empty(),
        ),
{
    let third = Scalar::from_bits(THIRD_BITS);
    moved_twice(
        ball(
            Color(
                Scalar::one(),
                Scalar::from_bits(FOUR_FIFTHS_BITS),
                Scalar::from_bits(ONE_TENTH_BITS),
            ),
            reflective,
        ),
        Placement::Translation(
            Scalar::from_bits(THREE_HALVES_BITS).neg(),
            third,
            Scalar::from_bits(THREE_QUARTERS_BITS).neg(),
        ),
        Placement::Scaling(third, third, third),
    )
}

/// A mirror floor with three coloured spheres on it, each reflecting a share
/// of its surroundings.
pub fn floor_with_3_spheres() -> (scene: Scene)
    ensures
        scene.file_name@ == "planes_and_three_sheres.png"@,
        scene.camera == usual_camera(),
        scene.lights@ == seq![usual_light()],
        scene.objects@.len() == 4,
        scene.objects@[0].is_posed(
            Shape::Plane,
            Material {
                color: Color::of_bits(ONE_BITS, NINE_TENTHS_BITS, NINE_TENTHS_BITS),
                specular: num(0),
                reflective: num(ONE_BITS),
                ..Material::baseline()
            },
            None,
            Seq::empty(),
            Seq::empty(),
        ),
        scene.objects@[1].is_posed(
            Shape::Sphere,
            ball_look(Color::of_bits(ONE_TENTH_BITS, ONE_BITS, HALF_BITS), HALF_BITS),
            None,
            seq![middle_place()],
            Seq::empty(),
        ),
        scene.objects@[2].is_posed(
            Shape::Sphere,
            ball_look(Color::of_bits(ONE_BITS, FOUR_FIFTHS_BITS, ONE_TENTH_BITS), THREE_TENTHS_BITS),
            None,
            left_placement(),
            Seq::empty(),
        ),
        scene.objects@[3].is_posed(
            Shape::Sphere,
            ball_look(Color::of_bits(HALF_BITS, ONE_BITS, ONE_TENTH_BITS), ONE_TENTH_BITS),
            None,
            right_placement(),
            Seq::empty(),
        ),
{
    let nine_tenths = Scalar::from_bits(NINE_TENTHS_BITS);
    let floor = Object::plane().set_color(Color(Scalar::one(), nine_tenths, nine_tenths)).set_specular(
        Scalar::zero(),
    ).set_reflective(Scalar::one());
    let middle = ball(
        Color(Scalar::from_bits(ONE_TENTH_BITS), Scalar::one(), Scalar::from_bits(HALF_BITS)),
        HALF_BITS,
    );
    let mut objects: Vec<Placed> = Vec::new();
    objects.push(unmoved(floor));
    objects.push(moved(middle, middle_step()));
    objects.push(left_ball(THREE_TENTHS_BITS));
    objects.push(right_ball(ONE_TENTH_BITS));
    let mut lights: Vec<PointLight> = Vec::new();
    lights.push(light());
    Scene { objects, lights, camera: camera(), file_name: "planes_and_three_sheres.png" }
}

/// A matte floor, a blue wall standing behind it, and three matte spheres.
pub fn floor_with_3_spheres_and_wall() -> (scene: Scene)
    ensures
        scene.file_name@ == "planes_and_three_sheres_and_wall.png"@,
        scene.camera == usual_camera(),
        scene.lights@ == seq![usual_light()],
        scene.objects@.len() == 5,
        scene.objects@[0].is_posed(
            Shape::Plane,
            Material {
                color: Color::of_bits(ONE_BITS, NINE_TENTHS_BITS, NINE_TENTHS_BITS),
                specular: num(0),
                ..Material::baseline()
            },
            None,
            Seq::empty(),
            Seq::empty(),
        ),
        scene.objects@[1].is_posed(
            Shape::Plane,
            Material {
                color: Color::of_bits(0, 0, ONE_BITS),
                specular: num(0),
                ..Material::baseline()
            },
            None,
            seq![
                Placement::Translation(num(0), num(0), num(TEN_BITS)),
                Placement::RotationX(num(QUARTER_TURN_BITS)),
            ],
            Seq::empty(),
        ),
        scene.objects@[2].is_posed(
            Shape::Sphere,
            ball_look(Color::of_bits(ONE_TENTH_BITS, ONE_BITS, HALF_BITS), 0),
            None,
            seq![middle_place()],
            Seq::empty(),
        ),
        scene.objects@[3].is_posed(
            Shape::Sphere,
            ball_look(Color::of_bits(ONE_BITS, FOUR_FIFTHS_BITS, ONE_TENTH_BITS), 0),
            None,
            left_placement(),
            Seq::empty(),
        ),
        scene.objects@[4].is_posed(
            Shape::Sphere,
            ball_look(Color::of_bits(HALF_BITS, ONE_BITS, ONE_TENTH_BITS), 0),
            None,
            right_placement(),
            Seq::empty(),
        ),
{
    let nine_tenths = Scalar::from_bits(NINE_TENTHS_BITS);
    let floor = Object::plane().set_color(Color(Scalar::one(), nine_tenths, nine_tenths)).set_specular(
        Scalar::zero(),
    );
    let wall = Object::plane().set_color(Color::blue()).set_specular(Scalar::zero());
    let middle = ball(
        Color(Scalar::from_bits(ONE_TENTH_BITS), Scalar::one(), Scalar::from_bits(HALF_BITS)),
        0,
    );
    let mut objects: Vec<Placed> = Vec::new();
    objects.push(unmoved(floor));
    objects.push(
        moved_twice(
            wall,
            Placement::Translation(Scalar::zero(), Scalar::zero(), Scalar::from_bits(TEN_BITS)),
            Placement::RotationX(Scalar::from_bits(QUARTER_TURN_BITS)),
        ),
    );
    objects.push(moved(middle, middle_step()));
    objects.push(left_ball(0));
    objects.push(right_ball(0));
    let mut lights: Vec<PointLight> = Vec::new();
    lights.push(light());
    Scene { objects, lights, camera: camera(), file_name: "planes_and_three_sheres_and_wall.png" }
}

/// A striped floor with a striped sphere between two plain ones.
pub fn floor_with_pattern() -> (scene: Scene)
    ensures
        scene.file_name@ == "floor_with_pattern.png"@,
        scene.camera == usual_camera(),
        scene.lights@ == seq![usual_light()],
        scene.objects@.len() == 4,
        scene.objects@[0].is_posed(
            Shape::Plane,
            Material { specular: num(0), ..Material::baseline() },
            Some(
                PatternType::Stripe(
                    Color::of_bits(ONE_BITS, ONE_BITS, ONE_BITS),
                    Color::of_bits(0, 0, 0),
                ),
            ),
            Seq::empty(),
            Seq::empty(),
        ),
        scene.objects@[1].is_posed(
            Shape::Sphere,
            Material {
                diffuse: num(SEVEN_TENTHS_BITS),
                specular: num(THREE_TENTHS_BITS),
                ..Material::baseline()
            },
            Some(
                PatternType::Stripe(
                    Color::of_bits(ONE_TENTH_BITS, ONE_BITS, HALF_BITS),
                    Color::of_bits(ONE_BITS, ONE_TENTH_BITS, HALF_BITS),
                ),
            ),
            seq![middle_place()],
            Seq::empty(),
        ),
        scene.objects@[2].is_posed(
            Shape::Sphere,
            ball_look(Color::of_bits(ONE_BITS, FOUR_FIFTHS_BITS, ONE_TENTH_BITS), 0),
            None,
            left_placement(),
            Seq::empty(),
        ),
        scene.objects@[3].is_posed(
            Shape::Sphere,
            ball_look(Color::of_bits(HALF_BITS, ONE_BITS, ONE_TENTH_BITS), 0),
            None,
            right_placement(),
            Seq::empty(),
        ),
{
    let tenth = Scalar::from_bits(ONE_TENTH_BITS);
    let half = Scalar::from_bits(HALF_BITS);
    let floor = Object::plane().set_specular(Scalar::zero()).set_pattern(
        Pattern::stripe_pattern(Color::white(), Color::black()),
    );
    let middle = Object::sphere().set_pattern(
        Pattern::stripe_pattern(Color(tenth, Scalar::one(), half), Color(Scalar::one(), tenth, half)),
    ).set_diffuse(Scalar::from_bits(SEVEN_TENTHS_BITS)).set_specular(
        Scalar::from_bits(THREE_TENTHS_BITS),
    );
    let mut objects: Vec<Placed> = Vec::new();
    objects.push(unmoved(floor));
    objects.push(moved(middle, middle_step()));
    objects.push(left_ball(0));
    objects.push(right_ball(0));
    let mut lights: Vec<PointLight> = Vec::new();
    lights.push(light());
    Scene { objects, lights, camera: camera(), file_name: "floor_with_pattern.png" }
}

/// A lone matte floor that carries the given pattern in white and black.
fn patterned_floor(pattern: Pattern, file_name: &'static str) -> (scene: Scene)
    requires
        pattern.transform.m.is_identity(),
        pattern.transform.minv.is_identity(),
    ensures
        scene.file_name == file_name,
        scene.camera == usual_camera(),
        scene.lights@ == seq![usual_light()],
        scene.objects@.len() == 1,
        scene.objects@[0].is_posed(
            Shape::Plane,
            Material { specular: num(0), ..Material::baseline() },
            Some(pattern.pattern),
            Seq::empty(),
            Seq::empty(),
        ),
{
    let floor = Object::plane().set_specular(Scalar::zero()).set_pattern(pattern);
    let mut objects: Vec<Placed> = Vec::new();
    objects.push(unmoved(floor));
    let mut lights: Vec<PointLight> = Vec::new();
    lights.push(light());
    Scene { objects, lights, camera: camera(), file_name }
}

/// A lone sphere in the middle place that carries the given pattern.
fn patterned_sphere(pattern: Pattern, file_name: &'static str) -> (scene: Scene)
    requires
        pattern.transform.m.is_identity(),
        pattern.transform.minv.is_identity(),
    ensures
        scene.file_name == file_name,
        scene.camera == usual_camera(),
        scene.lights@ == seq![usual_light()],
        scene.objects@.len() == 1,
        scene.objects@[0].is_posed(
            Shape::Sphere,
            Material::baseline(),
            Some(pattern.pattern),
            seq![middle_place()],
            Seq::empty(),
        ),
{
    let sphere = Object::sphere().set_pattern(pattern);
    let mut objects: Vec<Placed> = Vec::new();
    objects.push(moved(sphere, middle_step()));
    let mut lights: Vec<PointLight> = Vec::new();
    lights.push(light());
    Scene { objects, lights, camera: camera(), file_name }
}

/// A floor chequered in white and black.
pub fn checkered_plane() -> (scene: Scene)
    ensures
        scene.file_name@ == "checkered_plane.png"@,
        scene.camera == usual_camera(),
        scene.lights@ == seq![usual_light()],
        scene.objects@.len() == 1,
        scene.objects@[0].is_posed(
            Shape::Plane,
            Material { specular: num(0), ..Material::baseline() },
            Some(
                PatternType::Checkers(
                    Color::of_bits(ONE_BITS, ONE_BITS, ONE_BITS),
                    Color::of_bits(0, 0, 0),
                ),
            ),
            Seq::empty(),
            Seq::empty(),
        ),
{
    patterned_floor(
        Pattern::checkers_pattern(Color::white(), Color::black()),
        "checkered_plane.png",
    )
}

/// A sphere chequered in white and black, the pattern at a quarter of its
/// size, the sphere turned by an eighth of a turn about Y.
pub fn checkered_sphere() -> (scene: Scene)
    ensures
        scene.file_name@ == "checkered_sphere.png"@,
        scene.camera == usual_camera(),
        scene.lights@ == seq![usual_light()],
        scene.objects@.len() == 1,
        scene.objects@[0].is_posed(
            Shape::Sphere,
            Material::baseline(),
            Some(
                PatternType::Checkers(
                    Color::of_bits(ONE_BITS, ONE_BITS, ONE_BITS),
                    Color::of_bits(0, 0, 0),
                ),
            ),
            seq![middle_place(), Placement::RotationY(num(EIGHTH_TURN_BITS))],
            seq![Placement::Scaling(num(QUARTER_BITS), num(QUARTER_BITS), num(QUARTER_BITS))],
        ),
{
    let quarter = Scalar::from_bits(QUARTER_BITS);
    let sphere = Object::sphere().set_pattern(
        Pattern::checkers_pattern(Color::white(), Color::black()),
    );
    let mut placed = moved_twice(
        sphere,
        middle_step(),
        Placement::RotationY(Scalar::from_bits(EIGHTH_TURN_BITS)),
    );
    placed.pattern_placement.push(Placement::Scaling(quarter, quarter, quarter));
    assert(placed.pattern_placement@ =~= seq![
        Placement::Scaling(num(QUARTER_BITS), num(QUARTER_BITS), num(QUARTER_BITS)),
    ]);
    let mut objects: Vec<Placed> = Vec::new();
    objects.push(placed);
    let mut lights: Vec<PointLight> = Vec::new();
    lights.push(light());
    Scene { objects, lights, camera: camera(), file_name: "checkered_sphere.png" }
}

/// A floor that fades from white to black over each unit of X.
pub fn gradient_plane() -> (scene: Scene)
    ensures
        scene.file_name@ == "gradient_plane.png"@,
        scene.camera == usual_camera(),
        scene.lights@ == seq![usual_light()],
        scene.objects@.len() == 1,
        scene.objects@[0].is_posed(
            Shape::Plane,
            Material { specular: num(0), ..Material::baseline() },
            Some(
                PatternType::Gradient(
                    Color::of_bits(ONE_BITS, ONE_BITS, ONE_BITS),
                    Color::of_bits(0, 0, 0),
                ),
            ),
            Seq::empty(),
            Seq::empty(),
        ),
{
    patterned_floor(
        Pattern::gradient_pattern(Color::white(), Color::black()),
        "gradient_plane.png",
    )
}

/// A sphere that fades from white to black.
pub fn gradient_sphere() -> (scene: Scene)
    ensures
        scene.file_name@ == "gradient_sphere.png"@,
        scene.camera == usual_camera(),
        scene.lights@ == seq![usual_light()],
        scene.objects@.len() == 1,
        scene.objects@[0].is_posed(
            Shape::Sphere,
            Material::baseline(),
            Some(
                PatternType::Gradient(
                    Color::of_bits(ONE_BITS, ONE_BITS, ONE_BITS),
                    Color::of_bits(0, 0, 0),
                ),
            ),
            seq![middle_place()],
            Seq::empty(),
        ),
{
    patterned_sphere(
        Pattern::gradient_pattern(Color::white(), Color::black()),
        "gradient_sphere.png",
    )
}

/// A floor with white and black rings about the Y axis.
pub fn ring_plane() -> (scene: Scene)
    ensures
        scene.file_name@ == "ring_plane.png"@,
        scene.camera == usual_camera(),
        scene.lights@ == seq![usual_light()],
        scene.objects@.len() == 1,
        scene.objects@[0].is_posed(
            Shape::Plane,
            Material { specular: num(0), ..Material::baseline() },
            Some(
                PatternType::Ring(
                    Color::of_bits(ONE_BITS, ONE_BITS, ONE_BITS),
                    Color::of_bits(0, 0, 0),
                ),
            ),
            Seq::empty(),
            Seq::empty(),
        ),
{
    patterned_floor(Pattern::ring_pattern(Color::white(), Color::black()), "ring_plane.png")
}

/// A sphere with white and black rings.
pub fn ring_sphere() -> (scene: Scene)
    ensures
        scene.file_name@ == "ring_sphere.png"@,
        scene.camera == usual_camera(),
        scene.lights@ == seq![usual_light()],
        scene.objects@.len() == 1,
        scene.objects@[0].is_posed(
            Shape::Sphere,
            Material::baseline(),
            Some(
                PatternType::Ring(
                    Color::of_bits(ONE_BITS, ONE_BITS, ONE_BITS),
                    Color::of_bits(0, 0, 0),
                ),
            ),
            seq![middle_place()],
            Seq::empty(),
        ),
{
    patterned_sphere(Pattern::ring_pattern(Color::white(), Color::black()), "ring_sphere.png")
}

} // verus!
